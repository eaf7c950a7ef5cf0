//! One arena generation: a fixed array of node slots and a bump cursor.
//!
//! Every operation that changes a half takes it by `&mut`: a flip or an
//! allocation cannot overlap a traversal of the same half. Search workers
//! that share a tree hold it behind a lock and quiesce before a flip.
use vstd::prelude::*;

use crate::node::{points_away, severed, Edge, GameState, Node, NodeModel};
use crate::ptr::{NodePtr, PtrView, MAX_SLOTS};

verus! {

broadcast use crate::ptr::NodePtr::lemma_null_view, crate::ptr::NodePtr::lemma_new_view;

/// What a half holds: its slots, its cursor and its half flag.
pub struct HalfModel {
    pub nodes: Seq<NodeModel>,
    pub used: nat,
    pub half: bool,
}

impl HalfModel {
    pub open spec fn wf(self) -> bool {
        &&& self.used <= self.nodes.len()
        &&& self.nodes.len() < MAX_SLOTS
    }

    pub open spec fn capacity(self) -> nat {
        self.nodes.len()
    }

    /// A half of `size` placeholder slots, nothing allocated.
    pub open spec fn initial(size: nat, half: bool) -> HalfModel {
        HalfModel { nodes: Seq::new(size, |i: int| NodeModel::fresh(GameState::Ongoing)), used: 0, half }
    }

    /// One allocation: the next slot is reinitialised and named, or NULL
    /// comes back and nothing changes once every slot is taken.
    pub open spec fn push(self, state: GameState) -> (HalfModel, PtrView) {
        if self.used < self.nodes.len() {
            (
                HalfModel {
                    nodes: self.nodes.update(self.used as int, NodeModel::fresh(state)),
                    used: self.used + 1,
                    ..self
                },
                PtrView::At { half: self.half, idx: self.used },
            )
        } else {
            (self, PtrView::Null)
        }
    }

    /// `n` allocations in a row, all with outcome `state`: the final half
    /// and the pointers handed out, in order.
    pub open spec fn push_run(self, state: GameState, n: nat) -> (HalfModel, Seq<PtrView>)
        decreases n,
    {
        if n == 0 {
            (self, Seq::empty())
        } else {
            let (h, ps) = self.push_run(state, (n - 1) as nat);
            let (h2, p) = h.push(state);
            (h2, ps.push(p))
        }
    }

    /// This half with slot `i` holding `n`.
    pub open spec fn with_node(self, i: int, n: NodeModel) -> HalfModel {
        HalfModel { nodes: self.nodes.update(i, n), ..self }
    }

    pub open spec fn cleared(self) -> HalfModel {
        HalfModel { used: 0, ..self }
    }

    /// Every edge pointer into the other half nulled.
    pub open spec fn swept(self) -> HalfModel {
        HalfModel {
            nodes: self.nodes.map_values(
                |n: NodeModel| NodeModel { edges: severed(n.edges, self.half), ..n },
            ),
            ..self
        }
    }
}

pub struct TreeHalf {
    nodes: Vec<Node>,
    used: usize,
    half: bool,
}

impl View for TreeHalf {
    type V = HalfModel;

    closed spec fn view(&self) -> HalfModel {
        HalfModel {
            nodes: self.nodes@.map_values(|n: Node| n@),
            used: self.used as nat,
            half: self.half,
        }
    }
}

impl TreeHalf {
    pub open spec fn wf(&self) -> bool {
        self@.wf()
    }

    /// Allocates `size` placeholder slots up front.
    pub fn new(size: usize, half: bool) -> (r: TreeHalf)
        requires
            size < MAX_SLOTS,
        ensures
            r.wf(),
            r@ == HalfModel::initial(size as nat, half),
    {
        let mut nodes: Vec<Node> = Vec::with_capacity(size);
        let mut i: usize = 0;
        while i < size
            invariant
                i <= size,
                nodes@.len() == i,
                forall|j: int| 0 <= j < i ==> #[trigger] nodes@[j]@ == NodeModel::fresh(GameState::Ongoing),
            decreases size - i,
        {
            nodes.push(Node::new(GameState::Ongoing));
            i = i + 1;
        }
        let r = TreeHalf { nodes, used: 0, half };
        assert(r@.nodes =~= HalfModel::initial(size as nat, half).nodes);
        r
    }

    /// Claims the next slot for a node with outcome `state`, or returns NULL
    /// when the half is exhausted.
    pub fn push_new(&mut self, state: GameState) -> (r: NodePtr)
        requires
            old(self).wf(),
        ensures
            final(self).wf(),
            (final(self)@, r@) == old(self)@.push(state),
    {
        if self.used >= self.nodes.len() {
            return NodePtr::null();
        }
        let idx = self.used;
        self.nodes[idx].set_new(state);
        self.used = idx + 1;
        assert(self@.nodes =~= old(self)@.nodes.update(idx as int, NodeModel::fresh(state)));
        NodePtr::new(self.half, idx as u32)
    }

    /// Makes every slot available again; the slots are not touched.
    pub fn clear(&mut self)
        requires
            old(self).wf(),
        ensures
            final(self).wf(),
            final(self)@ == old(self)@.cleared(),
    {
        self.used = 0;
    }

    /// Nulls every edge, in every slot, that points into the other half.
    pub fn clear_ptrs(&mut self)
        requires
            old(self).wf(),
        ensures
            final(self).wf(),
            final(self)@ == old(self)@.swept(),
    {
        let n = self.nodes.len();
        let mut i: usize = 0;
        while i < n
            invariant
                n == self.nodes@.len(),
                i <= n,
                self.used == old(self).used,
                self.half == old(self).half,
                self.nodes@.len() == old(self).nodes@.len(),
                forall|j: int| 0 <= j < i ==> #[trigger] self.nodes@[j]@ == (NodeModel {
                    edges: severed(old(self).nodes@[j]@.edges, self.half),
                    ..old(self).nodes@[j]@
                }),
                forall|j: int| i <= j < n ==> #[trigger] self.nodes@[j] == old(self).nodes@[j],
            decreases n - i,
        {
            let keep = self.half;
            self.nodes[i].sever(keep);
            i = i + 1;
        }
        assert(self@.nodes =~= old(self)@.swept().nodes);
    }

    pub fn is_empty(&self) -> (r: bool)
        ensures
            r == (self@.used == 0),
    {
        self.used == 0
    }

    pub fn used(&self) -> (r: usize)
        ensures
            r == self@.used,
    {
        self.used
    }

    pub fn is_full(&self) -> (r: bool)
        ensures
            r == (self@.used >= self@.nodes.len()),
    {
        self.used >= self.nodes.len()
    }

    pub fn capacity(&self) -> (r: usize)
        ensures
            r == self@.nodes.len(),
    {
        self.nodes.len()
    }

    pub fn half(&self) -> (r: bool)
        ensures
            r == self@.half,
    {
        self.half
    }

    /// The slot named by `ptr`; the caller has checked that it names this half.
    pub fn node(&self, ptr: NodePtr) -> (r: &Node)
        requires
            ptr@ is At,
            ptr@->idx < self@.nodes.len(),
        ensures
            r@ == self@.nodes[ptr@->idx as int],
    {
        &self.nodes[ptr.idx()]
    }

    pub fn push_edge(&mut self, ptr: NodePtr, e: Edge)
        requires
            ptr@ is At,
            ptr@->idx < old(self)@.nodes.len(),
        ensures
            final(self)@ == old(self)@.with_node(
                ptr@->idx as int,
                old(self)@.nodes[ptr@->idx as int].with_edges(old(self)@.nodes[ptr@->idx as int].edges.push(e)),
            ),
    {
        let i = ptr.idx();
        self.nodes[i].push_edge(e);
        assert(self@.nodes =~= old(self)@.nodes.update(
            i as int,
            old(self)@.nodes[i as int].with_edges(old(self)@.nodes[i as int].edges.push(e)),
        ));
    }

    pub fn set_edge_ptr(&mut self, ptr: NodePtr, k: usize, child: NodePtr)
        requires
            ptr@ is At,
            ptr@->idx < old(self)@.nodes.len(),
            k < old(self)@.nodes[ptr@->idx as int].edges.len(),
        ensures
            final(self)@ == old(self)@.with_node(
                ptr@->idx as int,
                old(self)@.nodes[ptr@->idx as int].with_edges(
                    old(self)@.nodes[ptr@->idx as int].edges.update(
                        k as int,
                        old(self)@.nodes[ptr@->idx as int].edges[k as int].with_ptr(child),
                    ),
                ),
            ),
    {
        let i = ptr.idx();
        self.nodes[i].set_edge_ptr(k, child);
        assert(self@.nodes =~= old(self)@.nodes.update(
            i as int,
            old(self)@.nodes[i as int].with_edges(
                old(self)@.nodes[i as int].edges.update(
                    k as int,
                    old(self)@.nodes[i as int].edges[k as int].with_ptr(child),
                ),
            ),
        ));
    }

    /// Backpropagation through edge `k` of the slot named by `ptr`.
    pub fn update_edge(&mut self, ptr: NodePtr, k: usize, value: i64)
        requires
            ptr@ is At,
            ptr@->idx < old(self)@.nodes.len(),
            k < old(self)@.nodes[ptr@->idx as int].edges.len(),
            old(self)@.nodes[ptr@->idx as int].edges[k as int].visits < u32::MAX,
            i64::MIN <= old(self)@.nodes[ptr@->idx as int].edges[k as int].total + value <= i64::MAX,
        ensures
            final(self)@ == old(self)@.with_node(
                ptr@->idx as int,
                old(self)@.nodes[ptr@->idx as int].with_edges(
                    old(self)@.nodes[ptr@->idx as int].edges.update(
                        k as int,
                        old(self)@.nodes[ptr@->idx as int].edges[k as int].updated(value),
                    ),
                ),
            ),
    {
        let i = ptr.idx();
        self.nodes[i].update_edge(k, value);
        assert(self@.nodes =~= old(self)@.nodes.update(
            i as int,
            old(self)@.nodes[i as int].with_edges(
                old(self)@.nodes[i as int].edges.update(
                    k as int,
                    old(self)@.nodes[i as int].edges[k as int].updated(value),
                ),
            ),
        ));
    }
}

/// Sequential allocations from a cursor at `h.used` hand out the indices
/// `h.used, h.used + 1, ...` in turn, each in this half, so no two pointers
/// coincide; from an empty half `n` calls cover exactly `0..n`.
pub proof fn lemma_allocation_indices(h: HalfModel, state: GameState, n: nat)
    requires
        h.wf(),
        h.used + n <= h.capacity(),
    ensures
        h.push_run(state, n).0.wf(),
        h.push_run(state, n).0.used == h.used + n,
        h.push_run(state, n).0.half == h.half,
        h.push_run(state, n).0.nodes.len() == h.nodes.len(),
        forall|k: int|
            h.used <= k < h.used + n ==> #[trigger] h.push_run(state, n).0.nodes[k] == NodeModel::fresh(state),
        forall|k: int|
            0 <= k < h.nodes.len() && !(h.used <= k < h.used + n) ==> #[trigger] h.push_run(state, n).0.nodes[k]
                == h.nodes[k],
        h.push_run(state, n).1.len() == n,
        forall|k: int| 0 <= k < n ==> #[trigger] h.push_run(state, n).1[k] == (PtrView::At {
            half: h.half,
            idx: (h.used + k) as nat,
        }),
        forall|i: int, j: int|
            0 <= i < n && 0 <= j < n && i != j ==> #[trigger] h.push_run(state, n).1[i] != #[trigger] h.push_run(
                state,
                n,
            ).1[j],
    decreases n,
{
    if n > 0 {
        lemma_allocation_indices(h, state, (n - 1) as nat);
        let h1 = h.push_run(state, (n - 1) as nat).0;
        let ps = h.push_run(state, (n - 1) as nat).1;
        let p = h1.push(state).1;
        assert(h.push_run(state, n).1 == ps.push(p));
        assert(p == PtrView::At { half: h.half, idx: (h.used + n - 1) as nat });
        assert forall|k: int| 0 <= k < n implies #[trigger] h.push_run(state, n).1[k] == (PtrView::At {
            half: h.half,
            idx: (h.used + k) as nat,
        }) by {
            if k < n - 1 {
                assert(h.push_run(state, n).1[k] == ps[k]);
            }
        }
    }
}

/// Once every slot is taken, each further allocation returns NULL and the
/// half, its cursor included, stays exactly as it was.
pub proof fn lemma_exhaustion(h: HalfModel, state: GameState)
    requires
        h.wf(),
        h.used == 0,
    ensures
        h.push_run(state, h.capacity() + 1).1[h.capacity() as int] == PtrView::Null,
        h.push_run(state, h.capacity() + 1).0.used == h.capacity(),
        h.push_run(state, h.capacity() + 1).0 == h.push_run(state, h.capacity()).0,
{
    lemma_allocation_indices(h, state, h.capacity());
    let h1 = h.push_run(state, h.capacity()).0;
    let ps = h.push_run(state, h.capacity()).1;
    assert(h1.push(state) == (h1, PtrView::Null));
    assert(h.push_run(state, h.capacity() + 1) == (h1, ps.push(PtrView::Null)));
}

/// After a reset, each of the next `n` allocations lands on a slot that may
/// have been used before, and that slot shows only the new outcome and no
/// edge of its previous occupant; the slots not reached yet keep their old
/// contents.
pub proof fn lemma_reinit_after_clear(h: HalfModel, state: GameState, n: nat)
    requires
        h.wf(),
        n <= h.capacity(),
    ensures
        forall|k: int|
            0 <= k < n ==> #[trigger] h.cleared().push_run(state, n).0.nodes[k] == NodeModel::fresh(state)
                && h.cleared().push_run(state, n).0.nodes[k].edges.len() == 0,
        forall|k: int|
            n <= k < h.capacity() ==> #[trigger] h.cleared().push_run(state, n).0.nodes[k] == h.nodes[k],
{
    lemma_allocation_indices(h.cleared(), state, n);
}

/// After the sweep every edge that pointed into the other half is NULL,
/// and every other edge (into this half, or already NULL) is unchanged.
pub proof fn lemma_sweep_complete(h: HalfModel, i: int, k: int)
    requires
        0 <= i < h.nodes.len(),
        0 <= k < h.nodes[i].edges.len(),
    ensures
        h.swept().nodes.len() == h.nodes.len(),
        h.swept().nodes[i].edges.len() == h.nodes[i].edges.len(),
        h.swept().nodes[i].state == h.nodes[i].state,
        points_away(h.nodes[i].edges[k].ptr, h.half) ==> h.swept().nodes[i].edges[k].ptr@ == PtrView::Null,
        !points_away(h.nodes[i].edges[k].ptr, h.half) ==> h.swept().nodes[i].edges[k] == h.nodes[i].edges[k],
        h.swept().used == h.used,
{
}

} // verus!

//! The orchestrator: two halves, one of them active, and the flip that
//! recycles the other without tracing the tree.
use vstd::prelude::*;

use crate::half::{lemma_sweep_complete, HalfModel, TreeHalf};
use crate::node::{points_away, Edge, GameState, Node, NodeModel};
use crate::ptr::{NodePtr, PtrView, MAX_SLOTS};

verus! {

/// What a tree holds: half `a` (flag `false`), half `b` (flag `true`) and
/// the flag of the half that receives allocations.
pub struct TreeModel {
    pub a: HalfModel,
    pub b: HalfModel,
    pub active: bool,
}

/// One operation on a tree: an allocation in the active half, or a flip.
pub enum TreeOp {
    Push(GameState),
    Flip,
}

impl TreeModel {
    pub open spec fn wf(self) -> bool {
        &&& self.a.wf()
        &&& self.b.wf()
        &&& !self.a.half
        &&& self.b.half
        &&& self.a.capacity() == self.b.capacity()
    }

    pub open spec fn half_of(self, which: bool) -> HalfModel {
        if which {
            self.b
        } else {
            self.a
        }
    }

    pub open spec fn with_half(self, which: bool, h: HalfModel) -> TreeModel {
        if which {
            TreeModel { b: h, ..self }
        } else {
            TreeModel { a: h, ..self }
        }
    }

    pub open spec fn node_at(self, which: bool, i: int) -> NodeModel {
        self.half_of(which).nodes[i]
    }

    /// This tree with slot `i` of half `which` holding `n`.
    pub open spec fn with_node(self, which: bool, i: int, n: NodeModel) -> TreeModel {
        self.with_half(which, self.half_of(which).with_node(i, n))
    }

    /// Slots of one half.
    pub open spec fn half_capacity(self) -> nat {
        self.a.capacity()
    }

    /// Slots handed out and not yet reclaimed, over both halves.
    pub open spec fn live(self) -> nat {
        self.a.used + self.b.used
    }

    /// An allocation in the active half.
    pub open spec fn push(self, state: GameState) -> (TreeModel, PtrView) {
        let (h, p) = self.half_of(self.active).push(state);
        (self.with_half(self.active, h), p)
    }

    /// The active half is swept of pointers into the other half, the other
    /// half is reset, and it becomes the active one.
    pub open spec fn flipped(self) -> TreeModel {
        self.with_half(self.active, self.half_of(self.active).swept()).with_half(
            !self.active,
            self.half_of(!self.active).cleared(),
        ).with_active(!self.active)
    }

    pub open spec fn with_active(self, active: bool) -> TreeModel {
        TreeModel { active, ..self }
    }

    pub open spec fn step(self, op: TreeOp) -> TreeModel {
        match op {
            TreeOp::Push(state) => self.push(state).0,
            TreeOp::Flip => self.flipped(),
        }
    }

    /// The tree after the operations `ops`, first to last.
    pub open spec fn run(self, ops: Seq<TreeOp>) -> TreeModel
        decreases ops.len(),
    {
        if ops.len() == 0 {
            self
        } else {
            self.run(ops.drop_last()).step(ops.last())
        }
    }
}

/// Live storage never exceeds both halves together, and the storage itself
/// stays at twice one half's capacity, however many allocations and flips
/// have run.
pub proof fn lemma_two_generation_bound(t: TreeModel, ops: Seq<TreeOp>)
    requires
        t.wf(),
    ensures
        t.run(ops).wf(),
        t.run(ops).half_capacity() == t.half_capacity(),
        t.run(ops).a.capacity() + t.run(ops).b.capacity() == 2 * t.half_capacity(),
        t.run(ops).live() <= 2 * t.half_capacity(),
    decreases ops.len(),
{
    if ops.len() > 0 {
        lemma_two_generation_bound(t, ops.drop_last());
    }
}

/// After a flip the new active half is empty, and no edge of the surviving
/// half still names a slot of the new active half: each is NULL or stays
/// within the surviving half.
pub proof fn lemma_flip_severs(t: TreeModel)
    requires
        t.wf(),
    ensures
        t.flipped().wf(),
        t.flipped().active == !t.active,
        t.flipped().half_of(!t.active).used == 0,
        t.flipped().half_of(t.active).used == t.half_of(t.active).used,
        forall|i: int, k: int|
            0 <= i < t.flipped().half_of(t.active).nodes.len() && 0 <= k < t.flipped().half_of(
                t.active,
            ).nodes[i].edges.len() ==> !points_away(
                #[trigger] t.flipped().half_of(t.active).nodes[i].edges[k].ptr,
                t.active,
            ),
{
    let s = t.half_of(t.active);
    assert(t.flipped().half_of(t.active) == s.swept());
    assert forall|i: int, k: int|
        0 <= i < s.swept().nodes.len() && 0 <= k < s.swept().nodes[i].edges.len() implies !points_away(
        #[trigger] s.swept().nodes[i].edges[k].ptr,
        t.active,
    ) by {
        lemma_sweep_complete(s, i, k);
    }
}

pub struct Tree {
    a: TreeHalf,
    b: TreeHalf,
    active: bool,
}

impl View for Tree {
    type V = TreeModel;

    closed spec fn view(&self) -> TreeModel {
        TreeModel { a: self.a@, b: self.b@, active: self.active }
    }
}

impl Tree {
    pub open spec fn wf(&self) -> bool {
        self@.wf()
    }

    /// Two empty halves of `half_size` slots each; half `a` is active.
    pub fn new(half_size: usize) -> (r: Tree)
        requires
            half_size < MAX_SLOTS,
        ensures
            r.wf(),
            r@ == (TreeModel {
                a: HalfModel::initial(half_size as nat, false),
                b: HalfModel::initial(half_size as nat, true),
                active: false,
            }),
    {
        Tree { a: TreeHalf::new(half_size, false), b: TreeHalf::new(half_size, true), active: false }
    }

    pub fn active_half(&self) -> (r: bool)
        ensures
            r == self@.active,
    {
        self.active
    }

    pub fn half(&self, which: bool) -> (r: &TreeHalf)
        ensures
            r@ == self@.half_of(which),
    {
        if which {
            &self.b
        } else {
            &self.a
        }
    }

    /// Allocates in the active half; NULL tells the caller to flip.
    pub fn push_new(&mut self, state: GameState) -> (r: NodePtr)
        requires
            old(self).wf(),
        ensures
            final(self).wf(),
            (final(self)@, r@) == old(self)@.push(state),
    {
        if self.active {
            self.b.push_new(state)
        } else {
            self.a.push_new(state)
        }
    }

    /// The generation flip: sever the active half's pointers into the other
    /// half, reset the other half, and make it the active one.
    pub fn flip(&mut self)
        requires
            old(self).wf(),
        ensures
            final(self).wf(),
            final(self)@ == old(self)@.flipped(),
    {
        if self.active {
            self.b.clear_ptrs();
            self.a.clear();
        } else {
            self.a.clear_ptrs();
            self.b.clear();
        }
        self.active = !self.active;
    }

    /// Slots in use over both halves.
    pub fn used(&self) -> (r: usize)
        requires
            self.wf(),
        ensures
            r == self@.live(),
    {
        self.a.used() + self.b.used()
    }

    /// Whether the active half has no slot left.
    pub fn is_full(&self) -> (r: bool)
        ensures
            r == (self@.half_of(self@.active).used >= self@.half_of(self@.active).capacity()),
    {
        if self.active {
            self.b.is_full()
        } else {
            self.a.is_full()
        }
    }

    pub fn node(&self, ptr: NodePtr) -> (r: &Node)
        requires
            self.wf(),
            ptr@ is At,
            ptr@->idx < self@.half_capacity(),
        ensures
            r@ == self@.node_at(ptr@->half, ptr@->idx as int),
    {
        if ptr.half() {
            self.b.node(ptr)
        } else {
            self.a.node(ptr)
        }
    }

    pub fn push_edge(&mut self, ptr: NodePtr, e: Edge)
        requires
            old(self).wf(),
            ptr@ is At,
            ptr@->idx < old(self)@.half_capacity(),
        ensures
            final(self).wf(),
            final(self)@ == old(self)@.with_node(
                ptr@->half,
                ptr@->idx as int,
                old(self)@.node_at(ptr@->half, ptr@->idx as int).with_edges(
                    old(self)@.node_at(ptr@->half, ptr@->idx as int).edges.push(e),
                ),
            ),
    {
        if ptr.half() {
            self.b.push_edge(ptr, e);
        } else {
            self.a.push_edge(ptr, e);
        }
    }

    pub fn set_edge_ptr(&mut self, ptr: NodePtr, k: usize, child: NodePtr)
        requires
            old(self).wf(),
            ptr@ is At,
            ptr@->idx < old(self)@.half_capacity(),
            k < old(self)@.node_at(ptr@->half, ptr@->idx as int).edges.len(),
        ensures
            final(self).wf(),
            final(self)@ == old(self)@.with_node(
                ptr@->half,
                ptr@->idx as int,
                old(self)@.node_at(ptr@->half, ptr@->idx as int).with_edges(
                    old(self)@.node_at(ptr@->half, ptr@->idx as int).edges.update(
                        k as int,
                        old(self)@.node_at(ptr@->half, ptr@->idx as int).edges[k as int].with_ptr(child),
                    ),
                ),
            ),
    {
        if ptr.half() {
            self.b.set_edge_ptr(ptr, k, child);
        } else {
            self.a.set_edge_ptr(ptr, k, child);
        }
    }

    /// Backpropagation through edge `k` of the node named by `ptr`.
    pub fn update_edge(&mut self, ptr: NodePtr, k: usize, value: i64)
        requires
            old(self).wf(),
            ptr@ is At,
            ptr@->idx < old(self)@.half_capacity(),
            k < old(self)@.node_at(ptr@->half, ptr@->idx as int).edges.len(),
            old(self)@.node_at(ptr@->half, ptr@->idx as int).edges[k as int].visits < u32::MAX,
            i64::MIN <= old(self)@.node_at(ptr@->half, ptr@->idx as int).edges[k as int].total + value
                <= i64::MAX,
        ensures
            final(self).wf(),
            final(self)@ == old(self)@.with_node(
                ptr@->half,
                ptr@->idx as int,
                old(self)@.node_at(ptr@->half, ptr@->idx as int).with_edges(
                    old(self)@.node_at(ptr@->half, ptr@->idx as int).edges.update(
                        k as int,
                        old(self)@.node_at(ptr@->half, ptr@->idx as int).edges[k as int].updated(value),
                    ),
                ),
            ),
    {
        if ptr.half() {
            self.b.update_edge(ptr, k, value);
        } else {
            self.a.update_edge(ptr, k, value);
        }
    }
}

} // verus!

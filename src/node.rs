//! A node slot: an outcome tag and an ordered list of edges.
use vstd::prelude::*;

use crate::ptr::{NodePtr, PtrView};

verus! {

broadcast use crate::ptr::NodePtr::lemma_null_view;

/// Four-way classification of a position.
#[derive(Clone, Copy, Debug, PartialEq, Eq, Structural)]
pub enum GameState {
    Ongoing,
    Drawn,
    Won,
    Lost,
}

/// One legal continuation: the move, the child pointer and the statistics.
/// The accumulated value and the prior are fixed-point integers.
#[derive(Clone, Copy, Debug, PartialEq, Eq, Structural)]
pub struct Edge {
    pub mov: u16,
    pub ptr: NodePtr,
    pub policy: i32,
    pub visits: u32,
    pub total: i64,
}

impl Edge {
    /// A freshly discovered move: no child yet and no visits.
    pub fn new(mov: u16, policy: i32) -> (r: Edge)
        ensures
            r.mov == mov,
            r.policy == policy,
            r.ptr@ == PtrView::Null,
            r.visits == 0,
            r.total == 0,
    {
        Edge { mov, ptr: NodePtr::null(), policy, visits: 0, total: 0 }
    }

    /// This edge with its child pointer replaced.
    pub open spec fn with_ptr(self, p: NodePtr) -> Edge {
        Edge { ptr: p, ..self }
    }

    /// This edge after one more visit worth `value`.
    pub open spec fn updated(self, value: i64) -> Edge {
        Edge { visits: (self.visits + 1) as u32, total: (self.total + value) as i64, ..self }
    }

    /// Records one simulation result that passed through this edge.
    pub fn update(&mut self, value: i64)
        requires
            old(self).visits < u32::MAX,
            i64::MIN <= old(self).total + value <= i64::MAX,
        ensures
            *final(self) == old(self).updated(value),
    {
        self.visits = self.visits + 1;
        self.total = self.total + value;
    }
}

/// What a node holds.
pub struct NodeModel {
    pub state: GameState,
    pub edges: Seq<Edge>,
}

impl NodeModel {
    /// A slot just (re)initialised with `state`.
    pub open spec fn fresh(state: GameState) -> NodeModel {
        NodeModel { state, edges: Seq::empty() }
    }

    pub open spec fn with_edges(self, edges: Seq<Edge>) -> NodeModel {
        NodeModel { edges, ..self }
    }
}

pub struct Node {
    state: GameState,
    edges: Vec<Edge>,
}

impl View for Node {
    type V = NodeModel;

    closed spec fn view(&self) -> NodeModel {
        NodeModel { state: self.state, edges: self.edges@ }
    }
}

impl Node {
    pub fn new(state: GameState) -> (r: Node)
        ensures
            r@ == NodeModel::fresh(state),
    {
        let r = Node { state, edges: Vec::new() };
        assert(r.edges@ =~= Seq::<Edge>::empty());
        r
    }

    /// Reinitialises the slot for a new occupant: the previous edges are gone.
    pub fn set_new(&mut self, state: GameState)
        ensures
            final(self)@ == NodeModel::fresh(state),
    {
        self.state = state;
        self.edges.clear();
        assert(self.edges@ =~= Seq::<Edge>::empty());
    }

    pub fn state(&self) -> (r: GameState)
        ensures
            r == self@.state,
    {
        self.state
    }

    pub fn set_state(&mut self, state: GameState)
        ensures
            final(self)@ == (NodeModel { state, ..old(self)@ }),
    {
        self.state = state;
    }

    pub fn edges(&self) -> (r: &Vec<Edge>)
        ensures
            r@ == self@.edges,
    {
        &self.edges
    }

    pub fn num_edges(&self) -> (r: usize)
        ensures
            r == self@.edges.len(),
    {
        self.edges.len()
    }

    /// Appends a discovered move during expansion.
    pub fn push_edge(&mut self, e: Edge)
        ensures
            final(self)@ == old(self)@.with_edges(old(self)@.edges.push(e)),
    {
        self.edges.push(e);
    }

    pub fn set_edge_ptr(&mut self, i: usize, p: NodePtr)
        requires
            i < old(self)@.edges.len(),
        ensures
            final(self)@ == old(self)@.with_edges(old(self)@.edges.update(i as int, old(self)@.edges[i as int].with_ptr(p))),
    {
        let mut e = self.edges[i];
        e.ptr = p;
        self.edges.set(i, e);
    }

    /// Backpropagation through edge `i`.
    pub fn update_edge(&mut self, i: usize, value: i64)
        requires
            i < old(self)@.edges.len(),
            old(self)@.edges[i as int].visits < u32::MAX,
            i64::MIN <= old(self)@.edges[i as int].total + value <= i64::MAX,
        ensures
            final(self)@ == old(self)@.with_edges(old(self)@.edges.update(i as int, old(self)@.edges[i as int].updated(value))),
    {
        let mut e = self.edges[i];
        e.update(value);
        self.edges.set(i, e);
    }

    /// Nulls every edge pointer that names a slot of the half other than
    /// `keep`; the other edges stay as they are.
    pub fn sever(&mut self, keep: bool)
        ensures
            final(self)@ == old(self)@.with_edges(severed(old(self)@.edges, keep)),
    {
        let n = self.edges.len();
        let mut i: usize = 0;
        while i < n
            invariant
                n == self.edges@.len(),
                0 <= i <= n,
                self.state == old(self).state,
                self.edges@.len() == old(self).edges@.len(),
                forall|j: int| 0 <= j < i ==> self.edges@[j] == sever_edge(old(self).edges@[j], keep),
                forall|j: int| i <= j < n ==> self.edges@[j] == old(self).edges@[j],
            decreases n - i,
        {
            let e = self.edges[i];
            if !e.ptr.is_null() && e.ptr.half() != keep {
                self.edges.set(i, Edge { ptr: NodePtr::null(), ..e });
            }
            i = i + 1;
        }
        assert(self.edges@ =~= severed(old(self).edges@, keep));
    }
}

/// Whether `p` names a slot of the half other than `keep`.
pub open spec fn points_away(p: NodePtr, keep: bool) -> bool {
    match p@ {
        PtrView::Null => false,
        PtrView::At { half, idx: _ } => half != keep,
    }
}

pub open spec fn sever_edge(e: Edge, keep: bool) -> Edge {
    if points_away(e.ptr, keep) {
        e.with_ptr(NodePtr::spec_null())
    } else {
        e
    }
}

pub open spec fn severed(edges: Seq<Edge>, keep: bool) -> Seq<Edge> {
    edges.map_values(|e: Edge| sever_edge(e, keep))
}

} // verus!

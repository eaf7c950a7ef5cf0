//! Memory subsystem for a Monte Carlo search tree: packed node pointers,
//! node slots, fixed-capacity arena halves and the two-generation flip,
//! together with the attack bitboards used to enumerate a node's edges.
pub mod attacks;
pub mod half;
pub mod node;
pub mod ptr;
pub mod tree;

pub use attacks::{line_through, Attacks, BishopAttacks, Piece, RookAttacks};
pub use half::{HalfModel, TreeHalf};
pub use node::{Edge, GameState, Node, NodeModel};
pub use ptr::{NodePtr, PtrView};
pub use tree::{Tree, TreeModel, TreeOp};

//! A packed reference to a node slot: one bit names the arena half, the
//! other 31 bits the slot index. The all-ones word is reserved as NULL.
use vstd::prelude::*;

verus! {

/// Number of slot indices a pointer can name; the index `MAX_SLOTS` itself
/// would collide with the NULL encoding in the upper half.
pub const MAX_SLOTS: usize = 0x7FFF_FFFF;

const HALF_BIT: u32 = 0x8000_0000;

const IDX_MASK: u32 = 0x7FFF_FFFF;

const NULL_BITS: u32 = 0xFFFF_FFFF;

/// What a packed pointer denotes.
pub enum PtrView {
    Null,
    At { half: bool, idx: nat },
}

#[derive(Clone, Copy, Debug, PartialEq, Eq, Hash, Structural)]
pub struct NodePtr {
    bits: u32,
}

impl View for NodePtr {
    type V = PtrView;

    closed spec fn view(&self) -> PtrView {
        if self.bits == NULL_BITS {
            PtrView::Null
        } else {
            PtrView::At { half: self.bits >= HALF_BIT, idx: (self.bits % HALF_BIT) as nat }
        }
    }
}

impl NodePtr {
    /// The NULL pointer as a value.
    pub closed spec fn spec_null() -> NodePtr {
        NodePtr { bits: NULL_BITS }
    }

    /// The pointer to slot `idx` of half `half`.
    pub closed spec fn spec_new(half: bool, idx: nat) -> NodePtr {
        NodePtr { bits: (if half { HALF_BIT + idx } else { idx as int }) as u32 }
    }

    pub broadcast proof fn lemma_null_view()
        ensures
            (#[trigger] NodePtr::spec_null())@ == PtrView::Null,
    {
    }

    pub broadcast proof fn lemma_new_view(half: bool, idx: nat)
        requires
            idx < MAX_SLOTS,
        ensures
            (#[trigger] NodePtr::spec_new(half, idx))@ == (PtrView::At { half, idx }),
    {
    }

    /// Two pointers with the same meaning are the same word.
    pub broadcast proof fn lemma_view_injective(a: NodePtr, b: NodePtr)
        requires
            #[trigger] a@ == #[trigger] b@,
        ensures
            a == b,
    {
        if a.bits != NULL_BITS && b.bits != NULL_BITS {
            assert(a.bits as int == (if a.bits >= HALF_BIT { HALF_BIT as int + (a.bits % HALF_BIT) as int } else { (a.bits % HALF_BIT) as int }));
            assert(b.bits as int == (if b.bits >= HALF_BIT { HALF_BIT as int + (b.bits % HALF_BIT) as int } else { (b.bits % HALF_BIT) as int }));
        }
    }

    pub fn null() -> (r: NodePtr)
        ensures
            r == NodePtr::spec_null(),
            r@ == PtrView::Null,
    {
        NodePtr { bits: NULL_BITS }
    }

    pub fn new(half: bool, idx: u32) -> (r: NodePtr)
        requires
            idx < MAX_SLOTS,
        ensures
            r == NodePtr::spec_new(half, idx as nat),
            r@ == (PtrView::At { half, idx: idx as nat }),
    {
        let bits: u32 = if half { idx | HALF_BIT } else { idx };
        assert(idx < 0x7FFF_FFFF ==> idx | 0x8000_0000u32 == 0x8000_0000u32 + idx) by (bit_vector);
        NodePtr { bits }
    }

    pub fn is_null(&self) -> (r: bool)
        ensures
            r == (self@ == PtrView::Null),
    {
        self.bits == NULL_BITS
    }

    /// The half bit; the NULL word has it set.
    pub fn half(&self) -> (r: bool)
        ensures
            r == match self@ {
                PtrView::Null => true,
                PtrView::At { half, idx: _ } => half,
            },
    {
        let b = self.bits;
        assert(b & 0x8000_0000u32 != 0 <==> b >= 0x8000_0000u32) by (bit_vector);
        self.bits & HALF_BIT != 0
    }

    /// The slot index; the NULL word reads as the largest index.
    pub fn idx(&self) -> (r: usize)
        ensures
            r as nat == match self@ {
                PtrView::Null => MAX_SLOTS as nat,
                PtrView::At { half: _, idx } => idx,
            },
    {
        let b = self.bits;
        assert(b & 0x7FFF_FFFFu32 == b % 0x8000_0000u32) by (bit_vector);
        (self.bits & IDX_MASK) as usize
    }
}

} // verus!

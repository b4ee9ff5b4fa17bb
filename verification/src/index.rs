//! Indices of nodes in a tree.

use vstd::prelude::*;

verus! {

/// The number of distinct slot values: an index's generation is its bits divided by this.
pub const SLOT_RANGE: u64 = 0x1_0000_0000u64;

/// An index to a node in a tree: an arena slot and a nonzero generation, packed into 64 bits
/// as `generation * 2^32 + slot`.
#[derive(Copy, Clone, Debug, PartialEq, Eq, Structural, Hash)]
pub struct NodeIndex {
    pub(crate) bits: u64,
}

impl NodeIndex {
    #[verifier::type_invariant]
    spec fn generation_nonzero(self) -> bool {
        self.bits >= SLOT_RANGE
    }

    /// The packed representation of the index.
    pub closed spec fn spec_bits(self) -> u64 {
        self.bits
    }

    /// The slot in the arena.
    pub open spec fn spec_slot(self) -> int {
        (self.spec_bits() as int) % (SLOT_RANGE as int)
    }

    /// The generation of the slot.
    pub open spec fn spec_generation(self) -> int {
        (self.spec_bits() as int) / (SLOT_RANGE as int)
    }

    /// Builds an index from its packed representation; `None` when the generation is 0.
    pub fn from_bits(bits: u64) -> (r: Option<NodeIndex>)
        ensures
            r is Some <==> bits >= SLOT_RANGE,
            r matches Some(i) ==> i.spec_bits() == bits,
    {
        if bits >= SLOT_RANGE {
            Some(NodeIndex { bits })
        } else {
            None
        }
    }

    /// The packed representation of the index, whose upper half is never 0.
    pub fn to_bits(self) -> (r: u64)
        ensures
            r == self.spec_bits(),
            r >= SLOT_RANGE,
    {
        proof { use_type_invariant(&self); }
        self.bits
    }

    /// The slot in the arena.
    pub fn slot(self) -> (r: u32)
        ensures
            r == self.spec_slot(),
    {
        (self.bits % SLOT_RANGE) as u32
    }

    /// The generation of the slot, which is never 0.
    pub fn generation(self) -> (r: u32)
        ensures
            r == self.spec_generation(),
            r != 0,
    {
        proof { use_type_invariant(&self); }
        (self.bits / SLOT_RANGE) as u32
    }
}

/// The node index whose packed representation is `bits`.
pub closed spec fn index_of_bits(bits: u64) -> NodeIndex {
    NodeIndex { bits }
}

/// Unpacking a packed representation gives an index with that representation.
pub broadcast proof fn lemma_bits_of_index_of_bits(bits: u64)
    ensures
        #[trigger] index_of_bits(bits).spec_bits() == bits,
{
}

/// An index is determined by its packed representation.
pub broadcast proof fn lemma_index_of_bits_of_index(i: NodeIndex)
    ensures
        #[trigger] index_of_bits(i.spec_bits()) == i,
{
}

/// Builds an index from a packed representation known to have a nonzero generation.
pub(crate) fn index_from_valid_bits(bits: u64) -> (r: NodeIndex)
    requires
        bits >= SLOT_RANGE,
    ensures
        r == index_of_bits(bits),
{
    NodeIndex { bits }
}

pub broadcast group group_index_bits {
    lemma_bits_of_index_of_bits,
    lemma_index_of_bits_of_index,
}

/// An index to a node in a tree, with the caveat that it represents a node not already in the
/// hierarchy. It cannot be duplicated, so that exactly one parent holds it.
#[derive(Debug, PartialEq, Eq, Structural, Hash)]
pub struct OwnedIndex(pub(crate) NodeIndex);

impl OwnedIndex {
    /// The index this owned index refers to.
    pub closed spec fn index(&self) -> NodeIndex {
        self.0
    }

    /// The owned index of a node just added to a tree's arena, which no node holds yet. The
    /// arena lives with the tree, outside this library, so this is how the tree hands out
    /// ownership; nothing else should call it, and the type cannot stop another caller.
    pub fn from_added(index: NodeIndex) -> (r: OwnedIndex)
        ensures
            r.index() == index,
    {
        OwnedIndex(index)
    }

    /// Takes ownership of an index that its holder has just detached from the hierarchy.
    pub(crate) fn detached(index: NodeIndex) -> (r: OwnedIndex)
        ensures
            r.index() == index,
    {
        OwnedIndex(index)
    }

    /// Clones the index as a [`NodeIndex`].
    pub fn shareable(&self) -> (r: NodeIndex)
        ensures
            r == self.index(),
    {
        self.0
    }
}

impl From<OwnedIndex> for NodeIndex {
    fn from(value: OwnedIndex) -> (r: NodeIndex) {
        value.0
    }
}

impl vstd::std_specs::convert::FromSpecImpl<OwnedIndex> for NodeIndex {
    open spec fn obeys_from_spec() -> bool {
        true
    }

    open spec fn from_spec(v: OwnedIndex) -> NodeIndex {
        v.index()
    }
}

impl<'a> From<&'a OwnedIndex> for NodeIndex {
    fn from(value: &'a OwnedIndex) -> (r: NodeIndex) {
        value.0
    }
}

impl<'a> vstd::std_specs::convert::FromSpecImpl<&'a OwnedIndex> for NodeIndex {
    open spec fn obeys_from_spec() -> bool {
        true
    }

    open spec fn from_spec(v: &'a OwnedIndex) -> NodeIndex {
        v.index()
    }
}

impl std::borrow::Borrow<NodeIndex> for OwnedIndex {
    fn borrow(&self) -> &NodeIndex
        returns
            &self.index(),
    {
        &self.0
    }
}

#[verifier::external_type_specification]
#[verifier::external_body]
pub struct ExArenaIndex(thunderdome::Index);

/// What `thunderdome::Index::from_bits` gives for `bits`: the index with generation
/// `bits >> 32` and slot `bits as u32`, or `None` when that generation is 0.
pub uninterp spec fn arena_index_of_bits(bits: u64) -> Option<thunderdome::Index>;

/// Calls `thunderdome::Index::to_bits`, which packs the index as `generation << 32 | slot`.
/// Its generation is a `NonZeroU32`, so the packed value is at least `2^32`; unpacking it with
/// `Index::from_bits` gives the index back, and no other packed value does, since `from_bits`
/// rebuilds the index from exactly those two halves.
#[verifier::external_body]
fn arena_index_to_bits(index: thunderdome::Index) -> (r: u64)
    ensures
        r >= SLOT_RANGE,
        arena_index_of_bits(r) == Some(index),
        forall|b: u64| #[trigger] arena_index_of_bits(b) == Some(index) ==> b == r,
{
    index.to_bits()
}

/// Calls `thunderdome::Index::from_bits`, which returns `None` exactly when the upper 32 bits
/// (the generation) are 0, and otherwise the index with that generation and the lower 32 bits
/// as its slot.
#[verifier::external_body]
fn arena_index_from_bits(bits: u64) -> (r: Option<thunderdome::Index>)
    ensures
        r == arena_index_of_bits(bits),
        r is Some <==> bits >= SLOT_RANGE,
{
    thunderdome::Index::from_bits(bits)
}

impl NodeIndex {
    /// Converts an arena index into a node index holding the same slot and generation: the
    /// packed value that unpacks to `index`, and the only one that does.
    pub fn from_index(index: thunderdome::Index) -> (r: NodeIndex)
        ensures
            arena_index_of_bits(r.spec_bits()) == Some(index),
            forall|b: u64| #[trigger] arena_index_of_bits(b) == Some(index) ==> b == r.spec_bits(),
    {
        let bits = arena_index_to_bits(index);
        NodeIndex { bits }
    }

    /// Converts a node index back into the arena index with the same slot and generation.
    /// This never fails, since a node index's generation is never 0.
    pub fn into_index(self) -> (r: thunderdome::Index)
        ensures
            arena_index_of_bits(self.spec_bits()) == Some(r),
    {
        proof { use_type_invariant(&self); }
        let r = arena_index_from_bits(self.bits);
        r.unwrap()
    }
}

/// The node index whose packed value unpacks to the arena index `index`.
pub open spec fn node_index_of(index: thunderdome::Index) -> NodeIndex {
    choose|n: NodeIndex| arena_index_of_bits(n.spec_bits()) == Some(index)
}

impl From<thunderdome::Index> for NodeIndex {
    fn from(value: thunderdome::Index) -> (r: NodeIndex) {
        let r = NodeIndex::from_index(value);
        proof {
            broadcast use group_index_bits;

            let c = node_index_of(value);
            assert(arena_index_of_bits(c.spec_bits()) == Some(value));
            assert(c.spec_bits() == r.spec_bits());
            assert(index_of_bits(c.spec_bits()) == c);
            assert(index_of_bits(r.spec_bits()) == r);
        }
        r
    }
}

impl vstd::std_specs::convert::FromSpecImpl<thunderdome::Index> for NodeIndex {
    open spec fn obeys_from_spec() -> bool {
        true
    }

    open spec fn from_spec(v: thunderdome::Index) -> NodeIndex {
        node_index_of(v)
    }
}

impl From<NodeIndex> for thunderdome::Index {
    fn from(value: NodeIndex) -> (r: thunderdome::Index) {
        value.into_index()
    }
}

impl vstd::std_specs::convert::FromSpecImpl<NodeIndex> for thunderdome::Index {
    open spec fn obeys_from_spec() -> bool {
        true
    }

    open spec fn from_spec(v: NodeIndex) -> thunderdome::Index {
        arena_index_of_bits(v.spec_bits()).unwrap()
    }
}

/// Converting an arena index into a node index and back gives the same arena index.
pub proof fn lemma_arena_index_round_trip(index: thunderdome::Index, n: NodeIndex, back: thunderdome::Index)
    requires
        arena_index_of_bits(n.spec_bits()) == Some(index),
        arena_index_of_bits(n.spec_bits()) == Some(back),
    ensures
        back == index,
{
}

/// Packing an index and unpacking the bits gives the index back, and the bits are the
/// generation times `2^32` plus the slot.
pub proof fn lemma_bits_round_trip(i: NodeIndex)
    ensures
        index_of_bits(i.spec_bits()) == i,
        i.spec_bits() == i.spec_generation() * (SLOT_RANGE as int) + i.spec_slot(),
        0 <= i.spec_slot() < SLOT_RANGE,
{
    let b = i.spec_bits() as int;
    assert(b == (b / (SLOT_RANGE as int)) * (SLOT_RANGE as int) + b % (SLOT_RANGE as int)) by (nonlinear_arith);
}

} // verus!

//! Ordered sets of child indices, kept in an insertion-ordered hash set.

use vstd::prelude::*;
use indexmap::IndexSet;
use crate::index::{
    NodeIndex, OwnedIndex, SLOT_RANGE, index_of_bits, index_from_valid_bits, group_index_bits,
};

verus! {

#[verifier::external_type_specification]
#[verifier::external_body]
#[verifier::reject_recursive_types(T)]
#[verifier::reject_recursive_types(S)]
pub struct ExIndexSet<T, S>(IndexSet<T, S>);

/// The items of an `IndexSet<u64>`, in their order.
pub uninterp spec fn index_set_items(set: IndexSet<u64>) -> Seq<u64>;

/// Calls `IndexSet::new`, which creates an empty set.
#[verifier::external_body]
fn index_set_new() -> (r: IndexSet<u64>)
    ensures
        index_set_items(r) == Seq::<u64>::empty(),
{
    IndexSet::new()
}

/// Calls `IndexSet::len`, the number of items.
#[verifier::external_body]
fn index_set_len(set: &IndexSet<u64>) -> (r: usize)
    ensures
        r == index_set_items(*set).len(),
{
    set.len()
}

/// Calls `IndexSet::insert`. An item already present leaves the set unchanged and gives
/// `false`; a new item is appended at the end and gives `true`.
#[verifier::external_body]
fn index_set_insert(set: &mut IndexSet<u64>, value: u64) -> (r: bool)
    ensures
        r == !index_set_items(*old(set)).contains(value),
        r ==> index_set_items(*final(set)) == index_set_items(*old(set)).push(value),
        !r ==> index_set_items(*final(set)) == index_set_items(*old(set)),
{
    set.insert(value)
}

/// Calls `IndexSet::get_index`, the item at a position, if the position is in range.
#[verifier::external_body]
fn index_set_get_index(set: &IndexSet<u64>, index: usize) -> (r: Option<u64>)
    ensures
        index < index_set_items(*set).len() ==> r == Some(index_set_items(*set)[index as int]),
        index >= index_set_items(*set).len() ==> r is None,
{
    set.get_index(index).copied()
}

/// Calls `IndexSet::get_index_of`, the position of an item, if it is present.
#[verifier::external_body]
fn index_set_get_index_of(set: &IndexSet<u64>, value: u64) -> (r: Option<usize>)
    ensures
        r is Some <==> index_set_items(*set).contains(value),
        r matches Some(i) ==> i < index_set_items(*set).len() && index_set_items(*set)[i as int]
            == value,
{
    set.get_index_of(&value)
}

/// Calls `IndexSet::shift_remove_index`: the item at a position in range is removed and
/// returned, and the items after it shift down by one; out of range, nothing changes.
#[verifier::external_body]
fn index_set_shift_remove_index(set: &mut IndexSet<u64>, index: usize) -> (r: Option<u64>)
    ensures
        index < index_set_items(*old(set)).len() ==> {
            &&& r == Some(index_set_items(*old(set))[index as int])
            &&& index_set_items(*final(set)) == index_set_items(*old(set)).remove(index as int)
        },
        index >= index_set_items(*old(set)).len() ==> {
            &&& r is None
            &&& index_set_items(*final(set)) == index_set_items(*old(set))
        },
{
    set.shift_remove_index(index)
}

/// Calls `IndexSet::move_index`, which moves the item at `from` to position `to`, shifting the
/// items in between. It panics on a position out of range, which `requires` leaves out.
#[verifier::external_body]
fn index_set_move_index(set: &mut IndexSet<u64>, from: usize, to: usize)
    requires
        from < index_set_items(*old(set)).len(),
        to < index_set_items(*old(set)).len(),
    ensures
        index_set_items(*final(set)) == index_set_items(*old(set)).remove(from as int).insert(
            to as int,
            index_set_items(*old(set))[from as int],
        ),
{
    set.move_index(from, to)
}

/// The position of `c` in `s`, if it occurs there (the first such position is not singled
/// out: in a sequence without duplicates there is only one).
pub open spec fn position_of(s: Seq<NodeIndex>, c: NodeIndex) -> Option<int> {
    if s.contains(c) {
        Some(choose|i: int| 0 <= i < s.len() && s[i] == c)
    } else {
        None
    }
}

/// In a sequence without duplicates, the item at position `i` is found at position `i`.
pub proof fn lemma_position_of_item(s: Seq<NodeIndex>, i: int)
    requires
        s.no_duplicates(),
        0 <= i < s.len(),
    ensures
        position_of(s, s[i]) == Some(i),
{
    assert(s.contains(s[i]));
}

/// An ordered set of child indices: each index occurs at most once, and indices keep the order
/// in which they were added unless they are moved or removed.
pub struct ChildSet {
    set: IndexSet<u64>,
}

impl View for ChildSet {
    type V = Seq<NodeIndex>;

    closed spec fn view(&self) -> Seq<NodeIndex> {
        decode(index_set_items(self.set))
    }
}

/// The node indices that packed values stand for, in the same order.
pub open spec fn decode(items: Seq<u64>) -> Seq<NodeIndex> {
    items.map_values(|b: u64| index_of_bits(b))
}

/// Every packed index in `items` has a nonzero generation, and none occurs twice.
spec fn valid_items(items: Seq<u64>) -> bool {
    &&& items.no_duplicates()
    &&& forall|i: int| 0 <= i < items.len() ==> #[trigger] items[i] >= SLOT_RANGE
}

/// Indices decoded from distinct packed values are distinct, so the decoded sequence of a set
/// without duplicates has none either, and membership carries over.
proof fn lemma_decoded(items: Seq<u64>)
    requires
        items.no_duplicates(),
    ensures
        decode(items).no_duplicates(),
        decode(items).len() == items.len(),
        forall|c: NodeIndex|
            #![trigger decode(items).contains(c)]
            decode(items).contains(c) <==> items.contains(
                c.spec_bits(),
            ),
{
    broadcast use group_index_bits;

    let v = decode(items);
    assert forall|i: int, j: int| 0 <= i < v.len() && 0 <= j < v.len() && i != j implies v[i]
        != v[j] by {
        assert(v[i].spec_bits() == items[i]);
        assert(v[j].spec_bits() == items[j]);
    }
    assert forall|c: NodeIndex| v.contains(c) <==> items.contains(c.spec_bits()) by {
        if v.contains(c) {
            let i = choose|i: int| 0 <= i < v.len() && v[i] == c;
            assert(items[i] == c.spec_bits());
        }
        if items.contains(c.spec_bits()) {
            let i = choose|i: int| 0 <= i < items.len() && items[i] == c.spec_bits();
            assert(v[i] == c);
        }
    }
}

/// Where the item at position `k` came from, after the item at `from` was moved to `to`.
spec fn moved_source(k: int, from: int, to: int) -> int {
    if k == to {
        from
    } else {
        let m = if k < to {
            k
        } else {
            k - 1
        };
        if m < from {
            m
        } else {
            m + 1
        }
    }
}

impl ChildSet {
    #[verifier::type_invariant]
    spec fn items_valid(self) -> bool {
        valid_items(index_set_items(self.set))
    }

    /// Creates an empty set.
    pub fn new() -> (r: ChildSet)
        ensures
            r@ == Seq::<NodeIndex>::empty(),
    {
        let r = ChildSet { set: index_set_new() };
        assert(r@ =~= Seq::<NodeIndex>::empty());
        r
    }

    /// Returns the number of children.
    pub fn len(&self) -> (r: usize)
        ensures
            r == self@.len(),
            self@.no_duplicates(),
    {
        proof {
            use_type_invariant(self);
            lemma_decoded(index_set_items(self.set));
        }
        index_set_len(&self.set)
    }

    /// Returns `true` if there are no children.
    pub fn is_empty(&self) -> (r: bool)
        ensures
            r == (self@.len() == 0),
    {
        self.len() == 0
    }

    /// Adds a child at the end. A child already present stays where it is; the result says
    /// whether the child was added.
    pub fn insert(&mut self, child: NodeIndex) -> (r: bool)
        ensures
            r == !old(self)@.contains(child),
            r ==> final(self)@ == old(self)@.push(child),
            !r ==> final(self)@ == old(self)@,
            final(self)@.no_duplicates(),
    {
        broadcast use group_index_bits;

        proof {
            use_type_invariant(&*self);
            lemma_decoded(index_set_items(self.set));
        }
        let ghost before = index_set_items(self.set);
        let bits = child.to_bits();
        let mut set = index_set_new();
        std::mem::swap(&mut set, &mut self.set);
        let r = index_set_insert(&mut set, bits);
        self.set = set;
        proof {
            let after = index_set_items(self.set);
            if r {
                assert forall|i: int, j: int| 0 <= i < after.len() && 0 <= j < after.len() && i
                    != j implies after[i] != after[j] by {
                    if i == before.len() as int {
                        assert(before.contains(after[j]) || j == before.len() as int);
                    }
                    if j == before.len() as int {
                        assert(before.contains(after[i]));
                    }
                }
                assert(valid_items(after));
                assert(decode(after) =~= decode(before).push(child));
            }
            lemma_decoded(after);
        }
        r
    }

    /// Returns the child at a position, or `None` if the position is out of range.
    pub fn get(&self, index: usize) -> (r: Option<NodeIndex>)
        ensures
            index < self@.len() ==> r == Some(self@[index as int]),
            index >= self@.len() ==> r is None,
            self@.no_duplicates(),
    {
        proof {
            use_type_invariant(self);
            lemma_decoded(index_set_items(self.set));
        }
        match index_set_get_index(&self.set, index) {
            Some(bits) => Some(index_from_valid_bits(bits)),
            None => None,
        }
    }

    /// Returns the position of a child, or `None` if it is not in the set.
    pub fn index_of(&self, child: NodeIndex) -> (r: Option<usize>)
        ensures
            r is Some <==> self@.contains(child),
            r matches Some(i) ==> i < self@.len() && self@[i as int] == child,
            r matches Some(i) ==> position_of(self@, child) == Some(i as int),
            r is None ==> position_of(self@, child) is None,
            self@.no_duplicates(),
    {
        broadcast use group_index_bits;

        proof {
            use_type_invariant(self);
            lemma_decoded(index_set_items(self.set));
        }
        let bits = child.to_bits();
        let r = index_set_get_index_of(&self.set, bits);
        proof {
            if let Some(i) = r {
                lemma_position_of_item(self@, i as int);
            }
        }
        r
    }

    /// Removes the child at a position, shifting the later children down by one, and returns
    /// it; out of range, nothing changes and `None` is returned.
    pub fn remove_at(&mut self, index: usize) -> (r: Option<NodeIndex>)
        ensures
            index < old(self)@.len() ==> {
                &&& r == Some(old(self)@[index as int])
                &&& final(self)@ == old(self)@.remove(index as int)
            },
            index >= old(self)@.len() ==> {
                &&& r is None
                &&& final(self)@ == old(self)@
            },
            final(self)@.no_duplicates(),
    {
        broadcast use group_index_bits;

        proof {
            use_type_invariant(&*self);
        }
        let ghost before = index_set_items(self.set);
        let mut set = index_set_new();
        std::mem::swap(&mut set, &mut self.set);
        let r = index_set_shift_remove_index(&mut set, index);
        self.set = set;
        proof {
            let after = index_set_items(self.set);
            if index < before.len() {
                assert forall|i: int| 0 <= i < after.len() implies #[trigger] after[i]
                    >= SLOT_RANGE by {
                    if i < index {
                        assert(after[i] == before[i]);
                    } else {
                        assert(after[i] == before[i + 1]);
                    }
                }
                assert forall|i: int, j: int| 0 <= i < after.len() && 0 <= j < after.len() && i
                    != j implies after[i] != after[j] by {
                    let bi = if i < index { i } else { i + 1 };
                    let bj = if j < index { j } else { j + 1 };
                    assert(after[i] == before[bi]);
                    assert(after[j] == before[bj]);
                }
                assert(decode(after) =~= decode(before).remove(index as int));
            }
            lemma_decoded(after);
        }
        match r {
            Some(bits) => Some(index_from_valid_bits(bits)),
            None => None,
        }
    }

    /// Moves the child at position `from` to position `to`, shifting the children in between,
    /// and returns `true`. When either position is out of range, nothing changes and `false` is
    /// returned.
    pub fn move_index(&mut self, from: usize, to: usize) -> (r: bool)
        ensures
            r == (from < old(self)@.len() && to < old(self)@.len()),
            r ==> final(self)@ == old(self)@.remove(from as int).insert(
                to as int,
                old(self)@[from as int],
            ),
            !r ==> final(self)@ == old(self)@,
            final(self)@.no_duplicates(),
    {
        broadcast use group_index_bits;

        proof {
            use_type_invariant(&*self);
            lemma_decoded(index_set_items(self.set));
        }
        let len = index_set_len(&self.set);
        if from >= len || to >= len {
            return false;
        }
        let ghost before = index_set_items(self.set);
        let mut set = index_set_new();
        std::mem::swap(&mut set, &mut self.set);
        index_set_move_index(&mut set, from, to);
        self.set = set;
        proof {
            let after = index_set_items(self.set);
            assert forall|k: int| 0 <= k < after.len() implies #[trigger] after[k] == before[
                moved_source(k, from as int, to as int)] by {
                let m = if k < to { k } else { k - 1 };
                if k != to {
                    assert(after[k] == before.remove(from as int)[m]);
                }
            }
            assert forall|i: int| 0 <= i < after.len() implies #[trigger] after[i]
                >= SLOT_RANGE by {
                assert(after[i] == before[moved_source(i, from as int, to as int)]);
            }
            assert forall|i: int, j: int| 0 <= i < after.len() && 0 <= j < after.len() && i
                != j implies after[i] != after[j] by {
                assert(after[i] == before[moved_source(i, from as int, to as int)]);
                assert(after[j] == before[moved_source(j, from as int, to as int)]);
            }
            assert(decode(after) =~= decode(before).remove(from as int).insert(
                to as int,
                decode(before)[from as int],
            ));
            lemma_decoded(after);
        }
        true
    }

    /// Returns all children, in order.
    pub fn to_vec(&self) -> (r: Vec<NodeIndex>)
        ensures
            r@ == self@,
            self@.no_duplicates(),
    {
        let n = self.len();
        let mut r: Vec<NodeIndex> = Vec::new();
        let mut i: usize = 0;
        while i < n
            invariant
                n == self@.len(),
                i <= n,
                r@ == self@.take(i as int),
            decreases n - i,
        {
            let c = self.get(i).unwrap();
            r.push(c);
            i = i + 1;
            assert(r@ =~= self@.take(i as int));
        }
        assert(self@.take(n as int) =~= self@);
        r
    }
}

/// An ordered set of owned children: each was handed over as an [`OwnedIndex`], and a child
/// taken out is handed back as one.
pub struct OwnedChildSet {
    set: ChildSet,
}

impl View for OwnedChildSet {
    type V = Seq<NodeIndex>;

    closed spec fn view(&self) -> Seq<NodeIndex> {
        self.set@
    }
}

impl OwnedChildSet {
    /// Creates an empty set.
    pub fn new() -> (r: OwnedChildSet)
        ensures
            r@ == Seq::<NodeIndex>::empty(),
    {
        OwnedChildSet { set: ChildSet::new() }
    }

    /// Returns the number of children.
    pub fn len(&self) -> (r: usize)
        ensures
            r == self@.len(),
            self@.no_duplicates(),
    {
        self.set.len()
    }

    /// Returns `true` if there are no children.
    pub fn is_empty(&self) -> (r: bool)
        ensures
            r == (self@.len() == 0),
    {
        self.set.is_empty()
    }

    /// Adds a child at the end. A child already present stays where it is; the result says
    /// whether the child was added.
    pub fn insert(&mut self, child: OwnedIndex) -> (r: bool)
        ensures
            r == !old(self)@.contains(child.index()),
            r ==> final(self)@ == old(self)@.push(child.index()),
            !r ==> final(self)@ == old(self)@,
            final(self)@.no_duplicates(),
    {
        self.set.insert(child.shareable())
    }

    /// Takes out the child at a position, shifting the later children down by one, and hands
    /// back its ownership; out of range, nothing changes and `None` is returned.
    pub fn detach_at(&mut self, index: usize) -> (r: Option<OwnedIndex>)
        ensures
            index < old(self)@.len() ==> {
                &&& r matches Some(o) && o.index() == old(self)@[index as int]
                &&& final(self)@ == old(self)@.remove(index as int)
            },
            index >= old(self)@.len() ==> {
                &&& r is None
                &&& final(self)@ == old(self)@
            },
            final(self)@.no_duplicates(),
    {
        match self.set.remove_at(index) {
            Some(c) => Some(OwnedIndex::detached(c)),
            None => None,
        }
    }

    /// Moves the child at position `from` to position `to`, shifting the children in between,
    /// and returns `true`. When either position is out of range, nothing changes and `false` is
    /// returned.
    pub fn move_index(&mut self, from: usize, to: usize) -> (r: bool)
        ensures
            r == (from < old(self)@.len() && to < old(self)@.len()),
            r ==> final(self)@ == old(self)@.remove(from as int).insert(
                to as int,
                old(self)@[from as int],
            ),
            !r ==> final(self)@ == old(self)@,
            final(self)@.no_duplicates(),
    {
        self.set.move_index(from, to)
    }

    /// Returns the child at a position, or `None` if the position is out of range.
    pub fn get(&self, index: usize) -> (r: Option<NodeIndex>)
        ensures
            index < self@.len() ==> r == Some(self@[index as int]),
            index >= self@.len() ==> r is None,
    {
        self.set.get(index)
    }

    /// Returns all children, in order.
    pub fn to_vec(&self) -> (r: Vec<NodeIndex>)
        ensures
            r@ == self@,
    {
        self.set.to_vec()
    }
}

/// Moving a child keeps the same children: the result is a rearrangement of the children before.
pub proof fn lemma_move_keeps_children(s: Seq<NodeIndex>, from: int, to: int)
    requires
        0 <= from < s.len(),
        0 <= to < s.len(),
    ensures
        s.remove(from).insert(to, s[from]).to_multiset() == s.to_multiset(),
        s.remove(from).insert(to, s[from]).len() == s.len(),
        s.remove(from).insert(to, s[from])[to] == s[from],
{
    broadcast use vstd::seq_lib::group_to_multiset_ensures;

    s.remove_ensures(from);
    s.remove(from).insert_ensures(to, s[from]);
}

} // verus!

//! Containers of independent children.
//!
//! [`Overlap`] arranges its children independently on top of each other. Each child is aligned
//! to the space of the entire container and no restrictions are applied.

use vstd::prelude::*;
use crate::Alignment;
use crate::index::{NodeIndex, OwnedIndex};
use crate::children::OwnedChildSet;

verus! {
/// A node that contains many children which are stacked on top of each other and do not
/// interact. Lower positions are visited first; later children appear on top.
pub struct Overlap {
    align: (Alignment, Alignment),
    children: OwnedChildSet,
}

impl Overlap {
    /// The alignment of the container.
    pub closed spec fn align(&self) -> (Alignment, Alignment) {
        self.align
    }

    /// The children, in order.
    pub closed spec fn children(&self) -> Seq<NodeIndex> {
        self.children@
    }

    /// Creates an empty `Overlap` with no children and default (`Full`, `Full`) alignment.
    pub fn new() -> (r: Overlap)
        ensures
            r.align() == (Alignment::Full, Alignment::Full),
            r.children() == Seq::<NodeIndex>::empty(),
    {
        Overlap { align: (Alignment::Full, Alignment::Full), children: OwnedChildSet::new() }
    }

    /// Adds a child at the end, unless it is already a child.
    pub fn with_child(self, index: OwnedIndex) -> (r: Overlap)
        ensures
            r.align() == self.align(),
            self.children().contains(index.index()) ==> r.children() == self.children(),
            !self.children().contains(index.index()) ==> r.children() == self.children().push(
                index.index(),
            ),
            r.children().no_duplicates(),
    {
        let mut s = self;
        s.add_child(index);
        s
    }

    /// Sets the horizontal and vertical alignment.
    pub fn with_align(self, align: (Alignment, Alignment)) -> (r: Overlap)
        ensures
            r.align() == align,
            r.children() == self.children(),
    {
        let mut s = self;
        s.align = align;
        s
    }

    /// Adds a child at the end, unless it is already a child.
    pub fn add_child(&mut self, index: OwnedIndex)
        ensures
            final(self).align() == old(self).align(),
            old(self).children().contains(index.index()) ==> final(self).children() == old(
                self,
            ).children(),
            !old(self).children().contains(index.index()) ==> final(self).children() == old(
                self,
            ).children().push(index.index()),
            final(self).children().no_duplicates(),
    {
        self.children.insert(index);
    }

    /// Returns the number of children.
    pub fn len(&self) -> (r: usize)
        ensures
            r == self.children().len(),
    {
        self.children.len()
    }

    /// Returns `true` if there are no children.
    pub fn is_empty(&self) -> (r: bool)
        ensures
            r == (self.children().len() == 0),
    {
        self.children.is_empty()
    }

    /// Detaches the child at a position, shifting the later children down, and returns it so
    /// that it can be removed from the tree. Out of range, nothing changes and `None` is
    /// returned.
    pub fn detach_child(&mut self, index: usize) -> (r: Option<OwnedIndex>)
        ensures
            final(self).align() == old(self).align(),
            index < old(self).children().len() ==> {
                &&& r matches Some(o) && o.index() == old(self).children()[index as int]
                &&& final(self).children() == old(self).children().remove(index as int)
            },
            index >= old(self).children().len() ==> {
                &&& r is None
                &&& final(self).children() == old(self).children()
            },
    {
        self.children.detach_at(index)
    }

    /// Moves the child at `index` to `position`, shifting the children in between, and
    /// returns `true`. When either is out of range, nothing moves and `false` is returned.
    pub fn set_child_position(&mut self, index: usize, position: usize) -> (r: bool)
        ensures
            r == (index < old(self).children().len() && position < old(self).children().len()),
            r ==> final(self).children() == old(self).children().remove(index as int).insert(
                position as int,
                old(self).children()[index as int],
            ),
            !r ==> final(self).children() == old(self).children(),
            final(self).align() == old(self).align(),
    {
        self.children.move_index(index, position)
    }

    /// Returns the child at a position, if in range.
    pub fn get_child_index(&self, index: usize) -> (r: Option<NodeIndex>)
        ensures
            index < self.children().len() ==> r == Some(self.children()[index as int]),
            index >= self.children().len() ==> r is None,
    {
        self.children.get(index)
    }

    /// The alignment of the container.
    pub fn get_align(&self) -> (r: (Alignment, Alignment))
        ensures
            r == self.align(),
    {
        self.align
    }

    /// Mutable access to the horizontal and vertical alignment.
    pub fn get_align_mut(&mut self) -> (r: (&mut Alignment, &mut Alignment))
        ensures
            *r.0 == old(self).align().0,
            *r.1 == old(self).align().1,
            final(self).align() == (*final(r.0), *final(r.1)),
            final(self).children() == old(self).children(),
    {
        (&mut self.align.0, &mut self.align.1)
    }

    /// All children, in order.
    pub fn get_children(&self) -> (r: Vec<NodeIndex>)
        ensures
            r@ == self.children(),
    {
        self.children.to_vec()
    }
}

impl Default for Overlap {
    fn default() -> (r: Overlap)
        ensures
            r.align() == (Alignment::Full, Alignment::Full),
            r.children() == Seq::<NodeIndex>::empty(),
    {
        Overlap::new()
    }
}

} // verus!

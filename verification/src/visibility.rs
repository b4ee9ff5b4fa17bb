//! Container nodes that control the visibility of their children.
//!
//! An invisible child has no minimum size and is not visited by walks over visible nodes.
//! [`Hider`] hides its one child on demand; [`Selector`] shows at most one of its children.

use vstd::prelude::*;
use crate::Alignment;
use crate::index::{NodeIndex, OwnedIndex};
use crate::children::{ChildSet, position_of};
use crate::slots::ChildSlot;

verus! {

/// A node that optionally hides its child.
///
/// Hiding the child gives the hider no minimum size and keeps the child out of the visible
/// children, so that renderers do not attempt to render it.
pub struct Hider {
    /// Whether the child is hidden.
    pub hidden: bool,
    align: (Alignment, Alignment),
    child: ChildSlot,
}

impl Hider {
    /// Whether the child is hidden.
    pub closed spec fn is_hidden(&self) -> bool {
        self.hidden
    }

    /// The alignment of the hider.
    pub closed spec fn align(&self) -> (Alignment, Alignment) {
        self.align
    }

    /// The child of the hider, if bound.
    pub closed spec fn child(&self) -> Option<NodeIndex> {
        self.child@
    }

    /// All children: the child, if bound.
    pub open spec fn all_children(&self) -> Seq<NodeIndex> {
        match self.child() {
            Some(c) => seq![c],
            None => Seq::<NodeIndex>::empty(),
        }
    }

    /// The visible children: the child, if bound and not hidden.
    pub open spec fn visible_children(&self) -> Seq<NodeIndex> {
        if self.is_hidden() {
            Seq::<NodeIndex>::empty()
        } else {
            self.all_children()
        }
    }

    /// Creates a new `Hider` with no child, (`Begin`, `Begin`) alignment, and shown.
    pub fn new() -> (r: Hider)
        ensures
            !r.is_hidden(),
            r.align() == (Alignment::Begin, Alignment::Begin),
            r.child() is None,
    {
        Hider { hidden: false, align: (Alignment::Begin, Alignment::Begin), child: ChildSlot::new() }
    }

    /// Sets the horizontal and vertical alignment.
    pub fn with_align(self, align: (Alignment, Alignment)) -> (r: Hider)
        ensures
            r.align() == align,
            r.is_hidden() == self.is_hidden(),
            r.child() == self.child(),
    {
        let mut s = self;
        s.align = align;
        s
    }

    /// Binds a child node to the hider. There must be no child yet.
    pub fn with_child(self, index: NodeIndex) -> (r: Hider)
        requires
            self.child() is None,
        ensures
            r.child() == Some(index),
            r.is_hidden() == self.is_hidden(),
            r.align() == self.align(),
    {
        let mut s = self;
        s.child.bind(index);
        s
    }

    /// Sets whether the child is hidden.
    pub fn with_hidden(self, hidden: bool) -> (r: Hider)
        ensures
            r.is_hidden() == hidden,
            r.align() == self.align(),
            r.child() == self.child(),
    {
        let mut s = self;
        s.hidden = hidden;
        s
    }

    /// Binds a child node to the hider. There must be no child yet.
    pub fn add_child(&mut self, index: NodeIndex)
        requires
            old(self).child() is None,
        ensures
            final(self).child() == Some(index),
            final(self).is_hidden() == old(self).is_hidden(),
            final(self).align() == old(self).align(),
    {
        self.child.bind(index);
    }

    /// The alignment of the hider.
    pub fn get_align(&self) -> (r: (Alignment, Alignment))
        ensures
            r == self.align(),
    {
        self.align
    }

    /// Mutable access to the horizontal and vertical alignment.
    pub fn get_align_mut(&mut self) -> (r: (&mut Alignment, &mut Alignment))
        ensures
            *r.0 == old(self).align().0,
            *r.1 == old(self).align().1,
            final(self).align() == (*final(r.0), *final(r.1)),
            final(self).is_hidden() == old(self).is_hidden(),
            final(self).child() == old(self).child(),
    {
        (&mut self.align.0, &mut self.align.1)
    }

    /// All children: the child, if bound, whether hidden or not.
    pub fn get_children(&self) -> (r: Vec<NodeIndex>)
        ensures
            r@ == self.all_children(),
            self.child() matches Some(c) ==> r@ == seq![c],
            self.child() is None ==> r@.len() == 0,
    {
        self.child.children()
    }

    /// The visible children: the child, if bound and not hidden.
    pub fn get_visible_children(&self) -> (r: Vec<NodeIndex>)
        ensures
            r@ == self.visible_children(),
            self.is_hidden() ==> r@.len() == 0,
            self.child() matches Some(c) ==> (!self.is_hidden() ==> r@ == seq![c]),
            self.child() is None ==> r@.len() == 0,
    {
        if self.hidden {
            Vec::new()
        } else {
            self.child.children()
        }
    }
}

impl Default for Hider {
    fn default() -> (r: Hider)
        ensures
            !r.is_hidden(),
            r.align() == (Alignment::Begin, Alignment::Begin),
            r.child() is None,
    {
        Hider::new()
    }
}

/// Shows at most one of its children.
///
/// The selected child is the only visible one; with no selection, no child is visible.
pub struct Selector {
    selected: Option<NodeIndex>,
    align: (Alignment, Alignment),
    children: ChildSet,
}

impl Selector {
    /// The selected child, if any.
    pub closed spec fn selected(&self) -> Option<NodeIndex> {
        self.selected
    }

    /// The alignment of the selector.
    pub closed spec fn align(&self) -> (Alignment, Alignment) {
        self.align
    }

    /// The children, in order.
    pub closed spec fn children(&self) -> Seq<NodeIndex> {
        self.children@
    }

    /// The visible children: the selected child, if any.
    pub open spec fn visible_children(&self) -> Seq<NodeIndex> {
        match self.selected() {
            Some(c) => seq![c],
            None => Seq::<NodeIndex>::empty(),
        }
    }

    /// Creates an empty `Selector` with no children, no selection, and (`Begin`, `Begin`)
    /// alignment.
    pub fn new() -> (r: Selector)
        ensures
            r.selected() is None,
            r.align() == (Alignment::Begin, Alignment::Begin),
            r.children() == Seq::<NodeIndex>::empty(),
    {
        Selector {
            selected: None,
            align: (Alignment::Begin, Alignment::Begin),
            children: ChildSet::new(),
        }
    }

    /// Adds a child at the end, unless it is already a child. If there are no other children,
    /// the new child becomes selected; otherwise the selection is unchanged.
    pub fn with_child(self, index: NodeIndex) -> (r: Selector)
        ensures
            r.selected() == if self.children().len() == 0 {
                Some(index)
            } else {
                self.selected()
            },
            r.align() == self.align(),
            self.children().contains(index) ==> r.children() == self.children(),
            !self.children().contains(index) ==> r.children() == self.children().push(index),
            r.children().no_duplicates(),
    {
        let mut s = self;
        if s.children.is_empty() {
            s.selected = Some(index);
        }
        s.children.insert(index);
        s
    }

    /// Sets the horizontal and vertical alignment of the container, not the children.
    pub fn with_align(self, align: (Alignment, Alignment)) -> (r: Selector)
        ensures
            r.align() == align,
            r.selected() == self.selected(),
            r.children() == self.children(),
    {
        let mut s = self;
        s.align = align;
        s
    }

    /// Adds a child at the end, unless it is already a child. The selection is unchanged.
    pub fn add_child(&mut self, index: NodeIndex)
        ensures
            final(self).selected() == old(self).selected(),
            final(self).align() == old(self).align(),
            old(self).children().contains(index) ==> final(self).children() == old(self).children(),
            !old(self).children().contains(index) ==> final(self).children() == old(
                self,
            ).children().push(index),
            final(self).children().no_duplicates(),
    {
        self.children.insert(index);
    }

    /// Returns the number of children.
    pub fn len(&self) -> (r: usize)
        ensures
            r == self.children().len(),
    {
        self.children.len()
    }

    /// Returns `true` if there are no children.
    pub fn is_empty(&self) -> (r: bool)
        ensures
            r == (self.children().len() == 0),
    {
        self.children.is_empty()
    }

    /// Detaches the child at a position, shifting the later children down, and returns it so
    /// that it can be removed from the tree. If it was selected, nothing is selected any more.
    /// Out of range, nothing changes and `None` is returned.
    pub fn detach_child(&mut self, index: usize) -> (r: Option<OwnedIndex>)
        ensures
            final(self).align() == old(self).align(),
            index < old(self).children().len() ==> {
                &&& r matches Some(o) && o.index() == old(self).children()[index as int]
                &&& final(self).children() == old(self).children().remove(index as int)
                &&& final(self).selected() == if old(self).selected() == Some(
                    old(self).children()[index as int],
                ) {
                    None
                } else {
                    old(self).selected()
                }
            },
            index >= old(self).children().len() ==> {
                &&& r is None
                &&& final(self).children() == old(self).children()
                &&& final(self).selected() == old(self).selected()
            },
    {
        let removed = self.children.remove_at(index);
        match removed {
            None => None,
            Some(ti) => {
                if let Some(sel) = self.selected {
                    if sel == ti {
                        self.selected = None;
                    }
                }
                Some(OwnedIndex::detached(ti))
            },
        }
    }

    /// Moves the child at `index` to `position`, shifting the children in between, and
    /// returns `true`. When either is out of range, nothing moves and `false` is returned.
    pub fn set_child_position(&mut self, index: usize, position: usize) -> (r: bool)
        ensures
            r == (index < old(self).children().len() && position < old(self).children().len()),
            r ==> final(self).children() == old(self).children().remove(index as int).insert(
                position as int,
                old(self).children()[index as int],
            ),
            !r ==> final(self).children() == old(self).children(),
            final(self).selected() == old(self).selected(),
            final(self).align() == old(self).align(),
    {
        self.children.move_index(index, position)
    }

    /// Returns the child at a position, if in range.
    pub fn get_child_index(&self, index: usize) -> (r: Option<NodeIndex>)
        ensures
            index < self.children().len() ==> r == Some(self.children()[index as int]),
            index >= self.children().len() ==> r is None,
    {
        self.children.get(index)
    }

    /// Returns the selected child, if any.
    pub fn get_selected(&self) -> (r: Option<NodeIndex>)
        ensures
            r == self.selected(),
    {
        self.selected
    }

    /// Returns the position of the selected child, if a child is selected and is among the
    /// children.
    pub fn get_selected_index(&self) -> (r: Option<usize>)
        ensures
            self.selected() is None ==> r is None,
            self.selected() matches Some(s) ==> {
                &&& r is None <==> position_of(self.children(), s) is None
                &&& r matches Some(i) ==> position_of(self.children(), s) == Some(i as int)
            },
    {
        match self.selected {
            None => None,
            Some(s) => self.children.index_of(s),
        }
    }

    /// Selects the given child.
    pub fn set_selected(&mut self, child: NodeIndex)
        ensures
            final(self).selected() == Some(child),
            final(self).children() == old(self).children(),
            final(self).align() == old(self).align(),
    {
        self.selected = Some(child)
    }

    /// Selects the child at a position; out of range, nothing is selected.
    pub fn set_selected_index(&mut self, index: usize)
        ensures
            index < old(self).children().len() ==> final(self).selected() == Some(
                old(self).children()[index as int],
            ),
            index >= old(self).children().len() ==> final(self).selected() is None,
            final(self).children() == old(self).children(),
            final(self).children().no_duplicates(),
            final(self).align() == old(self).align(),
    {
        self.selected = self.children.get(index);
    }

    /// Removes the selection.
    pub fn unselect(&mut self)
        ensures
            final(self).selected() is None,
            final(self).children() == old(self).children(),
            final(self).align() == old(self).align(),
    {
        self.selected = None;
    }

    /// The alignment of the selector.
    pub fn get_align(&self) -> (r: (Alignment, Alignment))
        ensures
            r == self.align(),
    {
        self.align
    }

    /// Mutable access to the horizontal and vertical alignment.
    pub fn get_align_mut(&mut self) -> (r: (&mut Alignment, &mut Alignment))
        ensures
            *r.0 == old(self).align().0,
            *r.1 == old(self).align().1,
            final(self).align() == (*final(r.0), *final(r.1)),
            final(self).selected() == old(self).selected(),
            final(self).children() == old(self).children(),
    {
        (&mut self.align.0, &mut self.align.1)
    }

    /// All children, in order.
    pub fn get_children(&self) -> (r: Vec<NodeIndex>)
        ensures
            r@ == self.children(),
    {
        self.children.to_vec()
    }

    /// The visible children: the selected child, if any.
    pub fn get_visible_children(&self) -> (r: Vec<NodeIndex>)
        ensures
            r@ == self.visible_children(),
            self.selected() matches Some(c) ==> r@ == seq![c],
            self.selected() is None ==> r@.len() == 0,
    {
        let mut r: Vec<NodeIndex> = Vec::new();
        if let Some(c) = self.selected {
            r.push(c);
            assert(r@ =~= seq![c]);
        }
        r
    }
}

impl Default for Selector {
    fn default() -> (r: Selector)
        ensures
            r.selected() is None,
            r.align() == (Alignment::Begin, Alignment::Begin),
            r.children() == Seq::<NodeIndex>::empty(),
    {
        Selector::new()
    }
}

/// A hider's children are its bound child, and nothing else, whether it is hidden or shown
/// and whatever its alignment: two hiders with the same child have the same children.
pub proof fn lemma_hider_children_are_its_child(h: &Hider, g: &Hider)
    ensures
        h.child() matches Some(c) ==> h.all_children() == seq![c],
        h.child() is None ==> h.all_children().len() == 0,
        h.child() == g.child() ==> h.all_children() == g.all_children(),
{
}

/// A hidden hider has no visible children; a shown hider's visible children are its
/// children. Whether a child is visible depends on the child and on hiding alone, not on the
/// alignment.
pub proof fn lemma_hider_hidden_shows_nothing(h: &Hider, g: &Hider)
    ensures
        h.is_hidden() ==> h.visible_children().len() == 0,
        h.child() matches Some(c) ==> (!h.is_hidden() ==> h.visible_children() == seq![c]),
        !h.is_hidden() ==> h.visible_children() == h.all_children(),
        h.child() == g.child() && h.is_hidden() == g.is_hidden() ==> h.visible_children()
            == g.visible_children(),
{
}

/// While a child is selected, it is the one and only visible child of a selector, whatever
/// the other children are; with no selection nothing is visible.
pub proof fn lemma_selector_shows_selected(s: &Selector, t: &Selector)
    ensures
        s.selected() matches Some(c) ==> s.visible_children() == seq![c],
        s.selected() is None ==> s.visible_children().len() == 0,
        s.selected() == t.selected() ==> s.visible_children() == t.visible_children(),
{
}

/// A hider's visible children are among its children.
pub proof fn lemma_hider_visible_among_children(h: &Hider)
    ensures
        forall|c: NodeIndex| #[trigger] h.visible_children().contains(c) ==> h.all_children().contains(c),
{
}

/// A selector's visible child is among its children whenever the selection is one of them, as
/// it is after selecting by position or adding the first child.
pub proof fn lemma_selector_visible_among_children(s: &Selector)
    requires
        s.selected() matches Some(c) ==> s.children().contains(c),
    ensures
        forall|c: NodeIndex| #[trigger] s.visible_children().contains(c) ==> s.children().contains(c),
{
    if let Some(sel) = s.selected() {
        assert forall|c: NodeIndex| #[trigger] s.visible_children().contains(c) implies s.children().contains(c) by {
            let k = choose|k: int| 0 <= k < s.visible_children().len() && s.visible_children()[k] == c;
            assert(k == 0);
        }
    }
}

} // verus!

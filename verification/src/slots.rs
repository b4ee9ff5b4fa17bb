//! Fixed child slots of containers that hold one, two or three children.

use vstd::prelude::*;
use crate::index::NodeIndex;

verus! {

/// The single child slot of a container. Once bound, the child cannot be replaced.
pub struct ChildSlot {
    child: Option<NodeIndex>,
}

impl View for ChildSlot {
    type V = Option<NodeIndex>;

    closed spec fn view(&self) -> Option<NodeIndex> {
        self.child
    }
}

impl ChildSlot {
    /// An empty slot.
    pub fn new() -> (r: ChildSlot)
        ensures
            r@ is None,
    {
        ChildSlot { child: None }
    }

    /// Binds a child. The slot must be empty.
    pub fn bind(&mut self, index: NodeIndex)
        requires
            old(self)@ is None,
        ensures
            final(self)@ == Some(index),
    {
        self.child = Some(index);
    }

    /// The child, if bound.
    pub fn get(&self) -> (r: Option<NodeIndex>)
        ensures
            r == self@,
    {
        self.child
    }

    /// The child as a list: empty, or just the child.
    pub fn children(&self) -> (r: Vec<NodeIndex>)
        ensures
            r@ == match self@ {
                Some(c) => seq![c],
                None => Seq::<NodeIndex>::empty(),
            },
    {
        let mut r: Vec<NodeIndex> = Vec::new();
        if let Some(c) = self.child {
            r.push(c);
            assert(r@ =~= seq![c]);
        }
        r
    }
}

/// The two child slots of a split: a first (left or top) and a second (right or bottom).
pub struct ChildPair {
    first: Option<NodeIndex>,
    second: Option<NodeIndex>,
}

impl View for ChildPair {
    type V = (Option<NodeIndex>, Option<NodeIndex>);

    closed spec fn view(&self) -> (Option<NodeIndex>, Option<NodeIndex>) {
        (self.first, self.second)
    }
}

impl ChildPair {
    /// Two empty slots.
    pub fn new() -> (r: ChildPair)
        ensures
            r@ == (None::<NodeIndex>, None::<NodeIndex>),
    {
        ChildPair { first: None, second: None }
    }

    /// Binds both children. Both slots must be empty.
    pub fn bind_both(&mut self, first: NodeIndex, second: NodeIndex)
        requires
            old(self)@.0 is None && old(self)@.1 is None,
        ensures
            final(self)@ == (Some(first), Some(second)),
    {
        self.first = Some(first);
        self.second = Some(second);
    }

    /// Whether both slots are bound.
    pub open spec fn full(&self) -> bool {
        self@.0 is Some && self@.1 is Some
    }

    /// Binds a child to the first slot, or to the second if the first is taken. At least one
    /// slot must be empty.
    pub fn add_child(&mut self, index: NodeIndex)
        requires
            !old(self).full(),
        ensures
            old(self)@.0 is None ==> final(self)@ == (Some(index), old(self)@.1),
            old(self)@.0 is Some ==> final(self)@ == (old(self)@.0, Some(index)),
    {
        if self.first.is_none() {
            self.first = Some(index);
        } else {
            self.second = Some(index);
        }
    }

    /// The first child, if bound.
    pub fn first(&self) -> (r: Option<NodeIndex>)
        ensures
            r == self@.0,
    {
        self.first
    }

    /// The second child, if bound.
    pub fn second(&self) -> (r: Option<NodeIndex>)
        ensures
            r == self@.1,
    {
        self.second
    }

    /// Both children, in order, when both are bound; otherwise none.
    pub fn children(&self) -> (r: Vec<NodeIndex>)
        ensures
            r@ == match self@ {
                (Some(a), Some(b)) => seq![a, b],
                _ => Seq::<NodeIndex>::empty(),
            },
    {
        let mut r: Vec<NodeIndex> = Vec::new();
        match (self.first, self.second) {
            (Some(a), Some(b)) => {
                r.push(a);
                r.push(b);
                assert(r@ =~= seq![a, b]);
            },
            _ => {},
        }
        r
    }
}

/// The three child slots of a split with a separator: a first child, a separator and a last
/// child, bound in that order.
pub struct ChildTriple {
    first: Option<NodeIndex>,
    sep: Option<NodeIndex>,
    last: Option<NodeIndex>,
}

impl View for ChildTriple {
    type V = (Option<NodeIndex>, Option<NodeIndex>, Option<NodeIndex>);

    closed spec fn view(&self) -> (Option<NodeIndex>, Option<NodeIndex>, Option<NodeIndex>) {
        (self.first, self.sep, self.last)
    }
}

impl ChildTriple {
    /// Three empty slots.
    pub fn new() -> (r: ChildTriple)
        ensures
            r@ == (None::<NodeIndex>, None::<NodeIndex>, None::<NodeIndex>),
    {
        ChildTriple { first: None, sep: None, last: None }
    }

    /// Whether all three slots are bound.
    pub open spec fn full(&self) -> bool {
        self@.0 is Some && self@.1 is Some && self@.2 is Some
    }

    /// Binds all three children. All three slots must be empty.
    pub fn bind_all(&mut self, first: NodeIndex, sep: NodeIndex, last: NodeIndex)
        requires
            old(self)@ == (None::<NodeIndex>, None::<NodeIndex>, None::<NodeIndex>),
        ensures
            final(self)@ == (Some(first), Some(sep), Some(last)),
    {
        self.first = Some(first);
        self.sep = Some(sep);
        self.last = Some(last);
    }

    /// Binds a child to the first empty slot, in the order first, separator, last. At least
    /// one slot must be empty.
    pub fn add_child(&mut self, index: NodeIndex)
        requires
            !old(self).full(),
        ensures
            old(self)@.0 is None ==> final(self)@ == (Some(index), old(self)@.1, old(self)@.2),
            old(self)@.0 is Some && old(self)@.1 is None ==> final(self)@ == (
                old(self)@.0,
                Some(index),
                old(self)@.2,
            ),
            old(self)@.0 is Some && old(self)@.1 is Some ==> final(self)@ == (
                old(self)@.0,
                old(self)@.1,
                Some(index),
            ),
    {
        if self.first.is_none() {
            self.first = Some(index);
        } else if self.sep.is_none() {
            self.sep = Some(index);
        } else {
            self.last = Some(index);
        }
    }

    /// The first child, if bound.
    pub fn first(&self) -> (r: Option<NodeIndex>)
        ensures
            r == self@.0,
    {
        self.first
    }

    /// The separator, if bound.
    pub fn sep(&self) -> (r: Option<NodeIndex>)
        ensures
            r == self@.1,
    {
        self.sep
    }

    /// The last child, if bound.
    pub fn last(&self) -> (r: Option<NodeIndex>)
        ensures
            r == self@.2,
    {
        self.last
    }

    /// The bound children in slot order, up to the first empty slot.
    pub fn children(&self) -> (r: Vec<NodeIndex>)
        ensures
            r@ == match self@ {
                (Some(a), Some(b), Some(c)) => seq![a, b, c],
                (Some(a), Some(b), None) => seq![a, b],
                (Some(a), None, _) => seq![a],
                (None, _, _) => Seq::<NodeIndex>::empty(),
            },
    {
        let mut r: Vec<NodeIndex> = Vec::new();
        if let Some(a) = self.first {
            r.push(a);
            if let Some(b) = self.sep {
                r.push(b);
                if let Some(c) = self.last {
                    r.push(c);
                    assert(r@ =~= seq![a, b, c]);
                } else {
                    assert(r@ =~= seq![a, b]);
                }
            } else {
                assert(r@ =~= seq![a]);
            }
        }
        r
    }
}

} // verus!

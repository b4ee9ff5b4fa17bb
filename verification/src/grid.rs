//! Containers that distribute equal space to children.
//!
//! [`HEqual`] and [`VEqual`] arrange children left to right and top to bottom, giving every
//! child equal space. [`Grid`] arranges children in a grid of equal cells, filling rows from
//! left to right and then from top to bottom.

use vstd::prelude::*;
use crate::Alignment;
use crate::index::{NodeIndex, OwnedIndex};
use crate::children::OwnedChildSet;

verus! {

/// A number of columns, which is never 0.
#[derive(Copy, Clone, Debug, PartialEq, Eq, Structural)]
pub struct ColumnCount {
    n: usize,
}

impl ColumnCount {
    #[verifier::type_invariant]
    spec fn nonzero(self) -> bool {
        self.n > 0
    }

    /// The number of columns.
    pub closed spec fn value(self) -> usize {
        self.n
    }

    /// A count of `n` columns; `None` when `n` is 0.
    pub fn new(n: usize) -> (r: Option<ColumnCount>)
        ensures
            r is Some <==> n > 0,
            r matches Some(c) ==> c.value() == n,
    {
        if n > 0 {
            Some(ColumnCount { n })
        } else {
            None
        }
    }

    /// The column after `col` when cells are filled left to right, and whether that starts a
    /// new row: after the last column comes column 0 of the next row.
    pub fn next_column(self, col: usize) -> (r: (usize, bool))
        requires
            col < self.value(),
        ensures
            r == if col + 1 == self.value() {
                (0usize, true)
            } else {
                ((col + 1) as usize, false)
            },
    {
        if col + 1 == self.n {
            (0, true)
        } else {
            (col + 1, false)
        }
    }

    /// The number of columns, which is never 0.
    pub fn get(self) -> (r: usize)
        ensures
            r == self.value(),
            r > 0,
    {
        proof { use_type_invariant(&self); }
        self.n
    }
}

/// The number of rows of `cols` cells that hold `len` cells: `len / cols` rounded up.
pub open spec fn rows_for(len: int, cols: int) -> int {
    len / cols + if len % cols == 0 {
        0int
    } else {
        1int
    }
}

/// Arranges children from left to right, giving every child equal space.
pub struct HEqual {
    align: (Alignment, Alignment),
    children: OwnedChildSet,
}

impl HEqual {
    /// The alignment of the container.
    pub closed spec fn align(&self) -> (Alignment, Alignment) {
        self.align
    }

    /// The children, in order.
    pub closed spec fn children(&self) -> Seq<NodeIndex> {
        self.children@
    }

    /// Creates a new `HEqual` with no children and (`Begin`, `Begin`) alignment.
    pub fn new() -> (r: HEqual)
        ensures
            r.align() == (Alignment::Begin, Alignment::Begin),
            r.children() == Seq::<NodeIndex>::empty(),
    {
        HEqual { align: (Alignment::Begin, Alignment::Begin), children: OwnedChildSet::new() }
    }

    /// Adds a child at the end, unless it is already a child.
    pub fn with_child(self, index: OwnedIndex) -> (r: HEqual)
        ensures
            r.align() == self.align(),
            self.children().contains(index.index()) ==> r.children() == self.children(),
            !self.children().contains(index.index()) ==> r.children() == self.children().push(
                index.index(),
            ),
            r.children().no_duplicates(),
    {
        let mut s = self;
        s.add_child(index);
        s
    }

    /// Sets the horizontal and vertical alignment.
    pub fn with_align(self, align: (Alignment, Alignment)) -> (r: HEqual)
        ensures
            r.align() == align,
            r.children() == self.children(),
    {
        let mut s = self;
        s.align = align;
        s
    }

    /// Adds a child at the end, unless it is already a child.
    pub fn add_child(&mut self, index: OwnedIndex)
        ensures
            final(self).align() == old(self).align(),
            old(self).children().contains(index.index()) ==> final(self).children() == old(
                self,
            ).children(),
            !old(self).children().contains(index.index()) ==> final(self).children() == old(
                self,
            ).children().push(index.index()),
            final(self).children().no_duplicates(),
    {
        self.children.insert(index);
    }

    /// Returns the number of children.
    pub fn len(&self) -> (r: usize)
        ensures
            r == self.children().len(),
    {
        self.children.len()
    }

    /// Returns `true` if there are no children.
    pub fn is_empty(&self) -> (r: bool)
        ensures
            r == (self.children().len() == 0),
    {
        self.children.is_empty()
    }

    /// Detaches the child at a position, shifting the later children down, and returns it so
    /// that it can be removed from the tree. Out of range, nothing changes and `None` is
    /// returned.
    pub fn detach_child(&mut self, index: usize) -> (r: Option<OwnedIndex>)
        ensures
            final(self).align() == old(self).align(),
            index < old(self).children().len() ==> {
                &&& r matches Some(o) && o.index() == old(self).children()[index as int]
                &&& final(self).children() == old(self).children().remove(index as int)
            },
            index >= old(self).children().len() ==> {
                &&& r is None
                &&& final(self).children() == old(self).children()
            },
    {
        self.children.detach_at(index)
    }

    /// Moves the child at `index` to `position`, shifting the children in between, and
    /// returns `true`. When either is out of range, nothing moves and `false` is returned.
    pub fn set_child_position(&mut self, index: usize, position: usize) -> (r: bool)
        ensures
            r == (index < old(self).children().len() && position < old(self).children().len()),
            r ==> final(self).children() == old(self).children().remove(index as int).insert(
                position as int,
                old(self).children()[index as int],
            ),
            !r ==> final(self).children() == old(self).children(),
            final(self).align() == old(self).align(),
    {
        self.children.move_index(index, position)
    }

    /// Returns the child at a position, if in range.
    pub fn get_child_index(&self, index: usize) -> (r: Option<NodeIndex>)
        ensures
            index < self.children().len() ==> r == Some(self.children()[index as int]),
            index >= self.children().len() ==> r is None,
    {
        self.children.get(index)
    }

    /// The alignment of the container.
    pub fn get_align(&self) -> (r: (Alignment, Alignment))
        ensures
            r == self.align(),
    {
        self.align
    }

    /// Mutable access to the horizontal and vertical alignment.
    pub fn get_align_mut(&mut self) -> (r: (&mut Alignment, &mut Alignment))
        ensures
            *r.0 == old(self).align().0,
            *r.1 == old(self).align().1,
            final(self).align() == (*final(r.0), *final(r.1)),
            final(self).children() == old(self).children(),
    {
        (&mut self.align.0, &mut self.align.1)
    }

    /// All children, in order.
    pub fn get_children(&self) -> (r: Vec<NodeIndex>)
        ensures
            r@ == self.children(),
    {
        self.children.to_vec()
    }
}

impl Default for HEqual {
    fn default() -> (r: HEqual)
        ensures
            r.align() == (Alignment::Begin, Alignment::Begin),
            r.children() == Seq::<NodeIndex>::empty(),
    {
        HEqual::new()
    }
}
/// Arranges children from top to bottom, giving every child equal space.
pub struct VEqual {
    align: (Alignment, Alignment),
    children: OwnedChildSet,
}

impl VEqual {
    /// The alignment of the container.
    pub closed spec fn align(&self) -> (Alignment, Alignment) {
        self.align
    }

    /// The children, in order.
    pub closed spec fn children(&self) -> Seq<NodeIndex> {
        self.children@
    }

    /// Creates a new `VEqual` with no children and (`Begin`, `Begin`) alignment.
    pub fn new() -> (r: VEqual)
        ensures
            r.align() == (Alignment::Begin, Alignment::Begin),
            r.children() == Seq::<NodeIndex>::empty(),
    {
        VEqual { align: (Alignment::Begin, Alignment::Begin), children: OwnedChildSet::new() }
    }

    /// Adds a child at the end, unless it is already a child.
    pub fn with_child(self, index: OwnedIndex) -> (r: VEqual)
        ensures
            r.align() == self.align(),
            self.children().contains(index.index()) ==> r.children() == self.children(),
            !self.children().contains(index.index()) ==> r.children() == self.children().push(
                index.index(),
            ),
            r.children().no_duplicates(),
    {
        let mut s = self;
        s.add_child(index);
        s
    }

    /// Sets the horizontal and vertical alignment.
    pub fn with_align(self, align: (Alignment, Alignment)) -> (r: VEqual)
        ensures
            r.align() == align,
            r.children() == self.children(),
    {
        let mut s = self;
        s.align = align;
        s
    }

    /// Adds a child at the end, unless it is already a child.
    pub fn add_child(&mut self, index: OwnedIndex)
        ensures
            final(self).align() == old(self).align(),
            old(self).children().contains(index.index()) ==> final(self).children() == old(
                self,
            ).children(),
            !old(self).children().contains(index.index()) ==> final(self).children() == old(
                self,
            ).children().push(index.index()),
            final(self).children().no_duplicates(),
    {
        self.children.insert(index);
    }

    /// Returns the number of children.
    pub fn len(&self) -> (r: usize)
        ensures
            r == self.children().len(),
    {
        self.children.len()
    }

    /// Returns `true` if there are no children.
    pub fn is_empty(&self) -> (r: bool)
        ensures
            r == (self.children().len() == 0),
    {
        self.children.is_empty()
    }

    /// Detaches the child at a position, shifting the later children down, and returns it so
    /// that it can be removed from the tree. Out of range, nothing changes and `None` is
    /// returned.
    pub fn detach_child(&mut self, index: usize) -> (r: Option<OwnedIndex>)
        ensures
            final(self).align() == old(self).align(),
            index < old(self).children().len() ==> {
                &&& r matches Some(o) && o.index() == old(self).children()[index as int]
                &&& final(self).children() == old(self).children().remove(index as int)
            },
            index >= old(self).children().len() ==> {
                &&& r is None
                &&& final(self).children() == old(self).children()
            },
    {
        self.children.detach_at(index)
    }

    /// Moves the child at `index` to `position`, shifting the children in between, and
    /// returns `true`. When either is out of range, nothing moves and `false` is returned.
    pub fn set_child_position(&mut self, index: usize, position: usize) -> (r: bool)
        ensures
            r == (index < old(self).children().len() && position < old(self).children().len()),
            r ==> final(self).children() == old(self).children().remove(index as int).insert(
                position as int,
                old(self).children()[index as int],
            ),
            !r ==> final(self).children() == old(self).children(),
            final(self).align() == old(self).align(),
    {
        self.children.move_index(index, position)
    }

    /// Returns the child at a position, if in range.
    pub fn get_child_index(&self, index: usize) -> (r: Option<NodeIndex>)
        ensures
            index < self.children().len() ==> r == Some(self.children()[index as int]),
            index >= self.children().len() ==> r is None,
    {
        self.children.get(index)
    }

    /// The alignment of the container.
    pub fn get_align(&self) -> (r: (Alignment, Alignment))
        ensures
            r == self.align(),
    {
        self.align
    }

    /// Mutable access to the horizontal and vertical alignment.
    pub fn get_align_mut(&mut self) -> (r: (&mut Alignment, &mut Alignment))
        ensures
            *r.0 == old(self).align().0,
            *r.1 == old(self).align().1,
            final(self).align() == (*final(r.0), *final(r.1)),
            final(self).children() == old(self).children(),
    {
        (&mut self.align.0, &mut self.align.1)
    }

    /// All children, in order.
    pub fn get_children(&self) -> (r: Vec<NodeIndex>)
        ensures
            r@ == self.children(),
    {
        self.children.to_vec()
    }
}

impl Default for VEqual {
    fn default() -> (r: VEqual)
        ensures
            r.align() == (Alignment::Begin, Alignment::Begin),
            r.children() == Seq::<NodeIndex>::empty(),
    {
        VEqual::new()
    }
}
/// Arranges children in a grid of equally-sized cells, from left to right and then top to bottom.
pub struct Grid {
    /// The number of columns; children fill rows of this many cells.
    pub num_cols: ColumnCount,
    align: (Alignment, Alignment),
    children: OwnedChildSet,
}

impl Grid {
    /// The alignment of the container.
    pub closed spec fn align(&self) -> (Alignment, Alignment) {
        self.align
    }

    /// The children, in order.
    pub closed spec fn children(&self) -> Seq<NodeIndex> {
        self.children@
    }

    /// The number of columns.
    pub closed spec fn cols(&self) -> ColumnCount {
        self.num_cols
    }

    /// The number of rows the children fill: the number of children divided by the number of
    /// columns, rounded up.
    pub fn num_rows(&self) -> (r: usize)
        ensures
            r == rows_for(self.children().len() as int, self.cols().value() as int),
    {
        let len = self.children.len();
        let cols = self.num_cols.get();
        let q = len / cols;
        if len % cols == 0 {
            q
        } else {
            assert(q < len) by (nonlinear_arith)
                requires
                    cols > 0,
                    q == len / cols,
                    len % cols != 0,
            {
                assert(len == q * cols + len % cols);
                assert(q <= q * cols);
            }
            q + 1
        }
    }

    /// Creates a new grid with the given number of columns, no children, and (`Full`, `Full`)
    /// alignment.
    pub fn new(num_cols: ColumnCount) -> (r: Grid)
        ensures
            r.align() == (Alignment::Full, Alignment::Full),
            r.children() == Seq::<NodeIndex>::empty(),
            r.cols() == num_cols,
    {
        Grid { num_cols, align: (Alignment::Full, Alignment::Full), children: OwnedChildSet::new() }
    }

    /// Adds a child at the end, unless it is already a child.
    pub fn with_child(self, index: OwnedIndex) -> (r: Grid)
        ensures
            r.align() == self.align(),
            r.cols() == self.cols(),
            self.children().contains(index.index()) ==> r.children() == self.children(),
            !self.children().contains(index.index()) ==> r.children() == self.children().push(
                index.index(),
            ),
            r.children().no_duplicates(),
    {
        let mut s = self;
        s.add_child(index);
        s
    }

    /// Sets the horizontal and vertical alignment.
    pub fn with_align(self, align: (Alignment, Alignment)) -> (r: Grid)
        ensures
            r.align() == align,
            r.children() == self.children(),
            r.cols() == self.cols(),
    {
        let mut s = self;
        s.align = align;
        s
    }

    /// Adds a child at the end, unless it is already a child.
    pub fn add_child(&mut self, index: OwnedIndex)
        ensures
            final(self).align() == old(self).align(),
            final(self).cols() == old(self).cols(),
            old(self).children().contains(index.index()) ==> final(self).children() == old(
                self,
            ).children(),
            !old(self).children().contains(index.index()) ==> final(self).children() == old(
                self,
            ).children().push(index.index()),
            final(self).children().no_duplicates(),
    {
        self.children.insert(index);
    }

    /// Returns the number of children.
    pub fn len(&self) -> (r: usize)
        ensures
            r == self.children().len(),
    {
        self.children.len()
    }

    /// Returns `true` if there are no children.
    pub fn is_empty(&self) -> (r: bool)
        ensures
            r == (self.children().len() == 0),
    {
        self.children.is_empty()
    }

    /// Detaches the child at a position, shifting the later children down, and returns it so
    /// that it can be removed from the tree. Out of range, nothing changes and `None` is
    /// returned.
    pub fn detach_child(&mut self, index: usize) -> (r: Option<OwnedIndex>)
        ensures
            final(self).align() == old(self).align(),
            final(self).cols() == old(self).cols(),
            index < old(self).children().len() ==> {
                &&& r matches Some(o) && o.index() == old(self).children()[index as int]
                &&& final(self).children() == old(self).children().remove(index as int)
            },
            index >= old(self).children().len() ==> {
                &&& r is None
                &&& final(self).children() == old(self).children()
            },
    {
        self.children.detach_at(index)
    }

    /// Moves the child at `index` to `position`, shifting the children in between, and
    /// returns `true`. When either is out of range, nothing moves and `false` is returned.
    pub fn set_child_position(&mut self, index: usize, position: usize) -> (r: bool)
        ensures
            r == (index < old(self).children().len() && position < old(self).children().len()),
            r ==> final(self).children() == old(self).children().remove(index as int).insert(
                position as int,
                old(self).children()[index as int],
            ),
            !r ==> final(self).children() == old(self).children(),
            final(self).align() == old(self).align(),
            final(self).cols() == old(self).cols(),
    {
        self.children.move_index(index, position)
    }

    /// Returns the child at a position, if in range.
    pub fn get_child_index(&self, index: usize) -> (r: Option<NodeIndex>)
        ensures
            index < self.children().len() ==> r == Some(self.children()[index as int]),
            index >= self.children().len() ==> r is None,
    {
        self.children.get(index)
    }

    /// The alignment of the container.
    pub fn get_align(&self) -> (r: (Alignment, Alignment))
        ensures
            r == self.align(),
    {
        self.align
    }

    /// Mutable access to the horizontal and vertical alignment.
    pub fn get_align_mut(&mut self) -> (r: (&mut Alignment, &mut Alignment))
        ensures
            *r.0 == old(self).align().0,
            *r.1 == old(self).align().1,
            final(self).align() == (*final(r.0), *final(r.1)),
            final(self).children() == old(self).children(),
            final(self).cols() == old(self).cols(),
    {
        (&mut self.align.0, &mut self.align.1)
    }

    /// All children, in order.
    pub fn get_children(&self) -> (r: Vec<NodeIndex>)
        ensures
            r@ == self.children(),
    {
        self.children.to_vec()
    }
}

/// The rows a grid fills hold all its children, and one row fewer would not.
pub proof fn lemma_rows_hold_children(len: int, cols: int)
    requires
        len >= 0,
        cols > 0,
    ensures
        rows_for(len, cols) * cols >= len,
        rows_for(len, cols) > 0 ==> (rows_for(len, cols) - 1) * cols < len,
{
    let q = len / cols;
    let r = len % cols;
    assert(len == q * cols + r && 0 <= r < cols) by (nonlinear_arith)
        requires
            cols > 0,
            q == len / cols,
            r == len % cols,
    ;
    if r == 0 {
        assert(rows_for(len, cols) == q);
        assert(q > 0 ==> (q - 1) * cols < len) by (nonlinear_arith)
            requires
                len == q * cols,
                cols > 0,
        ;
    } else {
        assert(rows_for(len, cols) == q + 1);
        assert((q + 1) * cols >= len && q * cols < len) by (nonlinear_arith)
            requires
                len == q * cols + r,
                0 < r < cols,
        ;
    }
}

} // verus!

//! A renderer-agnostic UI layout system: the verified core.
//!
//! This crate holds the parts of the layout system that decide things over plain values:
//! node indices, the ordered child lists of containers, the child slots of fixed-arity
//! containers, selection and visibility, and the traversal orders used to lay out, walk, test
//! and remove parts of a tree.
#![allow(unused_imports)]

use vstd::prelude::*;

pub mod children;
pub mod grid;
pub mod index;
pub mod overlap;
pub mod slots;
pub mod traverse;
pub mod visibility;

verus! {

/// An alignment of a node within its parent.
///
/// `Begin`, `Center`, and `End` cause a node to shrink to its minimum size in that position.
/// `Full` causes a node to occupy all space it is given. The default is `Full`.
#[derive(Copy, Clone, Debug, PartialEq, Eq, Structural, Hash)]
pub enum Alignment {
    /// Shrink to the left or top.
    Begin,
    /// Shrink to the center.
    Center,
    /// Shrink to the right or bottom.
    End,
    /// Grow to the entire available space.
    Full,
}

impl Default for Alignment {
    fn default() -> (r: Self)
        ensures
            r == Alignment::Full,
    {
        Alignment::Full
    }
}

/// Shrinking direction of a constrained rectangle.
///
/// Like [`Alignment`] without `Full`. The default is `Center`.
#[derive(Copy, Clone, Debug, PartialEq, Eq, Structural)]
pub enum Anchor {
    /// Top left
    Begin,
    /// Center
    Center,
    /// Bottom right
    End,
}

impl Default for Anchor {
    fn default() -> (r: Self)
        ensures
            r == Anchor::Center,
    {
        Anchor::Center
    }
}

/// Settings for a layout pass.
pub struct LayoutConfig {
    /// If `true`, applies the root node's alignment instead of ignoring it.
    pub align_root: bool,
    /// If `true`, ensures that the minimum size of the root node is met, even if that would exceed
    /// the provided rect.
    pub force_good: bool,
}

impl Default for LayoutConfig {
    fn default() -> (r: Self)
        ensures
            !r.align_root,
            !r.force_good,
    {
        LayoutConfig { align_root: false, force_good: false }
    }
}

} // verus!

# layuit

A renderer-agnostic UI layout system, split in two:

- `src/` is the verified core, checked with Verus. It holds node indices (`index`), the ordered
  child lists of containers (`children`, kept in an `indexmap::IndexSet`), the fixed child slots
  of one-, two- and three-child containers (`slots`), the containers that carry no geometry of
  their own (`grid`, `overlap`, `visibility`), and the state machines that give the orders in
  which a tree is laid out, walked, point-tested and pruned (`traverse`).
- `app/` is ordinary Rust around it: rectangles and every other computation in `f32`, the
  `UiNode` trait whose implementations compute sizes and rectangles, the arena-backed `UiTree`
  that drives the verified traversals, the containers with `f32` settings, and the `ui!` macro.

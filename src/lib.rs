//! Constraint-based box layout over a tree of nodes held in an arena.
//!
//! Every node carries a layout strategy (a horizontal row, a node that fills
//! the space it is offered, or an inset). One pass walks the tree from each
//! root: a node receives limits from its parent, settles its own size within
//! them, and hands adjusted limits to its children, whose rectangles it writes.
//!
//! Lengths are integers in the unit of the viewport; positions are centres,
//! relative to the centre of the space the parent allotted. A row divides
//! its width in whole units, each boundary rounded toward zero, so that the
//! parts add up to the whole; children whose weights add up to nothing get
//! nothing. Insets larger than the space offered give negative ranges, which
//! are passed on as they are (held to the range of `i32`). A child handle
//! whose slot has been emptied is passed over.

pub mod geometry;
pub mod style;
pub mod tree;
pub mod layout;
pub mod laws;

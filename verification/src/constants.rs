//! Fixed pixel dimensions of the swimlane grid and of the nodes placed in it.
//!
//! A node is inset from its cell by a margin of one tenth of the cell's
//! extent on each axis, so `NODE_WIDTH + 2 * NODE_MARGIN_X` spans exactly one
//! column and `NODE_HEIGHT + 2 * NODE_MARGIN_Y` spans exactly one row.

use vstd::prelude::*;

verus! {

/// Width in pixels of one swimlane column.
pub const SWIMLANE_COL_WIDTH: isize = 240;

/// Height in pixels of one swimlane row.
pub const SWIMLANE_HEIGHT: isize = 200;

/// Horizontal inset of a node's box from the left and right edges of its
/// cell: one tenth of `SWIMLANE_COL_WIDTH`.
pub const NODE_MARGIN_X: isize = 24;

/// Vertical inset of a node's box from the top and bottom edges of its cell:
/// one tenth of `SWIMLANE_HEIGHT`.
pub const NODE_MARGIN_Y: isize = 20;

/// Width of a node's rendered box.
pub const NODE_WIDTH: isize = SWIMLANE_COL_WIDTH - (NODE_MARGIN_X * 2);

/// Height of a node's rendered box.
pub const NODE_HEIGHT: isize = SWIMLANE_HEIGHT - (NODE_MARGIN_Y * 2);

/// Inset of a node's text block from the node's box.
pub const NODE_TEXT_MARGIN: isize = 5;

/// Horizontal offset of node text within its box.
pub const NODE_TEXT_X: isize = 10;

/// Vertical offset of node text within its box.
pub const NODE_TEXT_Y: isize = 20;

/// The height of the fixed page header which can cover the canvas.
pub const HEADER_HEIGHT: isize = 112;

} // verus!

//! The event vocabulary: the closed set of domain events that describe every
//! legal mutation of the workflow model.

use vstd::prelude::*;
use crate::types::{CursorId, NodeId, NodeType};

verus! {

/// A domain event, applied through `WorkflowSignals::evolve`. The ids it
/// carries are assumed by the producing layer to come from current view
/// state; `evolve` still checks them and reports a typed error when one does
/// not resolve.
#[derive(Debug, Clone)]
pub enum Event {
    /// A new cursor enters the model, with an empty selection.
    CursorCreated { id: CursorId, label: String, row: usize, col: usize },
    /// A new node is placed on the grid.
    NodeCreated { id: NodeId, label: String, node_type: NodeType, row: usize, col: usize },
    /// The cursor drops every projection of the named node.
    NodeDeselected { cursor_id: CursorId, node_id: NodeId },
    /// The cursor adds a fresh projection of the named node.
    NodeSelected { cursor_id: CursorId, node_id: NodeId },
}

} // verus!

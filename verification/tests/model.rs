use workflow_canvas::events::Event;
use workflow_canvas::geometry::node_transform;
use workflow_canvas::signals::{Cursor, EvolveError, Node, Pos, SelectedNode, WorkflowSignals};
use workflow_canvas::types::{svg_style, CursorId, NodeId, NodeType};

fn store_with_node(id: NodeId, row: usize, col: usize) -> WorkflowSignals {
    let mut s = WorkflowSignals::new();
    let r = s.evolve(Event::NodeCreated {
        id,
        label: "a node".to_string(),
        node_type: NodeType::Event,
        row,
        col,
    });
    assert_eq!(r, Ok(()));
    s
}

fn add_cursor(s: &mut WorkflowSignals, id: CursorId) {
    let r = s.evolve(Event::CursorCreated { id, label: "a cursor".to_string(), row: 0, col: 0 });
    assert_eq!(r, Ok(()));
}

#[test]
fn new_store_is_empty() {
    let s = WorkflowSignals::new();
    assert_eq!(s.nodes().len(), 0);
    assert_eq!(s.cursors().len(), 0);
}

#[test]
fn created_node_is_listed_with_its_transform() {
    let n1 = NodeId::new();
    let s = store_with_node(n1, 0, 1);
    assert_eq!(s.nodes().len(), 1);
    let node = &s.nodes()[0];
    assert_eq!(node.id, n1);
    assert_eq!(node.label, "a node");
    assert_eq!(node.node_type, NodeType::Event);
    assert_eq!(node.row, 0);
    assert_eq!(node.col, 1);
    assert_eq!(node.transform(), node_transform(0, 1));
    assert_eq!(node.transform(), "translate(264,20)");
}

#[test]
fn created_cursor_starts_with_empty_selection_at_origin_overlay() {
    let mut s = WorkflowSignals::new();
    let c1 = CursorId::new();
    add_cursor(&mut s, c1);
    assert_eq!(s.cursors().len(), 1);
    let cursor = &s.cursors()[0];
    assert_eq!(cursor.id, c1);
    assert_eq!(cursor.label, "a cursor");
    assert!(cursor.selected_nodes.is_empty());
    assert_eq!(cursor.selection_transform, Pos { x: 0, y: 0 });
    assert_eq!(cursor.transform(), "translate(0,0)");
    assert_eq!(cursor.top(), 0);
    assert_eq!(cursor.left(), 0);
}

#[test]
fn selecting_projects_the_node_with_its_current_transform() {
    let n1 = NodeId::new();
    let c1 = CursorId::new();
    let mut s = store_with_node(n1, 0, 1);
    add_cursor(&mut s, c1);
    let r = s.evolve(Event::NodeSelected { cursor_id: c1, node_id: n1 });
    assert_eq!(r, Ok(()));
    let cursor = s.cursor_by_id(&c1).expect("cursor should exist");
    assert_eq!(cursor.selected_nodes.len(), 1);
    let sn = &cursor.selected_nodes[0];
    assert_eq!(sn.source_id, n1);
    // The projection keys the overlay under its own identity.
    assert_ne!(sn.id, n1);
    // Its transform is the source node's current one, read through the store.
    let source = s.node_by_id(&sn.source_id).expect("source node should exist");
    assert_eq!(source.transform(), node_transform(0, 1));
}

#[test]
fn deselecting_empties_the_selection() {
    let n1 = NodeId::new();
    let c1 = CursorId::new();
    let mut s = store_with_node(n1, 0, 1);
    add_cursor(&mut s, c1);
    assert_eq!(s.evolve(Event::NodeSelected { cursor_id: c1, node_id: n1 }), Ok(()));
    assert_eq!(s.evolve(Event::NodeDeselected { cursor_id: c1, node_id: n1 }), Ok(()));
    assert_eq!(s.cursor_by_id(&c1).unwrap().selected_nodes.len(), 0);
}

#[test]
fn second_deselect_in_a_row_is_a_no_op() {
    let n1 = NodeId::new();
    let c1 = CursorId::new();
    let mut s = store_with_node(n1, 0, 1);
    add_cursor(&mut s, c1);
    assert_eq!(s.evolve(Event::NodeSelected { cursor_id: c1, node_id: n1 }), Ok(()));
    assert_eq!(s.evolve(Event::NodeDeselected { cursor_id: c1, node_id: n1 }), Ok(()));
    let len_after_first = s.cursor_by_id(&c1).unwrap().selected_nodes.len();
    // The list already lacks matching entries: deselecting again still
    // succeeds and changes nothing.
    assert_eq!(s.evolve(Event::NodeDeselected { cursor_id: c1, node_id: n1 }), Ok(()));
    assert_eq!(s.cursor_by_id(&c1).unwrap().selected_nodes.len(), len_after_first);
    assert_eq!(len_after_first, 0);
    assert_eq!(s.nodes().len(), 1);
    assert_eq!(s.cursors().len(), 1);
}

#[test]
fn selecting_with_unknown_cursor_surfaces_unknown_cursor() {
    let n1 = NodeId::new();
    let mut s = store_with_node(n1, 0, 1);
    let stranger = CursorId::new();
    let r = s.evolve(Event::NodeSelected { cursor_id: stranger, node_id: n1 });
    assert_eq!(r, Err(EvolveError::UnknownCursor));
    // State is not corrupted: the registries are as before.
    assert_eq!(s.nodes().len(), 1);
    assert_eq!(s.cursors().len(), 0);
}

#[test]
fn selecting_unknown_node_surfaces_unknown_node() {
    let mut s = WorkflowSignals::new();
    let c1 = CursorId::new();
    add_cursor(&mut s, c1);
    let stranger = NodeId::new();
    let r = s.evolve(Event::NodeSelected { cursor_id: c1, node_id: stranger });
    assert_eq!(r, Err(EvolveError::UnknownNode));
    assert_eq!(s.cursor_by_id(&c1).unwrap().selected_nodes.len(), 0);
}

#[test]
fn deselecting_with_unknown_cursor_surfaces_unknown_cursor() {
    let n1 = NodeId::new();
    let mut s = store_with_node(n1, 0, 1);
    let stranger = CursorId::new();
    let r = s.evolve(Event::NodeDeselected { cursor_id: stranger, node_id: n1 });
    assert_eq!(r, Err(EvolveError::UnknownCursor));
    assert_eq!(s.nodes().len(), 1);
}

#[test]
fn creating_a_node_with_a_live_id_surfaces_duplicate_id() {
    let n1 = NodeId::new();
    let mut s = store_with_node(n1, 0, 1);
    let r = s.evolve(Event::NodeCreated {
        id: n1,
        label: "again".to_string(),
        node_type: NodeType::Role,
        row: 2,
        col: 2,
    });
    assert_eq!(r, Err(EvolveError::DuplicateId));
    assert_eq!(s.nodes().len(), 1);
    assert_eq!(s.nodes()[0].label, "a node");
}

#[test]
fn creating_a_cursor_with_a_live_id_surfaces_duplicate_id() {
    let mut s = WorkflowSignals::new();
    let c1 = CursorId::new();
    add_cursor(&mut s, c1);
    let r = s.evolve(Event::CursorCreated {
        id: c1,
        label: "again".to_string(),
        row: 1,
        col: 1,
    });
    assert_eq!(r, Err(EvolveError::DuplicateId));
    assert_eq!(s.cursors().len(), 1);
}

#[test]
fn double_select_then_one_deselect_clears_both_projections() {
    // One deselect removes every projection of the node, so selecting the
    // same node twice and deselecting once leaves a count of zero.
    let n1 = NodeId::new();
    let c1 = CursorId::new();
    let mut s = store_with_node(n1, 0, 1);
    add_cursor(&mut s, c1);
    assert_eq!(s.evolve(Event::NodeSelected { cursor_id: c1, node_id: n1 }), Ok(()));
    assert_eq!(s.evolve(Event::NodeSelected { cursor_id: c1, node_id: n1 }), Ok(()));
    assert_eq!(s.cursor_by_id(&c1).unwrap().selected_nodes.len(), 2);
    assert_eq!(s.evolve(Event::NodeDeselected { cursor_id: c1, node_id: n1 }), Ok(()));
    assert_eq!(s.cursor_by_id(&c1).unwrap().selected_nodes.len(), 0);
}

#[test]
fn deselect_touches_only_projections_of_the_named_node() {
    let n1 = NodeId::new();
    let n2 = NodeId::new();
    let c1 = CursorId::new();
    let mut s = store_with_node(n1, 0, 1);
    assert_eq!(
        s.evolve(Event::NodeCreated {
            id: n2,
            label: "another".to_string(),
            node_type: NodeType::Command,
            row: 1,
            col: 2,
        }),
        Ok(()),
    );
    add_cursor(&mut s, c1);
    assert_eq!(s.evolve(Event::NodeSelected { cursor_id: c1, node_id: n1 }), Ok(()));
    assert_eq!(s.evolve(Event::NodeSelected { cursor_id: c1, node_id: n2 }), Ok(()));
    assert_eq!(s.evolve(Event::NodeDeselected { cursor_id: c1, node_id: n1 }), Ok(()));
    let cursor = s.cursor_by_id(&c1).unwrap();
    assert_eq!(cursor.selected_nodes.len(), 1);
    assert_eq!(cursor.selected_nodes[0].source_id, n2);
}

#[test]
fn deselect_only_changes_the_named_cursor() {
    let n1 = NodeId::new();
    let c1 = CursorId::new();
    let c2 = CursorId::new();
    let mut s = store_with_node(n1, 0, 1);
    add_cursor(&mut s, c1);
    let r = s.evolve(Event::CursorCreated { id: c2, label: "other".to_string(), row: 1, col: 1 });
    assert_eq!(r, Ok(()));
    assert_eq!(s.evolve(Event::NodeSelected { cursor_id: c1, node_id: n1 }), Ok(()));
    assert_eq!(s.evolve(Event::NodeSelected { cursor_id: c2, node_id: n1 }), Ok(()));
    assert_eq!(s.evolve(Event::NodeDeselected { cursor_id: c1, node_id: n1 }), Ok(()));
    assert_eq!(s.cursor_by_id(&c1).unwrap().selected_nodes.len(), 0);
    assert_eq!(s.cursor_by_id(&c2).unwrap().selected_nodes.len(), 1);
}

#[test]
fn moving_a_node_moves_its_derived_transform() {
    let n1 = NodeId::new();
    let mut node = Node::new(n1, "mover".to_string(), NodeType::View, 0, 0);
    assert_eq!(node.transform(), "translate(24,20)");
    node.set_row_col(2, 1);
    assert_eq!(node.row, 2);
    assert_eq!(node.col, 1);
    assert_eq!(node.transform(), "translate(264,420)");
}

#[test]
fn moving_a_cursor_moves_its_derived_cell_values() {
    let c1 = CursorId::new();
    let mut cursor = Cursor::new(c1, "mover".to_string(), 0, 0);
    assert_eq!(cursor.transform(), "translate(0,0)");
    cursor.set_row_col(3, 2);
    assert_eq!(cursor.transform(), "translate(480,600)");
    assert_eq!(cursor.top(), 600);
    assert_eq!(cursor.left(), 480);
    assert!(cursor.selected_nodes.is_empty());
}

#[test]
fn projection_mirrors_node_after_it_moves() {
    let n1 = NodeId::new();
    let c1 = CursorId::new();
    let mut s = store_with_node(n1, 0, 1);
    add_cursor(&mut s, c1);
    assert_eq!(s.evolve(Event::NodeSelected { cursor_id: c1, node_id: n1 }), Ok(()));
    let sn: SelectedNode = s.cursor_by_id(&c1).unwrap().selected_nodes[0];
    // Reading the projection's transform through the store always reflects
    // the node's current position.
    assert_eq!(s.node_by_id(&sn.source_id).unwrap().transform(), "translate(264,20)");
}

#[test]
fn fresh_ids_are_distinct_values() {
    let a = NodeId::new();
    let b = NodeId::new();
    assert_eq!(a, a.clone());
    assert_ne!(a, b);
    let c = CursorId::new();
    let d = CursorId::new();
    assert_ne!(c, d);
    // The UUID reading is stable per id and distinct across ids.
    assert_eq!(a.uuid(), a.uuid());
    assert_ne!(a.uuid(), b.uuid());
    assert_eq!(c.uuid(), c.uuid());
}

#[test]
fn node_types_name_and_style_themselves() {
    assert_eq!(NodeType::Role.name(), "Role");
    assert_eq!(NodeType::Command.name(), "Command");
    assert_eq!(NodeType::Event.name(), "Event");
    assert_eq!(NodeType::View.name(), "View");
    assert_eq!(svg_style(&NodeType::Role), "fill-white stroke-gray-300");
    assert_eq!(svg_style(&NodeType::Command), "fill-blue-200");
    assert_eq!(svg_style(&NodeType::Event), "fill-yellow-200");
    assert_eq!(svg_style(&NodeType::View), "fill-green-200");
}

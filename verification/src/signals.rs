//! The entity model and the domain store.
//!
//! `Node` and `Cursor` carry their logical grid position; every on-screen
//! value (transform, top, left) is derived from it on each read, so a derived
//! value always reflects the current position. `WorkflowSignals` owns the two
//! registries and is their only writer: every mutation enters through
//! [`WorkflowSignals::evolve`], which enforces id uniqueness and referential
//! integrity and reports a typed error instead of corrupting state.

use vstd::prelude::*;
use crate::events::Event;
use crate::geometry::{
    valid_row, valid_col, spec_cell_left, spec_cell_top, spec_cell_transform, spec_node_transform,
    spec_translate, cell_left, cell_top, cell_transform, node_transform, translate_string,
};
use crate::types::{CursorId, NodeId, NodeType};

verus! {

/// A 2D pixel offset.
#[derive(Debug, Clone, Copy, PartialEq, Eq, Structural)]
pub struct Pos {
    pub x: isize,
    pub y: isize,
}

impl Pos {
    /// The transform string for this offset.
    pub fn to_transform(&self) -> (r: String)
        ensures
            r@ == spec_translate(self.x as int, self.y as int),
    {
        translate_string(self.x, self.y)
    }
}

/// Endpoints of a connector drawn between nodes: its position and the control
/// point that bends it.
#[derive(Debug, Clone, Copy, PartialEq, Eq, Structural)]
pub struct ConnectorPoints {
    pub position: Pos,
    pub ctrl_point: Pos,
}

/// A workflow node placed on the grid.
#[derive(Debug, Clone)]
pub struct Node {
    pub id: NodeId,
    pub label: String,
    /// Immutable once the node is created; used only for presentation.
    pub node_type: NodeType,
    pub row: usize,
    pub col: usize,
}

impl Node {
    /// A node at the given cell.
    pub fn new(id: NodeId, label: String, node_type: NodeType, row: usize, col: usize) -> (r:
        Node)
        ensures
            r.id == id,
            r.label == label,
            r.node_type == node_type,
            r.row == row,
            r.col == col,
    {
        Node { id, label, node_type, row, col }
    }

    /// Move the node to another cell; every derived value reflects the new
    /// position on its next read.
    pub fn set_row_col(&mut self, row: usize, col: usize)
        ensures
            final(self).row == row,
            final(self).col == col,
            final(self).id == old(self).id,
            final(self).label == old(self).label,
            final(self).node_type == old(self).node_type,
    {
        self.row = row;
        self.col = col;
    }

    /// The transform that places this node's inset box, derived from the
    /// current row and column.
    pub fn transform(&self) -> (r: String)
        requires
            valid_row(self.row),
            valid_col(self.col),
        ensures
            r@ == spec_node_transform(self.row, self.col),
    {
        node_transform(self.row, self.col)
    }
}

/// A per-cursor projection of a node. It gives the selection overlay its own
/// stable identity, distinct from the source node's, so a cursor's overlay
/// and the node registry can key the same logical node independently. Its
/// transform is never stored: it is the source node's own, read through the
/// store, so it always mirrors the node's current position.
#[derive(Debug, Clone, Copy, PartialEq, Eq, Structural)]
pub struct SelectedNode {
    /// Fresh identity of the projection itself.
    pub id: NodeId,
    /// The node this projection mirrors.
    pub source_id: NodeId,
}

impl SelectedNode {
    /// Project `node` for a selection overlay, under a fresh identity.
    pub fn from_node(node: &Node) -> (r: SelectedNode)
        ensures
            r.source_id == node.id,
    {
        SelectedNode { id: NodeId::new(), source_id: node.id }
    }
}

/// A selection actor with its own grid position and an ordered list of
/// selected-node projections. A cursor occupies a whole swimlane cell, where
/// a node occupies only the inset box.
#[derive(Debug, Clone)]
pub struct Cursor {
    pub id: CursorId,
    pub label: String,
    pub row: usize,
    pub col: usize,
    /// The cursor's selection, in selection order.
    pub selected_nodes: Vec<SelectedNode>,
    /// Offset of the selection overlay group. Fixed at the origin for now;
    /// reserved for future independent positioning.
    pub selection_transform: Pos,
}

impl Cursor {
    /// A cursor at the given cell, with an empty selection and its overlay at
    /// the origin.
    pub fn new(id: CursorId, label: String, row: usize, col: usize) -> (r: Cursor)
        ensures
            r.id == id,
            r.label == label,
            r.row == row,
            r.col == col,
            r.selected_nodes@ =~= Seq::<SelectedNode>::empty(),
            r.selection_transform == (Pos { x: 0, y: 0 }),
    {
        Cursor {
            id,
            label,
            row,
            col,
            selected_nodes: Vec::new(),
            selection_transform: Pos { x: 0, y: 0 },
        }
    }

    /// Move the cursor to another cell; every derived value reflects the new
    /// position on its next read.
    pub fn set_row_col(&mut self, row: usize, col: usize)
        ensures
            final(self).row == row,
            final(self).col == col,
            final(self).id == old(self).id,
            final(self).label == old(self).label,
            final(self).selected_nodes == old(self).selected_nodes,
            final(self).selection_transform == old(self).selection_transform,
    {
        self.row = row;
        self.col = col;
    }

    /// The transform that places the cursor's whole cell, derived from the
    /// current row and column.
    pub fn transform(&self) -> (r: String)
        requires
            valid_row(self.row),
            valid_col(self.col),
        ensures
            r@ == spec_cell_transform(self.row, self.col),
    {
        cell_transform(self.row, self.col)
    }

    /// Top edge of the cursor's cell.
    pub fn top(&self) -> (r: isize)
        requires
            valid_row(self.row),
        ensures
            r as int == spec_cell_top(self.row),
    {
        cell_top(self.row)
    }

    /// Left edge of the cursor's cell.
    pub fn left(&self) -> (r: isize)
        requires
            valid_col(self.col),
        ensures
            r as int == spec_cell_left(self.col),
    {
        cell_left(self.col)
    }
}

/// Why `evolve` refused an event. The store is left unchanged in every case.
#[derive(Debug, Clone, Copy, PartialEq, Eq, Structural)]
pub enum EvolveError {
    /// The event names a cursor id absent from the cursor registry.
    UnknownCursor,
    /// The event names a node id absent from the node registry.
    UnknownNode,
    /// A creation event reuses an id already live in its registry.
    DuplicateId,
}

/// Keep a projection when it does not project the named node.
pub open spec fn not_of_source(node_id: NodeId) -> spec_fn(SelectedNode) -> bool {
    |sn: SelectedNode| sn.source_id != node_id
}

/// The two cursors agree on everything but (possibly) their selection lists.
pub open spec fn same_cursor_except_selection(pre: Cursor, post: Cursor) -> bool {
    &&& post.id == pre.id
    &&& post.label == pre.label
    &&& post.row == pre.row
    &&& post.col == pre.col
    &&& post.selection_transform == pre.selection_transform
}

/// The two cursors agree on everything observable, selection list included.
pub open spec fn cursor_equiv(a: Cursor, b: Cursor) -> bool {
    same_cursor_except_selection(a, b) && a.selected_nodes@ =~= b.selected_nodes@
}

/// The two registries agree on everything observable: the same cursors in
/// the same order, each with the same fields and the same selection list.
pub open spec fn cursors_equiv(a: Seq<Cursor>, b: Seq<Cursor>) -> bool {
    a.len() == b.len() && forall|i: int|
        0 <= i < a.len() ==> cursor_equiv(#[trigger] a[i], #[trigger] b[i])
}

/// How one cursor changes under a deselect: untouched unless it is the named
/// cursor, whose selection list keeps exactly the projections of other nodes,
/// in order.
pub open spec fn cursor_deselected(
    pre: Cursor,
    post: Cursor,
    cursor_id: CursorId,
    node_id: NodeId,
) -> bool {
    if pre.id == cursor_id {
        same_cursor_except_selection(pre, post) && post.selected_nodes@ =~= pre.selected_nodes@
            .filter(not_of_source(node_id))
    } else {
        post == pre
    }
}

/// `post` is `pre` with every projection of `node_id` removed from the cursor
/// named `cursor_id`, every other cursor unchanged.
pub open spec fn deselect_step(
    pre: Seq<Cursor>,
    post: Seq<Cursor>,
    cursor_id: CursorId,
    node_id: NodeId,
) -> bool {
    post.len() == pre.len() && forall|i: int|
        0 <= i < pre.len() ==> cursor_deselected(#[trigger] pre[i], #[trigger] post[i], cursor_id, node_id)
}

/// How one cursor changes under a select: untouched unless it is the named
/// cursor, which appends one fresh projection of the named node.
pub open spec fn cursor_selected(
    pre: Cursor,
    post: Cursor,
    cursor_id: CursorId,
    node_id: NodeId,
) -> bool {
    if pre.id == cursor_id {
        &&& same_cursor_except_selection(pre, post)
        &&& post.selected_nodes@.len() == pre.selected_nodes@.len() + 1
        &&& post.selected_nodes@.drop_last() =~= pre.selected_nodes@
        &&& post.selected_nodes@.last().source_id == node_id
    } else {
        post == pre
    }
}

/// `post` is `pre` with one fresh projection of `node_id` appended to the
/// selection of the cursor named `cursor_id`, every other cursor unchanged.
pub open spec fn select_step(
    pre: Seq<Cursor>,
    post: Seq<Cursor>,
    cursor_id: CursorId,
    node_id: NodeId,
) -> bool {
    post.len() == pre.len() && forall|i: int|
        0 <= i < pre.len() ==> cursor_selected(#[trigger] pre[i], #[trigger] post[i], cursor_id, node_id)
}

/// The cursor a `CursorCreated { id, label, row, col }` event appends: empty
/// selection, overlay at the origin.
pub open spec fn cursor_created(
    c: Cursor,
    id: CursorId,
    label: Seq<char>,
    row: usize,
    col: usize,
) -> bool {
    &&& c.id == id
    &&& c.label@ == label
    &&& c.row == row
    &&& c.col == col
    &&& c.selected_nodes@ =~= Seq::<SelectedNode>::empty()
    &&& c.selection_transform == (Pos { x: 0, y: 0 })
}

/// The node a `NodeCreated { id, label, node_type, row, col }` event appends.
pub open spec fn node_created(
    n: Node,
    id: NodeId,
    label: Seq<char>,
    node_type: NodeType,
    row: usize,
    col: usize,
) -> bool {
    n.id == id && n.label@ == label && n.node_type == node_type && n.row == row && n.col == col
}

/// The domain store: exclusive owner and sole writer of the node and cursor
/// registries. All other components hold read views and derived values; a
/// host keeps one long-lived store and passes it by reference.
pub struct WorkflowSignals {
    cursors: Vec<Cursor>,
    nodes: Vec<Node>,
}

impl WorkflowSignals {
    /// The node registry, in creation order.
    pub closed spec fn nodes_seq(self) -> Seq<Node> {
        self.nodes@
    }

    /// The cursor registry, in creation order.
    pub closed spec fn cursors_seq(self) -> Seq<Cursor> {
        self.cursors@
    }

    /// Some node in the registry carries this id.
    pub open spec fn has_node(self, id: NodeId) -> bool {
        exists|i: int|
            0 <= i < self.nodes_seq().len() && (#[trigger] self.nodes_seq()[i]).id == id
    }

    /// Some cursor in the registry carries this id.
    pub open spec fn has_cursor(self, id: CursorId) -> bool {
        exists|i: int|
            0 <= i < self.cursors_seq().len() && (#[trigger] self.cursors_seq()[i]).id == id
    }

    /// No two cursors share an id.
    pub open spec fn cursors_unique(self) -> bool {
        forall|i: int, j: int|
            0 <= i < j < self.cursors_seq().len() ==> (#[trigger] self.cursors_seq()[i]).id != (
            #[trigger] self.cursors_seq()[j]).id
    }

    /// No two nodes share an id.
    pub open spec fn nodes_unique(self) -> bool {
        forall|i: int, j: int|
            0 <= i < j < self.nodes_seq().len() ==> (#[trigger] self.nodes_seq()[i]).id != (
            #[trigger] self.nodes_seq()[j]).id
    }

    /// Every selected-node projection of every cursor references a node that
    /// is present in the node registry.
    pub open spec fn selections_valid(self) -> bool {
        forall|i: int, k: int|
            0 <= i < self.cursors_seq().len() && 0 <= k < self.cursors_seq()[i].selected_nodes@.len()
                ==> self.has_node(
                (#[trigger] self.cursors_seq()[i].selected_nodes@[k]).source_id,
            )
    }

    /// Well-formed store: unique ids within each registry and referentially
    /// intact selections.
    pub open spec fn wf(self) -> bool {
        self.cursors_unique() && self.nodes_unique() && self.selections_valid()
    }

    /// An empty store.
    pub fn new() -> (r: WorkflowSignals)
        ensures
            r.wf(),
            r.nodes_seq() =~= Seq::<Node>::empty(),
            r.cursors_seq() =~= Seq::<Cursor>::empty(),
    {
        WorkflowSignals { cursors: Vec::new(), nodes: Vec::new() }
    }

    /// Read view of the node registry.
    pub fn nodes(&self) -> (r: &Vec<Node>)
        ensures
            r@ == self.nodes_seq(),
    {
        &self.nodes
    }

    /// Read view of the cursor registry.
    pub fn cursors(&self) -> (r: &Vec<Cursor>)
        ensures
            r@ == self.cursors_seq(),
    {
        &self.cursors
    }

    /// Index of the first (in a well-formed store: the only) cursor with this
    /// id.
    fn find_cursor(&self, id: &CursorId) -> (r: Option<usize>)
        ensures
            match r {
                Some(i) => i < self.cursors_seq().len() && self.cursors_seq()[i as int].id == *id,
                None => !self.has_cursor(*id),
            },
    {
        let mut i: usize = 0;
        while i < self.cursors.len()
            invariant
                i <= self.cursors_seq().len(),
                forall|j: int| 0 <= j < i ==> (#[trigger] self.cursors_seq()[j]).id != *id,
            decreases self.cursors_seq().len() - i,
        {
            if self.cursors[i].id == *id {
                return Some(i);
            }
            i = i + 1;
        }
        None
    }

    /// Index of the first (in a well-formed store: the only) node with this
    /// id.
    fn find_node(&self, id: &NodeId) -> (r: Option<usize>)
        ensures
            match r {
                Some(i) => i < self.nodes_seq().len() && self.nodes_seq()[i as int].id == *id,
                None => !self.has_node(*id),
            },
    {
        let mut i: usize = 0;
        while i < self.nodes.len()
            invariant
                i <= self.nodes_seq().len(),
                forall|j: int| 0 <= j < i ==> (#[trigger] self.nodes_seq()[j]).id != *id,
            decreases self.nodes_seq().len() - i,
        {
            if self.nodes[i].id == *id {
                return Some(i);
            }
            i = i + 1;
        }
        None
    }

    /// The cursor with this id, when one is present.
    pub fn cursor_by_id(&self, id: &CursorId) -> (r: Option<&Cursor>)
        ensures
            match r {
                Some(c) => self.has_cursor(*id) && c.id == *id && self.cursors_seq().contains(*c),
                None => !self.has_cursor(*id),
            },
    {
        match self.find_cursor(id) {
            Some(i) => Some(&self.cursors[i]),
            None => None,
        }
    }

    /// The node with this id, when one is present.
    pub fn node_by_id(&self, id: &NodeId) -> (r: Option<&Node>)
        ensures
            match r {
                Some(n) => self.has_node(*id) && n.id == *id && self.nodes_seq().contains(*n),
                None => !self.has_node(*id),
            },
    {
        match self.find_node(id) {
            Some(i) => Some(&self.nodes[i]),
            None => None,
        }
    }

    /// Apply one domain event.
    ///
    /// On success the registries change exactly as the event describes; on
    /// any error the store is left unchanged. Creation demands an id not yet
    /// live in its registry; selection demands that both ids resolve;
    /// deselection demands that the cursor resolves (deselecting a node the
    /// cursor never selected is a no-op that still succeeds).
    pub fn evolve(&mut self, event: Event) -> (r: Result<(), EvolveError>)
        requires
            old(self).wf(),
        ensures
            final(self).wf(),
            r is Err ==> *final(self) == *old(self),
            match event {
                Event::CursorCreated { id, label, row, col } => {
                    if old(self).has_cursor(id) {
                        r == Err::<(), EvolveError>(EvolveError::DuplicateId)
                    } else {
                        &&& r == Ok::<(), EvolveError>(())
                        &&& final(self).nodes_seq() == old(self).nodes_seq()
                        &&& final(self).cursors_seq().len() == old(self).cursors_seq().len() + 1
                        &&& final(self).cursors_seq().drop_last() =~= old(self).cursors_seq()
                        &&& cursor_created(final(self).cursors_seq().last(), id, label@, row, col)
                    }
                },
                Event::NodeCreated { id, label, node_type, row, col } => {
                    if old(self).has_node(id) {
                        r == Err::<(), EvolveError>(EvolveError::DuplicateId)
                    } else {
                        &&& r == Ok::<(), EvolveError>(())
                        &&& final(self).cursors_seq() == old(self).cursors_seq()
                        &&& final(self).nodes_seq().len() == old(self).nodes_seq().len() + 1
                        &&& final(self).nodes_seq().drop_last() =~= old(self).nodes_seq()
                        &&& node_created(
                            final(self).nodes_seq().last(),
                            id,
                            label@,
                            node_type,
                            row,
                            col,
                        )
                    }
                },
                Event::NodeSelected { cursor_id, node_id } => {
                    if !old(self).has_cursor(cursor_id) {
                        r == Err::<(), EvolveError>(EvolveError::UnknownCursor)
                    } else if !old(self).has_node(node_id) {
                        r == Err::<(), EvolveError>(EvolveError::UnknownNode)
                    } else {
                        &&& r == Ok::<(), EvolveError>(())
                        &&& final(self).nodes_seq() == old(self).nodes_seq()
                        &&& select_step(
                            old(self).cursors_seq(),
                            final(self).cursors_seq(),
                            cursor_id,
                            node_id,
                        )
                    }
                },
                Event::NodeDeselected { cursor_id, node_id } => {
                    if !old(self).has_cursor(cursor_id) {
                        r == Err::<(), EvolveError>(EvolveError::UnknownCursor)
                    } else {
                        &&& r == Ok::<(), EvolveError>(())
                        &&& final(self).nodes_seq() == old(self).nodes_seq()
                        &&& deselect_step(
                            old(self).cursors_seq(),
                            final(self).cursors_seq(),
                            cursor_id,
                            node_id,
                        )
                    }
                },
            },
    {
        match event {
            Event::CursorCreated { id, label, row, col } => {
                if self.find_cursor(&id).is_some() {
                    return Err(EvolveError::DuplicateId);
                }
                let c = Cursor::new(id, label, row, col);
                self.cursors.push(c);
                proof {
                    assert forall|i: int, j: int|
                        0 <= i < j < self.cursors_seq().len() implies (
                    #[trigger] self.cursors_seq()[i]).id != (#[trigger] self.cursors_seq()[j]).id by {
                        if j < old(self).cursors_seq().len() {
                            assert(old(self).cursors_unique());
                        } else {
                            assert(self.cursors_seq()[i] == old(self).cursors_seq()[i]);
                        }
                    }
                    assert(self.selections_valid()) by {
                        assert forall|i: int, k: int|
                            0 <= i < self.cursors_seq().len() && 0 <= k
                                < self.cursors_seq()[i].selected_nodes@.len() implies self.has_node(
                            (#[trigger] self.cursors_seq()[i].selected_nodes@[k]).source_id,
                        ) by {
                            assert(i < old(self).cursors_seq().len());
                            assert(self.cursors_seq()[i] == old(self).cursors_seq()[i]);
                            assert(old(self).has_node(
                                old(self).cursors_seq()[i].selected_nodes@[k].source_id,
                            ));
                        }
                    }
                }
                Ok(())
            },
            Event::NodeCreated { id, label, node_type, row, col } => {
                if self.find_node(&id).is_some() {
                    return Err(EvolveError::DuplicateId);
                }
                let n = Node::new(id, label, node_type, row, col);
                self.nodes.push(n);
                proof {
                    assert forall|i: int, j: int|
                        0 <= i < j < self.nodes_seq().len() implies (
                    #[trigger] self.nodes_seq()[i]).id != (#[trigger] self.nodes_seq()[j]).id by {
                        if j < old(self).nodes_seq().len() {
                            assert(old(self).nodes_unique());
                        } else {
                            assert(self.nodes_seq()[i] == old(self).nodes_seq()[i]);
                        }
                    }
                    assert(self.selections_valid()) by {
                        assert forall|i: int, k: int|
                            0 <= i < self.cursors_seq().len() && 0 <= k
                                < self.cursors_seq()[i].selected_nodes@.len() implies self.has_node(
                            (#[trigger] self.cursors_seq()[i].selected_nodes@[k]).source_id,
                        ) by {
                            let sid = self.cursors_seq()[i].selected_nodes@[k].source_id;
                            assert(old(self).has_node(sid));
                            let w = choose|w: int|
                                0 <= w < old(self).nodes_seq().len() && (#[trigger] old(
                                    self,
                                ).nodes_seq()[w]).id == sid;
                            assert((self.nodes_seq()[w]).id == sid);
                        }
                    }
                }
                Ok(())
            },
            Event::NodeSelected { cursor_id, node_id } => {
                let ci = match self.find_cursor(&cursor_id) {
                    Some(i) => i,
                    None => {
                        return Err(EvolveError::UnknownCursor);
                    },
                };
                let ni = match self.find_node(&node_id) {
                    Some(i) => i,
                    None => {
                        return Err(EvolveError::UnknownNode);
                    },
                };
                let sn = SelectedNode::from_node(&self.nodes[ni]);
                let c = &mut self.cursors[ci];
                c.selected_nodes.push(sn);
                proof {
                    assert(self.cursors_seq() =~= old(self).cursors_seq().update(
                        ci as int,
                        self.cursors_seq()[ci as int],
                    ));
                    assert forall|i: int|
                        0 <= i < old(self).cursors_seq().len() implies cursor_selected(
                        #[trigger] old(self).cursors_seq()[i],
                        #[trigger] self.cursors_seq()[i],
                        cursor_id,
                        node_id,
                    ) by {
                        if i != ci {
                            assert(old(self).cursors_unique());
                            assert(old(self).cursors_seq()[i].id != cursor_id);
                        }
                    }
                    assert(self.selections_valid()) by {
                        assert forall|i: int, k: int|
                            0 <= i < self.cursors_seq().len() && 0 <= k
                                < self.cursors_seq()[i].selected_nodes@.len() implies self.has_node(
                            (#[trigger] self.cursors_seq()[i].selected_nodes@[k]).source_id,
                        ) by {
                            if i == ci && k == self.cursors_seq()[i].selected_nodes@.len() - 1 {
                                assert(self.nodes_seq()[ni as int].id == node_id);
                            } else {
                                assert(self.cursors_seq()[i].selected_nodes@[k] == old(
                                    self,
                                ).cursors_seq()[i].selected_nodes@[k]);
                                assert(old(self).has_node(
                                    old(self).cursors_seq()[i].selected_nodes@[k].source_id,
                                ));
                            }
                        }
                    }
                }
                Ok(())
            },
            Event::NodeDeselected { cursor_id, node_id } => {
                let ci = match self.find_cursor(&cursor_id) {
                    Some(i) => i,
                    None => {
                        return Err(EvolveError::UnknownCursor);
                    },
                };
                let c = &mut self.cursors[ci];
                let filtered = without_source(&c.selected_nodes, node_id);
                c.selected_nodes = filtered;
                proof {
                    assert(self.cursors_seq() =~= old(self).cursors_seq().update(
                        ci as int,
                        self.cursors_seq()[ci as int],
                    ));
                    assert forall|i: int|
                        0 <= i < old(self).cursors_seq().len() implies cursor_deselected(
                        #[trigger] old(self).cursors_seq()[i],
                        #[trigger] self.cursors_seq()[i],
                        cursor_id,
                        node_id,
                    ) by {
                        if i != ci {
                            assert(old(self).cursors_unique());
                            assert(old(self).cursors_seq()[i].id != cursor_id);
                        }
                    }
                    assert(self.selections_valid()) by {
                        assert forall|i: int, k: int|
                            0 <= i < self.cursors_seq().len() && 0 <= k
                                < self.cursors_seq()[i].selected_nodes@.len() implies self.has_node(
                            (#[trigger] self.cursors_seq()[i].selected_nodes@[k]).source_id,
                        ) by {
                            if i == ci {
                                let pre = old(self).cursors_seq()[i].selected_nodes@;
                                lemma_filter_elem(pre, not_of_source(node_id), k);
                                let sn = self.cursors_seq()[i].selected_nodes@[k];
                                let w = choose|w: int| 0 <= w < pre.len() && pre[w] == sn;
                                assert(old(self).has_node(pre[w].source_id));
                            } else {
                                assert(self.cursors_seq()[i].selected_nodes@[k] == old(
                                    self,
                                ).cursors_seq()[i].selected_nodes@[k]);
                                assert(old(self).has_node(
                                    old(self).cursors_seq()[i].selected_nodes@[k].source_id,
                                ));
                            }
                        }
                    }
                }
                Ok(())
            },
        }
    }
}

/// The selection list without every projection of `node_id`, order kept.
fn without_source(sns: &Vec<SelectedNode>, node_id: NodeId) -> (r: Vec<SelectedNode>)
    ensures
        r@ == sns@.filter(not_of_source(node_id)),
{
    let mut out: Vec<SelectedNode> = Vec::new();
    let mut i: usize = 0;
    proof {
        reveal(Seq::<SelectedNode>::filter);
        assert(sns@.take(0int).filter(not_of_source(node_id)) =~= Seq::<SelectedNode>::empty());
    }
    while i < sns.len()
        invariant
            i <= sns@.len(),
            out@ == sns@.take(i as int).filter(not_of_source(node_id)),
        decreases sns@.len() - i,
    {
        if sns[i].source_id != node_id {
            out.push(sns[i]);
        }
        proof {
            reveal(Seq::<SelectedNode>::filter);
            assert(sns@.take(i as int + 1).drop_last() =~= sns@.take(i as int));
            assert(sns@.take(i as int + 1).last() == sns@[i as int]);
        }
        i = i + 1;
    }
    proof {
        assert(sns@.take(sns@.len() as int) =~= sns@);
    }
    out
}

/// Every element of a filtered sequence satisfies the predicate and occurs in
/// the original sequence.
proof fn lemma_filter_elem<A>(s: Seq<A>, pred: spec_fn(A) -> bool, k: int)
    requires
        0 <= k < s.filter(pred).len(),
    ensures
        pred(s.filter(pred)[k]),
        s.contains(s.filter(pred)[k]),
    decreases s.len(),
{
    reveal(Seq::filter);
    if s.len() == 0 {
    } else {
        let sub = s.drop_last();
        if k < sub.filter(pred).len() {
            lemma_filter_elem(sub, pred, k);
            let x = sub.filter(pred)[k];
            let w = choose|i: int| 0 <= i < sub.len() && sub[i] == x;
            assert(s[w] == x);
        } else {
            assert(pred(s.last()));
            assert(s.filter(pred)[k] == s.last());
            assert(s[s.len() - 1] == s.last());
        }
    }
}

/// Filtering a sequence all of whose elements already satisfy the predicate
/// changes nothing.
proof fn lemma_filter_of_satisfying<A>(s: Seq<A>, pred: spec_fn(A) -> bool)
    requires
        forall|i: int| 0 <= i < s.len() ==> pred(#[trigger] s[i]),
    ensures
        s.filter(pred) =~= s,
    decreases s.len(),
{
    reveal(Seq::filter);
    if s.len() == 0 {
    } else {
        assert forall|i: int| 0 <= i < s.drop_last().len() implies pred(
            #[trigger] s.drop_last()[i],
        ) by {
            assert(s.drop_last()[i] == s[i]);
        }
        lemma_filter_of_satisfying(s.drop_last(), pred);
        assert(pred(s.last()));
        assert(s.drop_last().push(s.last()) =~= s);
    }
}

/// Filtering twice with one predicate equals filtering once.
proof fn lemma_filter_idempotent<A>(s: Seq<A>, pred: spec_fn(A) -> bool)
    ensures
        s.filter(pred).filter(pred) =~= s.filter(pred),
{
    assert forall|i: int| 0 <= i < s.filter(pred).len() implies pred(
        #[trigger] s.filter(pred)[i],
    ) by {
        lemma_filter_elem(s, pred, i);
    }
    lemma_filter_of_satisfying(s.filter(pred), pred);
}

/// Law: deselecting the same node for the same cursor twice in a row is a
/// no-op the second time. A registry that a deselect produced is a fixed
/// point of that same deselect, and any registry the second deselect yields
/// is observably the one it started from.
pub proof fn lemma_deselect_idempotent(
    pre: Seq<Cursor>,
    mid: Seq<Cursor>,
    post: Seq<Cursor>,
    cursor_id: CursorId,
    node_id: NodeId,
)
    requires
        deselect_step(pre, mid, cursor_id, node_id),
        deselect_step(mid, post, cursor_id, node_id),
    ensures
        deselect_step(mid, mid, cursor_id, node_id),
        cursors_equiv(post, mid),
{
    assert forall|i: int| 0 <= i < mid.len() implies cursor_deselected(
        #[trigger] mid[i],
        #[trigger] mid[i],
        cursor_id,
        node_id,
    ) && cursor_equiv(post[i], mid[i]) by {
        assert(cursor_deselected(pre[i], mid[i], cursor_id, node_id));
        assert(cursor_deselected(mid[i], post[i], cursor_id, node_id));
        if mid[i].id == cursor_id {
            assert(pre[i].id == cursor_id);
            lemma_filter_idempotent(pre[i].selected_nodes@, not_of_source(node_id));
        }
    }
}

} // verus!

//! Identifier and node-kind types of the event model.
//!
//! `NodeId` and `CursorId` are opaque 128-bit identifiers, kept as distinct
//! types so a node id can never stand where a cursor id is meant. Equality is
//! by value; fresh identifiers are drawn at random through the `uuid` crate.

use vstd::prelude::*;

verus! {

/// Declares the outside type `uuid::Uuid` so it can stand in signatures.
/// Values of it are opaque here; the model works on their 128-bit reading.
#[verifier::external_type_specification]
#[verifier::external_body]
pub struct ExUuid(uuid::Uuid);

/// Relies on `uuid::Uuid::new_v4` to draw a fresh random version-4 identifier
/// and on `uuid::Uuid::as_u128` to read it back as one 128-bit value. Nothing
/// is promised of a random value.
#[verifier::external_body]
fn fresh_id_bits() -> u128 {
    uuid::Uuid::new_v4().as_u128()
}

/// Relies on `uuid::Uuid::from_u128`: builds the UUID whose big-endian bytes
/// are those of `bits`. The result is opaque to the model.
#[verifier::external_body]
fn uuid_from_bits(bits: u128) -> uuid::Uuid {
    uuid::Uuid::from_u128(bits)
}

/// Identity of a cursor. We will eventually have multiple users working on
/// the same model, so individual cursors must be identifiable across the
/// network.
#[derive(Debug, Clone, Copy, PartialEq, Eq, Hash, Structural)]
pub struct CursorId(u128);

impl CursorId {
    /// A fresh random identifier.
    pub fn new() -> Self {
        CursorId(fresh_id_bits())
    }

    /// This identifier as the `uuid` crate's UUID value.
    pub fn uuid(&self) -> uuid::Uuid {
        uuid_from_bits(self.0)
    }
}

/// Identity of a node (and of a per-cursor node projection).
#[derive(Debug, Clone, Copy, PartialEq, Eq, Hash, Structural)]
pub struct NodeId(u128);

impl NodeId {
    /// A fresh random identifier.
    pub fn new() -> Self {
        NodeId(fresh_id_bits())
    }

    /// This identifier as the `uuid` crate's UUID value.
    pub fn uuid(&self) -> uuid::Uuid {
        uuid_from_bits(self.0)
    }
}

/// The closed set of workflow node kinds. Immutable once a node is created;
/// used only for presentation, never for invariants.
#[derive(Debug, Clone, Copy, PartialEq, Eq, Structural)]
pub enum NodeType {
    Role,
    Command,
    Event,
    View,
}

/// The display name of a node type.
pub open spec fn spec_type_name(t: NodeType) -> Seq<char> {
    match t {
        NodeType::Role => "Role"@,
        NodeType::Command => "Command"@,
        NodeType::Event => "Event"@,
        NodeType::View => "View"@,
    }
}

/// The CSS classes that style a node's box, by node type.
pub open spec fn spec_svg_style(t: NodeType) -> Seq<char> {
    match t {
        NodeType::Role => "fill-white stroke-gray-300"@,
        NodeType::Command => "fill-blue-200"@,
        NodeType::Event => "fill-yellow-200"@,
        NodeType::View => "fill-green-200"@,
    }
}

impl NodeType {
    /// The display name of this node type.
    pub fn name(&self) -> (r: &'static str)
        ensures
            r@ == spec_type_name(*self),
    {
        match self {
            NodeType::Role => "Role",
            NodeType::Command => "Command",
            NodeType::Event => "Event",
            NodeType::View => "View",
        }
    }
}

/// The CSS classes that style a node's box.
pub fn svg_style(node_type: &NodeType) -> (r: &'static str)
    ensures
        r@ == spec_svg_style(*node_type),
{
    match node_type {
        NodeType::Role => "fill-white stroke-gray-300",
        NodeType::Command => "fill-blue-200",
        NodeType::Event => "fill-yellow-200",
        NodeType::View => "fill-green-200",
    }
}

} // verus!

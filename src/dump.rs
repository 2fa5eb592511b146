//! The typed shape of the objects of a dump that volume control reads.
use vstd::prelude::*;
use crate::volume::{VolumeRange, VolumeState};

verus! {

#[verifier::external_type_specification]
#[verifier::external_body]
pub struct ExValue(serde_json::Value);

/// One `(key, value)` entry of a metadata object; `value_name` is the
/// `name` carried by the entry's value.
pub struct MetadataEntry {
    pub key: String,
    pub value_name: String,
}

/// An object that carries metadata entries.
pub struct MetadataObject {
    /// The interface type of the object (its `type` field).
    pub typ: String,
    pub metadata: Vec<MetadataEntry>,
}

/// One supported channel-count/format entry of a node.
#[derive(Clone, Copy, Debug, PartialEq, Eq, Structural)]
pub struct EnumFormat {
    pub channels: Option<i64>,
}

/// A property descriptor of a node.
pub enum PropInfo {
    /// A descriptor with an `id` and a numeric `default`/`min`/`max` range.
    Volume { id: String, range: VolumeRange },
    /// Any other descriptor, kept as it was read.
    Other(serde_json::Value),
}

/// A live property entry of a node.
pub enum Prop {
    /// Volume, mute flag and per-channel volumes.
    Volume(VolumeState),
    /// Any other entry, kept as it was read.
    Other(serde_json::Value),
}

/// An audio endpoint of the dump.
pub struct NodeObject {
    pub id: i64,
    /// The interface type of the object (its `type` field).
    pub typ: String,
    /// The node's `node.name` property.
    pub name: String,
    pub enum_formats: Vec<EnumFormat>,
    pub prop_info: Vec<PropInfo>,
    pub props: Vec<Prop>,
}

/// One object of a dump.
pub enum DumpObject {
    Metadata(MetadataObject),
    Node(NodeObject),
    /// An object of any other shape, kept as it was read and ignored.
    Unrecognized(serde_json::Value),
}

} // verus!

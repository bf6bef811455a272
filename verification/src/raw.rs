//! The untrusted document tree, as deserialized from the input: every
//! defaultable field is optional, values are unchecked per-mille integers,
//! and indices are unchecked machine integers.

use vstd::prelude::*;

verus! {

/// A whole raw descriptor document.
#[derive(Debug)]
pub struct RawDescriptor {
    pub name: String,
    pub shape_switches: Option<Vec<RawShapeKeySwitch>>,
    pub shape_groups: Option<Vec<RawShapeKeyGroup>>,
    pub drivers: Option<Vec<RawDriver>>,
}

/// The common part of a raw switch or group.
#[derive(Debug)]
pub struct RawShapeKeyCommon {
    pub name: String,
    pub mesh: String,
    pub prevent_eyelids: Option<bool>,
    pub prevent_mouth: Option<bool>,
}

/// A raw shape key switch. Values are per-mille.
#[derive(Debug)]
pub struct RawShapeKeySwitch {
    pub common: RawShapeKeyCommon,
    pub shape: String,
    pub enabled_value: Option<i64>,
    pub disabled_value: Option<i64>,
}

/// A raw shape key group.
#[derive(Debug)]
pub struct RawShapeKeyGroup {
    pub common: RawShapeKeyCommon,
    pub defaults: Option<Vec<RawShapeKeyDrive>>,
    pub options: Option<Vec<RawShapeKeyOption>>,
}

/// A raw group option: either a bare label, or a labelled record with an
/// optional default value, an optional explicit index, and optional drives.
#[derive(Debug)]
pub enum RawShapeKeyOption {
    Simple(String),
    Complex {
        label: String,
        value: Option<i64>,
        index: Option<usize>,
        shapes: Option<Vec<RawShapeKeyDrive>>,
    },
}

/// A raw drive: either a bare shape name, or a shape with a per-mille value.
#[derive(Debug)]
pub enum RawShapeKeyDrive {
    Simple(String),
    Complex { shape: String, value: Option<i64> },
}

/// A raw parameter driver layer.
#[derive(Debug)]
pub struct RawDriver {
    pub name: String,
    pub options: Vec<RawDriverOption>,
}

/// A raw option of a driver.
#[derive(Debug)]
pub struct RawDriverOption {
    pub label: String,
    pub drives: Vec<RawDrive>,
}

/// A raw symbolic drive of a driver option.
#[derive(Debug)]
pub enum RawDrive {
    Switch { name: String, enabled: bool },
    Group { name: String, label: String },
}

} // verus!

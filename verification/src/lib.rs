//! Compiles a declarative description of shape-key animation behaviour for an
//! avatar into source text for a fluent animation-authoring API.
//!
//! The pipeline: an untrusted raw document is converted into a validated
//! [`descriptor::Descriptor`] (value bounds enforced at construction), a second
//! validation pass checks identifier syntax and cross-entity references, and
//! the code generator emits one animation layer per switch and group, guarded
//! by conditions built in a restricted disjunctive normal form.

pub mod aac;
pub mod aac_object;
pub mod descriptor;
pub mod raw;
pub mod text;
pub mod validation;
pub mod values;
pub mod writer;

pub use values::NormalizedValue;
pub use values::PositiveIndex;

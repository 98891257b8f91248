//! The decisions that generated (de)serializers are built from: attribute settings, field
//! types, element names and namespace checks.

pub mod namespaces;
pub mod attribute;
pub mod field;

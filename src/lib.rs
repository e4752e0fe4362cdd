//! Attribute directives of element templates: parsing a directive name,
//! classifying it into one of four attribute forms, resolving two-way binding
//! properties, and lowering each attribute into binding instructions.

pub mod token;
pub mod error;
pub mod name;
pub mod directive;
pub mod binding;
pub mod attribute;
pub mod list;

//! The design SDK: authoring model, validation and lowering into the IR.

pub mod census;
pub mod lower;
pub mod model;
pub mod ownership;
pub mod resolution;
pub mod validate;

pub use model::{
    Assembly, AuthorKind, Component, Connection, ConnectionKind, Constraint, Design, Interface, InterfaceKind, InterfaceRef, LoweredDesign, LoweringError, Part, Provenance, Requirement, TypedValue, ValidationError, ValidationIssue,
};

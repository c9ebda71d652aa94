//! A compiler front end for manufacturable mechanical designs.

pub mod attrs;
pub mod compiler;
pub mod context;
pub mod first;
pub mod ieee;
pub mod ir;
pub mod schema;
pub mod sdk;
pub mod text;

//! The root type of the manufacturing-environment schema, kept apart for future schema work.

use vstd::prelude::*;

verus! {

/// Root manufacturing-environment type for future schema work.
#[derive(Debug, Clone, Copy, PartialEq, Eq, Structural)]
pub struct ManufacturingContext;

impl Default for ManufacturingContext {
    fn default() -> (r: Self)
        ensures
            r == ManufacturingContext,
    {
        ManufacturingContext
    }
}

} // verus!

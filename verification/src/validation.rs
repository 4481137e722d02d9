//! The typing context consumed during validation, and the capability of
//! being checked against it.
//!
//! The interpreter core relies on validation having already proved the static
//! properties of a module; the checks offered here cover the side
//! conditions (such as limit well-formedness) that the runtime restates.

use vstd::prelude::*;

use crate::types;

verus! {

/// The typing context a validator threads through a module.
pub struct Context {
    pub types: Vec<types::Function>,
    pub funcs: Vec<types::Function>,
    pub tables: Vec<types::Table>,
    pub mems: Vec<types::Mem>,
    pub globals: Vec<types::Global>,
    pub elems: Vec<types::Ref>,
    pub data: Vec<()>,
    pub locals: Vec<types::Value>,
    pub labels: Vec<types::ResultType>,
    pub ret: Option<types::ResultType>,
    pub references: Vec<types::Index>,
}

/// A syntactic class that can be checked against a context, optionally
/// under a size bound `k`.
pub trait Validable {
    /// What it means for the value to be valid.
    spec fn valid_spec(&self, context: &Context, k: Option<types::Int>) -> bool;

    /// Decides validity, exactly as `valid_spec` states it.
    fn is_valid(&self, context: &Context, k: Option<types::Int>) -> (r: bool)
        ensures
            r == self.valid_spec(context, k),
    ;
}

} // verus!

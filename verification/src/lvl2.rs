//! The type vocabulary of the stage the companion code generator lowers
//! from: a type is either a plain named type or a fixed-size array of a
//! named type.

use vstd::prelude::*;

verus! {

/// A type as the earlier generator stage describes it.
#[derive(Clone, Debug)]
pub enum Type {
    /// A type referred to by name.
    BasicType(String),
    /// A fixed-size array of a type referred to by name.
    Array(String, u64),
}

} // verus!

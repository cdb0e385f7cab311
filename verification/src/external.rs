//! Typed external values.
use vstd::prelude::*;

verus! {

/// A type that can be stored as a typed external value, identified by a
/// marker that no other such type shares.
pub trait Externalizable {
    /// The marker that identifies this type.
    fn marker() -> u64;
}

/// The definition of an external type.
pub struct ExternalDefinition {
    pub name: &'static str,
}

} // verus!

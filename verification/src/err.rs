//! Decode failures. Every error is structural and is surfaced to the
//! caller at once: a single invalid nested field fails the decode of the
//! whole enclosing document.

use vstd::prelude::*;

verus! {

/// Why a decode failed.
#[derive(Debug, Clone, PartialEq, Eq)]
pub enum DecodeError {
    /// A declared required field is missing from the source object.
    MissingRequiredField { field: String, kind: String },
    /// A field (or the node itself, named by `field`) does not have the
    /// shape its declaration demands.
    TypeMismatch { field: String, kind: String, expected: String },
    /// The sentinel field of a discriminated union holds a value outside
    /// the fixed known set.
    UnknownVariant { value: String, kind: String },
    /// A pointer string does not follow the component path convention.
    /// Reported only by the optional pointer syntax check; decode itself
    /// accepts pointer strings verbatim.
    MalformedPointer { raw: String },
}

impl DecodeError {
    pub fn is_missing_required_field(&self) -> (r: bool)
        ensures
            r == (self is MissingRequiredField),
    {
        matches!(self, DecodeError::MissingRequiredField { .. })
    }

    pub fn is_type_mismatch(&self) -> (r: bool)
        ensures
            r == (self is TypeMismatch),
    {
        matches!(self, DecodeError::TypeMismatch { .. })
    }

    pub fn is_unknown_variant(&self) -> (r: bool)
        ensures
            r == (self is UnknownVariant),
    {
        matches!(self, DecodeError::UnknownVariant { .. })
    }

    pub fn is_malformed_pointer(&self) -> (r: bool)
        ensures
            r == (self is MalformedPointer),
    {
        matches!(self, DecodeError::MalformedPointer { .. })
    }
}

} // verus!

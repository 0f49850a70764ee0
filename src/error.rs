//! The failures of the conversion pair.
use vstd::prelude::*;
use crate::value::{kind_name, Kind};

verus! {

/// Why a conversion failed.
#[derive(Clone, Copy, Debug, PartialEq, Eq, Structural)]
pub enum ConversionError {
    /// A value was not of the kind required at its position.
    ShapeMismatch { expected: Kind, got: Kind },
    /// An entry's key was not a string.
    KeyTypeError,
}

impl ConversionError {
    pub open spec fn spec_message(self) -> Seq<char> {
        match self {
            ConversionError::ShapeMismatch { expected, got } => "expected "@ + kind_name(expected)
                + ", got "@ + kind_name(got),
            ConversionError::KeyTypeError => "object keys must be strings"@,
        }
    }

    /// The error as a human-readable message.
    pub fn message(&self) -> (r: String)
        ensures
            r@ == self.spec_message(),
    {
        match self {
            ConversionError::ShapeMismatch { expected, got } => {
                let mut s = String::from_str("expected ");
                s.append(expected.name());
                s.append(", got ");
                s.append(got.name());
                s
            },
            ConversionError::KeyTypeError => String::from_str("object keys must be strings"),
        }
    }
}

} // verus!

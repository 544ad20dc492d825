//! Errors reported by constructors.

use vstd::prelude::*;

verus! {

/// The kind of failure that a constructor reports.
#[derive(Clone, Copy, Debug, PartialEq, Eq, Structural)]
pub enum ErrorVariant {
    /// A value could not be represented in the requested type.
    FailedCast,
    /// Two bundles were joined at domains that are not equal.
    DomainMismatch,
    /// The parameters of a transformation or of one of its domains are contradictory.
    MakeTransformation,
    /// The parameters of a measurement are contradictory.
    MakeMeasurement,
    /// No intermediate distance bound can be derived when chaining two relations.
    BoundNotDerivable,
}

/// A failure, with its kind and a description for the reader.
#[derive(Debug)]
pub struct Error {
    pub variant: ErrorVariant,
    pub message: String,
}

/// The result of a constructor that may reject its parameters.
pub type Fallible<T> = Result<T, Error>;

impl Error {
    /// An error of kind `variant` described by `message`.
    pub fn new(variant: ErrorVariant, message: &str) -> (e: Error)
        ensures
            e.variant == variant,
            e.message@ == message@,
    {
        Error { variant, message: message.to_owned() }
    }
}

} // verus!

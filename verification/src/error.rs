use vstd::prelude::*;

verus! {

/// The kinds of failure that constructors and evaluations report.
#[derive(Clone, Copy, Debug, PartialEq, Eq, Structural)]
pub enum ErrorVariant {
    /// A sensitivity, a privacy parameter or a quantile is negative or out of range.
    InvalidDistance,
    /// A structural precondition of a transformation constructor fails.
    MakeTransformation,
    /// A structural precondition of a measurement constructor fails.
    MakeMeasurement,
    /// Two stages that must share a domain do not.
    DomainMismatch,
    /// An exact integer cast or an integer operation leaves the target type.
    NumericCast,
    /// The source of random bytes is unavailable.
    Entropy,
    /// Two opaque relations were chained without an intermediate distance.
    NotImplemented,
}

/// An error with its kind.
#[derive(Clone, Copy, Debug, PartialEq, Eq, Structural)]
pub struct Error {
    pub variant: ErrorVariant,
}

impl Error {
    pub fn new(variant: ErrorVariant) -> (res: Self)
        ensures
            res.variant == variant,
    {
        Error { variant }
    }
}

/// The result of an operation that may fail.
pub type Fallible<T> = Result<T, Error>;

} // verus!

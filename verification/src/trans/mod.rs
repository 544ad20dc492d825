//! Constructors of transformations.

use vstd::prelude::*;
use crate::error::Fallible;

pub mod manipulation;

verus! {

/// A way to make a transformation without parameters.
///
/// `make` and `make0` make the same transformation; each implementation says
/// which.
pub trait MakeTransformation0 {
    /// The transformation that is made.
    type Output;

    fn make0() -> (r: Fallible<Self::Output>)
    ;

    fn make() -> (r: Fallible<Self::Output>)
    ;
}

/// A way to make a transformation from two parameters.
///
/// `make` and `make2` make the same transformation; each implementation says
/// which, and on which parameters it refuses.
pub trait MakeTransformation2<P1, P2> {
    /// The transformation that is made.
    type Output;

    fn make2(param1: P1, param2: P2) -> (r: Fallible<Self::Output>)
    ;

    fn make(param1: P1, param2: P2) -> (r: Fallible<Self::Output>)
    ;
}

} // verus!

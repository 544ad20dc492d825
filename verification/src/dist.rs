//! The metrics and measures that the library provides.

use vstd::prelude::*;
use std::marker::PhantomData;
use crate::kernel::{DatasetMetric, Measure, Metric, SensitivityMetric};

verus! {

/// The distance between two aggregates as the sum of the absolute differences,
/// in distances of type `Q`.
pub struct L1Sensitivity<Q> {
    _marker: PhantomData<Q>,
}

impl<Q> L1Sensitivity<Q> {
    pub fn new() -> (r: Self) {
        L1Sensitivity { _marker: PhantomData }
    }
}

impl<Q> Clone for L1Sensitivity<Q> {
    fn clone(&self) -> (r: Self)
        ensures
            r == *self,
    {
        Self::new()
    }
}

impl<Q> Metric for L1Sensitivity<Q> {
    type Distance = Q;
}

impl<Q> SensitivityMetric for L1Sensitivity<Q> {
    fn new() -> (r: Self) {
        L1Sensitivity { _marker: PhantomData }
    }
}

/// The distance between two aggregates as the Euclidean length of the
/// difference, in distances of type `Q`.
pub struct L2Sensitivity<Q> {
    _marker: PhantomData<Q>,
}

impl<Q> L2Sensitivity<Q> {
    pub fn new() -> (r: Self) {
        L2Sensitivity { _marker: PhantomData }
    }
}

impl<Q> Clone for L2Sensitivity<Q> {
    fn clone(&self) -> (r: Self)
        ensures
            r == *self,
    {
        Self::new()
    }
}

impl<Q> Metric for L2Sensitivity<Q> {
    type Distance = Q;
}

impl<Q> SensitivityMetric for L2Sensitivity<Q> {
    fn new() -> (r: Self) {
        L2Sensitivity { _marker: PhantomData }
    }
}

/// The privacy loss of pure differential privacy, in distances of type `Q`.
pub struct MaxDivergence<Q> {
    _marker: PhantomData<Q>,
}

impl<Q> MaxDivergence<Q> {
    pub fn new() -> (r: Self) {
        MaxDivergence { _marker: PhantomData }
    }
}

impl<Q> Clone for MaxDivergence<Q> {
    fn clone(&self) -> (r: Self)
        ensures
            r == *self,
    {
        Self::new()
    }
}

impl<Q> Measure for MaxDivergence<Q> {
    type Distance = Q;
}

/// The distance between two datasets as the number of records to add or remove
/// to get from one to the other.
#[derive(Clone, Copy)]
pub struct SymmetricDistance;

impl Metric for SymmetricDistance {
    type Distance = u32;
}

impl DatasetMetric for SymmetricDistance {
    fn new() -> (r: Self) {
        SymmetricDistance
    }
}

/// The distance between two datasets of one size as the number of records to
/// change to get from one to the other.
#[derive(Clone, Copy)]
pub struct HammingDistance;

impl Metric for HammingDistance {
    type Distance = u32;
}

impl DatasetMetric for HammingDistance {
    fn new() -> (r: Self) {
        HammingDistance
    }
}

} // verus!

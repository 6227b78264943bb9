use vstd::prelude::*;
use std::marker::PhantomData;

verus! {

/// A notion of distance between two elements of a domain.
pub trait Metric: Sized {
    /// The type in which the distance is given.
    type Distance;

    /// A copy of the metric.
    fn replicate(&self) -> (res: Self)
        ensures
            res == *self,
    ;
}

/// A notion of distance between two distributions.
pub trait Measure: Sized {
    /// The type in which the distance is given.
    type Distance;

    /// A copy of the measure.
    fn replicate(&self) -> (res: Self)
        ensures
            res == *self,
    ;
}

/// The metrics that compare data sets.
pub trait DatasetMetric: Metric {
    /// The metric as it is first made.
    spec fn initial() -> Self;

    /// Makes the metric.
    fn new() -> (res: Self)
        ensures
            res == Self::initial(),
    ;
}

/// The metrics that compare aggregates.
pub trait SensitivityMetric: Metric {
    /// The metric as it is first made.
    spec fn initial() -> Self;

    /// Makes the metric.
    fn new() -> (res: Self)
        ensures
            res == Self::initial(),
    ;
}

/// The number of elements that must be added or removed to turn one data set
/// into another.
pub struct SymmetricDistance;

impl Metric for SymmetricDistance {
    type Distance = u32;

    fn replicate(&self) -> (res: Self) {
        SymmetricDistance
    }
}

impl DatasetMetric for SymmetricDistance {
    fn new() -> (res: Self) {
        SymmetricDistance
    }

    open spec fn initial() -> Self {
        SymmetricDistance
    }
}

/// The number of elements that must be replaced to turn one data set into
/// another of the same size.
pub struct SubstituteDistance;

impl Metric for SubstituteDistance {
    type Distance = u32;

    fn replicate(&self) -> (res: Self) {
        SubstituteDistance
    }
}

impl DatasetMetric for SubstituteDistance {
    fn new() -> (res: Self) {
        SubstituteDistance
    }

    open spec fn initial() -> Self {
        SubstituteDistance
    }
}

/// The absolute difference of two numbers.
pub struct AbsoluteDistance<Q> {
    pub _marker: PhantomData<Q>,
}

impl<Q> Metric for AbsoluteDistance<Q> {
    type Distance = Q;

    fn replicate(&self) -> (res: Self) {
        AbsoluteDistance { _marker: PhantomData }
    }
}

impl<Q> SensitivityMetric for AbsoluteDistance<Q> {
    fn new() -> (res: Self) {
        AbsoluteDistance { _marker: PhantomData }
    }

    open spec fn initial() -> Self {
        AbsoluteDistance { _marker: PhantomData }
    }
}

/// The sum of the absolute differences of two vectors.
pub struct L1Sensitivity<Q> {
    pub _marker: PhantomData<Q>,
}

impl<Q> Metric for L1Sensitivity<Q> {
    type Distance = Q;

    fn replicate(&self) -> (res: Self) {
        L1Sensitivity { _marker: PhantomData }
    }
}

impl<Q> SensitivityMetric for L1Sensitivity<Q> {
    fn new() -> (res: Self) {
        L1Sensitivity { _marker: PhantomData }
    }

    open spec fn initial() -> Self {
        L1Sensitivity { _marker: PhantomData }
    }
}

/// The Euclidean distance of two vectors.
pub struct L2Sensitivity<Q> {
    pub _marker: PhantomData<Q>,
}

impl<Q> Metric for L2Sensitivity<Q> {
    type Distance = Q;

    fn replicate(&self) -> (res: Self) {
        L2Sensitivity { _marker: PhantomData }
    }
}

impl<Q> SensitivityMetric for L2Sensitivity<Q> {
    fn new() -> (res: Self) {
        L2Sensitivity { _marker: PhantomData }
    }

    open spec fn initial() -> Self {
        L2Sensitivity { _marker: PhantomData }
    }
}

/// The greatest distance, in the inner metric, between corresponding pairs
/// of scores.
pub struct SupDistance<M: Metric> {
    pub inner: M,
}

impl<M: Metric> Metric for SupDistance<M> {
    type Distance = M::Distance;

    fn replicate(&self) -> (res: Self) {
        SupDistance { inner: self.inner.replicate() }
    }
}

impl<M: SensitivityMetric> SensitivityMetric for SupDistance<M> {
    /// The sup distance over the inner metric as that is first made.
    fn new() -> (res: Self) {
        SupDistance { inner: M::new() }
    }

    open spec fn initial() -> Self {
        SupDistance { inner: M::initial() }
    }
}

/// The greatest absolute difference between corresponding scores.
pub struct InfDistance<Q> {
    pub _marker: PhantomData<Q>,
}

impl<Q> InfDistance<Q> {
    pub fn new() -> (res: Self) {
        InfDistance { _marker: PhantomData }
    }
}

impl<Q> Metric for InfDistance<Q> {
    type Distance = Q;

    fn replicate(&self) -> (res: Self) {
        InfDistance { _marker: PhantomData }
    }
}

/// The greatest difference between the scores of one candidate on two data
/// sets.
pub struct InfDifferenceDistance<Q> {
    pub _marker: PhantomData<Q>,
}

impl<Q> InfDifferenceDistance<Q> {
    pub fn new() -> (res: Self) {
        InfDifferenceDistance { _marker: PhantomData }
    }
}

impl<Q> Metric for InfDifferenceDistance<Q> {
    type Distance = Q;

    fn replicate(&self) -> (res: Self) {
        InfDifferenceDistance { _marker: PhantomData }
    }
}

/// A metric that measures nothing: its one distance carries no bound.
pub struct AgnosticMetric;

impl Metric for AgnosticMetric {
    type Distance = ();

    fn replicate(&self) -> (res: Self) {
        AgnosticMetric
    }
}

/// The greatest divergence of two distributions: the privacy loss parameter.
pub struct MaxDivergence<Q> {
    pub _marker: PhantomData<Q>,
}

impl<Q> MaxDivergence<Q> {
    pub fn new() -> (res: Self) {
        MaxDivergence { _marker: PhantomData }
    }
}

impl<Q> Measure for MaxDivergence<Q> {
    type Distance = Q;

    fn replicate(&self) -> (res: Self) {
        MaxDivergence { _marker: PhantomData }
    }
}

} // verus!

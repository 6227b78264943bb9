use vstd::prelude::*;
use crate::dist::{AbsoluteDistance, SymmetricDistance};
use crate::dom::{AllDomain, Domain, IntervalDomain, OptionNullDomain, SizedDomain, VectorDomain};
use crate::order::TotalOrder;

verus! {

/// The pairs of a domain and a metric that go together: the metric measures
/// the distance between elements of the domain.
pub trait CompatiblePairing {

}

/// An absolute distance goes with the domains of single values.
impl<D: Inner + Subdomain<AllDomain<D::Inner>>, Q> CompatiblePairing for (D, AbsoluteDistance<Q>) {

}

/// The symmetric distance goes with the domains of vectors.
impl<D: Inner + Subdomain<VectorDomain<D::Inner>>> CompatiblePairing for (
    D,
    SymmetricDistance,
) where D::Inner: Domain {

}

/// The type that the domains of one family share: the element type of a
/// domain of values, the element domain of a domain of vectors.
pub trait Inner {
    type Inner;
}

impl<D: Domain> Inner for VectorDomain<D> {
    type Inner = D;
}

impl<D: Inner + Domain> Inner for SizedDomain<D> {
    type Inner = D::Inner;
}

impl<T> Inner for AllDomain<T> {
    type Inner = T;
}

impl<T> Inner for IntervalDomain<T> {
    type Inner = T;
}

impl<D: Inner + Domain> Inner for OptionNullDomain<D> {
    type Inner = D::Inner;
}

/// The domains that hold no value that the more general domain `D1` lacks.
pub trait Subdomain<D1: Domain>: Domain {

}

impl<T> Subdomain<AllDomain<T>> for AllDomain<T> {

}

impl<T: TotalOrder + Copy> Subdomain<AllDomain<T>> for IntervalDomain<T> {

}

impl<D: Inner + Subdomain<AllDomain<D::Inner>>> Subdomain<VectorDomain<D>> for VectorDomain<D> {

}

impl<D: Inner + Subdomain<AllDomain<D::Inner>>> Subdomain<VectorDomain<D>> for SizedDomain<
    VectorDomain<D>,
> {

}

} // verus!

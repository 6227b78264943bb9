use vstd::prelude::*;
use std::marker::PhantomData;
use crate::order::TotalOrder;

verus! {

/// A set of values of one carrier type, which constrains the input or the
/// output of a function.
pub trait Domain: Sized {
    /// The type whose values the domain selects from.
    type Carrier;

    /// Whether the domain holds `val`.
    spec fn contains(&self, val: Self::Carrier) -> bool;

    /// Tests a value for membership.
    fn member(&self, val: &Self::Carrier) -> (res: bool)
        ensures
            res == self.contains(*val),
    ;

    /// Whether two domains are the same descriptor, and so hold the same values.
    fn same(&self, other: &Self) -> (res: bool)
        ensures
            res == (*self == *other),
    ;

    /// A copy of the domain.
    fn replicate(&self) -> (res: Self)
        ensures
            res == *self,
    ;
}

/// Every value of `T`.
pub struct AllDomain<T> {
    pub _marker: PhantomData<T>,
}

impl<T> AllDomain<T> {
    pub fn new() -> (res: Self)
        ensures
            forall|val: T| res.contains(val),
    {
        AllDomain { _marker: PhantomData }
    }
}

impl<T> Domain for AllDomain<T> {
    type Carrier = T;

    open spec fn contains(&self, val: T) -> bool {
        true
    }

    fn member(&self, val: &T) -> (res: bool) {
        true
    }

    fn same(&self, other: &Self) -> (res: bool) {
        true
    }

    fn replicate(&self) -> (res: Self) {
        AllDomain { _marker: PhantomData }
    }
}

/// A domain behind a box.
pub struct BoxDomain<D: Domain> {
    pub element_domain: Box<D>,
}

impl<D: Domain> BoxDomain<D> {
    pub fn new(element_domain: Box<D>) -> (res: Self)
        ensures
            res.element_domain == element_domain,
    {
        BoxDomain { element_domain }
    }
}

impl<D: Domain> Domain for BoxDomain<D> {
    type Carrier = Box<D::Carrier>;

    open spec fn contains(&self, val: Box<D::Carrier>) -> bool {
        self.element_domain.contains(*val)
    }

    fn member(&self, val: &Box<D::Carrier>) -> (res: bool) {
        self.element_domain.member(&**val)
    }

    fn same(&self, other: &Self) -> (res: bool) {
        self.element_domain.same(&*other.element_domain)
    }

    fn replicate(&self) -> (res: Self) {
        BoxDomain { element_domain: Box::new(self.element_domain.replicate()) }
    }
}

/// Pairs of a value of the first domain and a value of the second.
pub struct PairDomain<D0: Domain, D1: Domain> {
    pub first: D0,
    pub second: D1,
}

impl<D0: Domain, D1: Domain> PairDomain<D0, D1> {
    pub fn new(first: D0, second: D1) -> (res: Self)
        ensures
            res.first == first,
            res.second == second,
    {
        PairDomain { first, second }
    }
}

impl<D0: Domain, D1: Domain> Domain for PairDomain<D0, D1> {
    type Carrier = (D0::Carrier, D1::Carrier);

    open spec fn contains(&self, val: (D0::Carrier, D1::Carrier)) -> bool {
        self.first.contains(val.0) && self.second.contains(val.1)
    }

    fn member(&self, val: &(D0::Carrier, D1::Carrier)) -> (res: bool) {
        self.first.member(&val.0) && self.second.member(&val.1)
    }

    fn same(&self, other: &Self) -> (res: bool) {
        self.first.same(&other.first) && self.second.same(&other.second)
    }

    fn replicate(&self) -> (res: Self) {
        PairDomain { first: self.first.replicate(), second: self.second.replicate() }
    }
}

/// Vectors of any length whose elements lie in the element domain.
pub struct VectorDomain<D: Domain> {
    pub element_domain: D,
}

impl<D: Domain> VectorDomain<D> {
    pub fn new(element_domain: D) -> (res: Self)
        ensures
            res.element_domain == element_domain,
    {
        VectorDomain { element_domain }
    }
}

impl<T> VectorDomain<AllDomain<T>> {
    /// Vectors of any values of `T`.
    pub fn new_all() -> (res: Self)
        ensures
            forall|val: Vec<T>| res.contains(val),
    {
        VectorDomain { element_domain: AllDomain::new() }
    }
}

impl<D: Domain> Domain for VectorDomain<D> {
    type Carrier = Vec<D::Carrier>;

    open spec fn contains(&self, val: Vec<D::Carrier>) -> bool {
        forall|i: int| 0 <= i < val@.len() ==> self.element_domain.contains(#[trigger] val@[i])
    }

    fn member(&self, val: &Vec<D::Carrier>) -> (res: bool) {
        let mut i: usize = 0;
        while i < val.len()
            invariant
                i <= val@.len(),
                forall|j: int| 0 <= j < i ==> self.element_domain.contains(#[trigger] val@[j]),
            decreases val@.len() - i,
        {
            if !self.element_domain.member(&val[i]) {
                return false;
            }
            i += 1;
        }
        true
    }

    fn same(&self, other: &Self) -> (res: bool) {
        self.element_domain.same(&other.element_domain)
    }

    fn replicate(&self) -> (res: Self) {
        VectorDomain { element_domain: self.element_domain.replicate() }
    }
}

/// The vectors of a vector domain that have one given length.
pub struct SizedDomain<D: Domain> {
    pub element_domain: D,
    pub length: usize,
}

impl<D: Domain> SizedDomain<VectorDomain<D>> {
    pub fn new(element_domain: VectorDomain<D>, length: usize) -> (res: Self)
        ensures
            res.element_domain == element_domain,
            res.length == length,
    {
        SizedDomain { element_domain, length }
    }
}

impl<D: Domain> Domain for SizedDomain<VectorDomain<D>> {
    type Carrier = Vec<D::Carrier>;

    open spec fn contains(&self, val: Vec<D::Carrier>) -> bool {
        val@.len() == self.length && self.element_domain.contains(val)
    }

    fn member(&self, val: &Vec<D::Carrier>) -> (res: bool) {
        val.len() == self.length && self.element_domain.member(val)
    }

    fn same(&self, other: &Self) -> (res: bool) {
        self.length == other.length && self.element_domain.same(&other.element_domain)
    }

    fn replicate(&self) -> (res: Self) {
        SizedDomain { element_domain: self.element_domain.replicate(), length: self.length }
    }
}

/// The values between two bounds, the bounds included.
pub struct IntervalDomain<T> {
    pub lower: T,
    pub upper: T,
}

impl<T: TotalOrder + Copy> IntervalDomain<T> {
    pub fn new(lower: T, upper: T) -> (res: Self)
        ensures
            res.lower == lower,
            res.upper == upper,
    {
        IntervalDomain { lower, upper }
    }
}

impl<T: TotalOrder + Copy> Domain for IntervalDomain<T> {
    type Carrier = T;

    open spec fn contains(&self, val: T) -> bool {
        self.lower.rank() <= val.rank() <= self.upper.rank()
    }

    fn member(&self, val: &T) -> (res: bool) {
        self.lower.at_most(val) && val.at_most(&self.upper)
    }

    fn same(&self, other: &Self) -> (res: bool) {
        proof {
            self.lower.lemma_rank(&other.lower);
            self.upper.lemma_rank(&other.upper);
        }
        self.lower.at_most(&other.lower) && other.lower.at_most(&self.lower) && self.upper.at_most(
            &other.upper,
        ) && other.upper.at_most(&self.upper)
    }

    fn replicate(&self) -> (res: Self) {
        IntervalDomain { lower: self.lower, upper: self.upper }
    }
}

/// The values of a domain, and beside them the missing value.
pub struct OptionNullDomain<D: Domain> {
    pub element_domain: D,
}

impl<D: Domain> OptionNullDomain<D> {
    pub fn new(element_domain: D) -> (res: Self)
        ensures
            res.element_domain == element_domain,
    {
        OptionNullDomain { element_domain }
    }
}

impl<D: Domain> Domain for OptionNullDomain<D> {
    type Carrier = Option<D::Carrier>;

    open spec fn contains(&self, val: Option<D::Carrier>) -> bool {
        match val {
            Some(v) => self.element_domain.contains(v),
            None => true,
        }
    }

    fn member(&self, val: &Option<D::Carrier>) -> (res: bool) {
        match val {
            Some(v) => self.element_domain.member(v),
            None => true,
        }
    }

    fn same(&self, other: &Self) -> (res: bool) {
        self.element_domain.same(&other.element_domain)
    }

    fn replicate(&self) -> (res: Self) {
        OptionNullDomain { element_domain: self.element_domain.replicate() }
    }
}

} // verus!

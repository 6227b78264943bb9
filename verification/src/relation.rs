use vstd::prelude::*;
use std::marker::PhantomData;
use std::rc::Rc;
use crate::dist::{Measure, Metric};
use crate::error::{Error, Fallible};
use crate::function::share;
use crate::traits::{exact_cast, DistanceConstant};

verus! {

/// A deterministic map from one kind of distance to another.
pub trait DistanceMap<A, B> {
    /// Whether the map may be applied to `a`.
    spec fn defined(&self, a: A) -> bool;

    /// What the map gives on `a`.
    spec fn image(&self, a: A) -> B;

    /// Applies the map.
    fn apply(&self, a: &A) -> (res: B)
        requires
            self.defined(*a),
        ensures
            res == self.image(*a),
    ;
}

/// A deterministic map from a pair of distances: a predicate on an input and
/// an output distance, or a hint that proposes a distance between them.
pub trait DistancePairMap<A, B, C> {
    /// Whether the map may be applied to the pair.
    spec fn accepts(&self, a: A, b: B) -> bool;

    /// What the map gives on the pair.
    spec fn outcome(&self, a: A, b: B) -> C;

    /// Applies the map.
    fn decide(&self, a: &A, b: &B) -> (res: C)
        requires
            self.accepts(*a, *b),
        ensures
            res == self.outcome(*a, *b),
    ;
}

/// A closure is a distance map where it allows the call and has one result.
impl<A, B, F: Fn(&A) -> B> DistanceMap<A, B> for F {
    open spec fn defined(&self, a: A) -> bool {
        &&& call_requires(*self, (&a,))
        &&& forall|b1: B, b2: B|
            call_ensures(*self, (&a,), b1) && call_ensures(*self, (&a,), b2) ==> b1 == b2
    }

    open spec fn image(&self, a: A) -> B {
        choose|b: B| call_ensures(*self, (&a,), b)
    }

    fn apply(&self, a: &A) -> (res: B) {
        self(a)
    }
}

/// A closure of two arguments is a map on pairs where it allows the call and
/// has one result.
impl<A, B, C, F: Fn(&A, &B) -> C> DistancePairMap<A, B, C> for F {
    open spec fn accepts(&self, a: A, b: B) -> bool {
        &&& call_requires(*self, (&a, &b))
        &&& forall|c1: C, c2: C|
            call_ensures(*self, (&a, &b), c1) && call_ensures(*self, (&a, &b), c2) ==> c1 == c2
    }

    open spec fn outcome(&self, a: A, b: B) -> C {
        choose|c: C| call_ensures(*self, (&a, &b), c)
    }

    fn decide(&self, a: &A, b: &B) -> (res: C) {
        self(a, b)
    }
}

/// The mark of a backward map that a privacy relation does not have.
pub struct Unset;

/// The map that takes a distance to the same distance in another type. As a
/// hint for the distance between two stages, it proposes the input distance.
pub struct Cast;

impl<A: DistanceConstant, B: DistanceConstant> DistanceMap<A, B> for Cast {
    open spec fn defined(&self, a: A) -> bool {
        B::representable(a.value())
    }

    open spec fn image(&self, a: A) -> B {
        B::from_value(a.value())
    }

    fn apply(&self, a: &A) -> (res: B) {
        let cast: Option<B> = exact_cast(a);
        let cast: B = cast.unwrap();
        proof {
            B::lemma_representable(a.value());
            cast.lemma_value(&B::from_value(a.value()));
        }
        cast
    }
}

impl<A: DistanceConstant, B, C: DistanceConstant> DistancePairMap<A, B, C> for Cast {
    open spec fn accepts(&self, a: A, b: B) -> bool {
        C::representable(a.value())
    }

    open spec fn outcome(&self, a: A, b: B) -> C {
        C::from_value(a.value())
    }

    fn decide(&self, a: &A, b: &B) -> (res: C) {
        let cast: Option<C> = exact_cast(a);
        let cast: C = cast.unwrap();
        proof {
            C::lemma_representable(a.value());
            cast.lemma_value(&C::from_value(a.value()));
        }
        cast
    }
}

/// The predicate that gives one verdict on every pair of distances.
pub struct Fixed {
    pub verdict: bool,
}

impl<A, B> DistancePairMap<A, B, bool> for Fixed {
    open spec fn accepts(&self, a: A, b: B) -> bool {
        true
    }

    open spec fn outcome(&self, a: A, b: B) -> bool {
        self.verdict
    }

    fn decide(&self, a: &A, b: &B) -> (res: bool) {
        self.verdict
    }
}

impl<A, B> DistancePairMap<A, B, Fallible<bool>> for Fixed {
    open spec fn accepts(&self, a: A, b: B) -> bool {
        true
    }

    open spec fn outcome(&self, a: A, b: B) -> Fallible<bool> {
        Ok(self.verdict)
    }

    fn decide(&self, a: &A, b: &B) -> (res: Fallible<bool>) {
        Ok(self.verdict)
    }
}

/// A proposal for the distance between a transformation and a measurement
/// that are chained.
pub struct HintMt<MI: Metric, MX: Metric, MO: Measure, H> {
    pub hint: Rc<H>,
    pub _marker: PhantomData<(MI, MX, MO)>,
}

impl<MI: Metric, MX: Metric, MO: Measure, H: DistancePairMap<
    MI::Distance,
    MO::Distance,
    MX::Distance,
>> HintMt<MI, MX, MO, H> {
    pub fn new(hint: H) -> (res: Self)
        ensures
            *res.hint == hint,
    {
        HintMt { hint: Rc::new(hint), _marker: PhantomData }
    }

    /// The proposed distance.
    pub fn eval(&self, input_distance: &MI::Distance, output_distance: &MO::Distance) -> (res:
        MX::Distance)
        requires
            self.hint.accepts(*input_distance, *output_distance),
        ensures
            res == self.hint.outcome(*input_distance, *output_distance),
    {
        self.hint.decide(input_distance, output_distance)
    }
}

impl<MI: Metric, MX: Metric, MO: Measure, H: DistancePairMap<
    MI::Distance,
    MO::Distance,
    MX::Distance,
>> Clone for HintMt<MI, MX, MO, H> {
    /// A copy that shares the hint.
    fn clone(&self) -> (res: Self)
        ensures
            res == *self,
    {
        HintMt { hint: share(&self.hint), _marker: PhantomData }
    }
}

/// A proposal for the distance between two transformations that are chained.
pub struct HintTt<MI: Metric, MO: Metric, MX: Metric, H> {
    pub hint: Rc<H>,
    pub _marker: PhantomData<(MI, MO, MX)>,
}

impl<MI: Metric, MO: Metric, MX: Metric, H: DistancePairMap<
    MI::Distance,
    MO::Distance,
    MX::Distance,
>> HintTt<MI, MO, MX, H> {
    pub fn new(hint: H) -> (res: Self)
        ensures
            *res.hint == hint,
    {
        HintTt { hint: Rc::new(hint), _marker: PhantomData }
    }

    /// The proposed distance.
    pub fn eval(&self, input_distance: &MI::Distance, output_distance: &MO::Distance) -> (res:
        MX::Distance)
        requires
            self.hint.accepts(*input_distance, *output_distance),
        ensures
            res == self.hint.outcome(*input_distance, *output_distance),
    {
        self.hint.decide(input_distance, output_distance)
    }

    /// A copy that shares the hint.
    pub fn replicate(&self) -> (res: Self)
        ensures
            res == *self,
    {
        HintTt { hint: share(&self.hint), _marker: PhantomData }
    }
}

impl<MI: Metric, MO: Metric, MX: Metric, H: DistancePairMap<
    MI::Distance,
    MO::Distance,
    MX::Distance,
>> Clone for HintTt<MI, MO, MX, H> {
    /// A copy that shares the hint.
    fn clone(&self) -> (res: Self)
        ensures
            res == *self,
    {
        self.replicate()
    }
}

/// A predicate that cannot fail, as one whose every answer is a success.
pub struct Infallible<R> {
    pub inner: R,
}

impl<A, B, R: DistancePairMap<A, B, bool>> DistancePairMap<A, B, Fallible<bool>> for Infallible<R> {
    open spec fn accepts(&self, a: A, b: B) -> bool {
        self.inner.accepts(a, b)
    }

    open spec fn outcome(&self, a: A, b: B) -> Fallible<bool> {
        Ok(self.inner.outcome(a, b))
    }

    fn decide(&self, a: &A, b: &B) -> (res: Fallible<bool>) {
        Ok(self.inner.decide(a, b))
    }
}

/// The relation of a measurement: whether inputs at most `d_in` apart give
/// output distributions at most `d_out` apart. The predicate may refuse a
/// pair of distances with an error, and may come with a map from an output
/// distance to the input distance that it allows.
pub struct PrivacyRelation<MI: Metric, MO: Measure, R, B> {
    pub relation: Rc<R>,
    pub backward_map: Option<Rc<B>>,
    pub _marker: PhantomData<(MI, MO)>,
}

impl<MI: Metric, MO: Measure, R: DistancePairMap<
    MI::Distance,
    MO::Distance,
    bool,
>> PrivacyRelation<MI, MO, Infallible<R>, Unset> {
    /// The relation given by a predicate that cannot fail, without a
    /// backward map.
    pub fn new(relation: R) -> (res: Self)
        ensures
            res.relation.inner == relation,
            res.backward_map is None,
    {
        PrivacyRelation {
            relation: Rc::new(Infallible { inner: relation }),
            backward_map: None,
            _marker: PhantomData,
        }
    }
}

impl<MI: Metric, MO: Measure, R: DistancePairMap<MI::Distance, MO::Distance, bool>, B: DistanceMap<
    MO::Distance,
    MI::Distance,
>> PrivacyRelation<MI, MO, Infallible<R>, B> {
    /// The relation given by a predicate that cannot fail and, where there
    /// is one, a backward map.
    pub fn new_all(relation: R, backward_map: Option<B>) -> (res: Self)
        ensures
            res.relation.inner == relation,
            backward_map is None <==> res.backward_map is None,
            backward_map matches Some(b) ==> *res.backward_map->Some_0 == b,
    {
        let backward_map = match backward_map {
            Some(b) => Some(Rc::new(b)),
            None => None,
        };
        PrivacyRelation {
            relation: Rc::new(Infallible { inner: relation }),
            backward_map,
            _marker: PhantomData,
        }
    }
}

impl<MI: Metric, MO: Measure, R: DistancePairMap<
    MI::Distance,
    MO::Distance,
    Fallible<bool>,
>, B: DistanceMap<MO::Distance, MI::Distance>> PrivacyRelation<MI, MO, R, B> {
    /// The relation given by a predicate that may refuse a pair of distances
    /// and, where there is one, a backward map.
    pub fn new_fallible(relation: R, backward_map: Option<B>) -> (res: Self)
        ensures
            *res.relation == relation,
            backward_map is None <==> res.backward_map is None,
            backward_map matches Some(b) ==> *res.backward_map->Some_0 == b,
    {
        let backward_map = match backward_map {
            Some(b) => Some(Rc::new(b)),
            None => None,
        };
        PrivacyRelation { relation: Rc::new(relation), backward_map, _marker: PhantomData }
    }
}

impl<MI: Metric, MO: Measure, R: DistancePairMap<
    MI::Distance,
    MO::Distance,
    Fallible<bool>,
>, B> PrivacyRelation<MI, MO, R, B> {
    /// Whether the relation may be evaluated on the pair.
    pub open spec fn evaluable(&self, input_distance: MI::Distance, output_distance: MO::Distance) -> bool {
        self.relation.accepts(input_distance, output_distance)
    }

    /// What the predicate answers on the pair.
    pub open spec fn verdict(&self, input_distance: MI::Distance, output_distance: MO::Distance) -> Fallible<bool> {
        self.relation.outcome(input_distance, output_distance)
    }

    /// Whether the relation holds of the pair.
    pub open spec fn relates(&self, input_distance: MI::Distance, output_distance: MO::Distance) -> bool {
        self.verdict(input_distance, output_distance) == Ok::<bool, Error>(true)
    }

    /// Evaluates the relation: whether it holds of the pair.
    pub fn eval(&self, input_distance: &MI::Distance, output_distance: &MO::Distance) -> (res: bool)
        requires
            self.evaluable(*input_distance, *output_distance),
        ensures
            res == self.relates(*input_distance, *output_distance),
    {
        match self.relation.decide(input_distance, output_distance) {
            Ok(holds) => holds,
            Err(_) => false,
        }
    }

    /// Evaluates the relation, and reports where the predicate refuses the
    /// pair.
    pub fn try_eval(&self, input_distance: &MI::Distance, output_distance: &MO::Distance) -> (res:
        Fallible<bool>)
        requires
            self.evaluable(*input_distance, *output_distance),
        ensures
            res == self.verdict(*input_distance, *output_distance),
    {
        self.relation.decide(input_distance, output_distance)
    }

    /// A copy that shares the predicate and the map.
    pub fn replicate(&self) -> (res: Self)
        ensures
            res == *self,
    {
        let backward_map = match &self.backward_map {
            Some(b) => Some(share(b)),
            None => None,
        };
        PrivacyRelation { relation: share(&self.relation), backward_map, _marker: PhantomData }
    }
}

impl<MI: Metric, MO: Measure, R: DistancePairMap<
    MI::Distance,
    MO::Distance,
    Fallible<bool>,
>, B> Clone for PrivacyRelation<MI, MO, R, B> {
    /// A copy that shares the predicate and the map.
    fn clone(&self) -> (res: Self)
        ensures
            res == *self,
    {
        self.replicate()
    }
}

} // verus!

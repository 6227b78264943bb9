use vstd::prelude::*;
use std::marker::PhantomData;
use std::rc::Rc;
use crate::dist::Metric;
use crate::error::{Error, ErrorVariant, Fallible};
use crate::function::share;
use crate::relation::{Cast, DistanceMap, DistancePairMap, Fixed, HintTt};
use crate::traits::{at_least, checked_product, checked_quotient, exact_cast, truncated_quotient, DistanceConstant};

verus! {

/// The relation of a transformation: whether inputs at most `d_in` apart
/// give outputs at most `d_out` apart.
///
/// It is held in the most structured of three forms that is known: a
/// constant, a map, or a bare predicate.
pub enum StabilityRelation<MI: Metric, MO: Metric, R, F, B> {
    /// A predicate on the two distances.
    Function(Rc<R>),
    /// The least output distance for each input distance, and, where it is
    /// known, the greatest input distance for each output distance.
    Mapped { forward: Rc<F>, backward: Option<Rc<B>> },
    /// A factor: the least output distance is the input distance, taken to
    /// the output's type, times the factor.
    Constant { value: MO::Distance, input_metric: PhantomData<MI> },
}

impl<MI: Metric, MO: Metric, R: DistancePairMap<
    MI::Distance,
    MO::Distance,
    bool,
>> StabilityRelation<MI, MO, R, Cast, Cast> {
    /// The relation given by a predicate.
    pub fn new(relation: R) -> (res: Self)
        ensures
            res matches StabilityRelation::Function(r) && *r == relation,
    {
        StabilityRelation::Function(Rc::new(relation))
    }
}

impl<MI: Metric, MO: Metric, F: DistanceMap<MI::Distance, MO::Distance>, B: DistanceMap<
    MO::Distance,
    MI::Distance,
>> StabilityRelation<MI, MO, Fixed, F, B> {
    /// The relation given by a forward map and, where there is one, a
    /// backward map.
    pub fn new_from_map(forward_map: F, backward_map: Option<B>) -> (res: Self)
        ensures
            res matches StabilityRelation::Mapped { forward, backward } && {
                &&& *forward == forward_map
                &&& backward is None <==> backward_map is None
                &&& backward_map matches Some(b) ==> *backward->Some_0 == b
            },
    {
        let backward = match backward_map {
            Some(b) => Some(Rc::new(b)),
            None => None,
        };
        StabilityRelation::Mapped { forward: Rc::new(forward_map), backward }
    }
}

impl<MI: Metric, MO: Metric> StabilityRelation<MI, MO, Fixed, Cast, Cast> {
    /// The relation given by a factor.
    pub fn new_from_constant(value: MO::Distance) -> (res: Self)
        ensures
            res matches StabilityRelation::Constant { value: held, .. } && held == value,
    {
        StabilityRelation::Constant { value, input_metric: PhantomData }
    }
}

impl<MI, MO, R, F, B> StabilityRelation<MI, MO, R, F, B> where
    MI: Metric,
    MO: Metric,
    MI::Distance: DistanceConstant,
    MO::Distance: DistanceConstant,
    R: DistancePairMap<MI::Distance, MO::Distance, bool>,
    F: DistanceMap<MI::Distance, MO::Distance>,
    B: DistanceMap<MO::Distance, MI::Distance>,
 {
    /// Whether the relation has a forward map.
    pub open spec fn has_forward(&self) -> bool {
        !(self is Function)
    }

    /// Whether the relation has a backward map.
    pub open spec fn has_backward(&self) -> bool {
        match self {
            StabilityRelation::Function(_) => false,
            StabilityRelation::Mapped { forward, backward } => backward is Some,
            StabilityRelation::Constant { value, .. } => true,
        }
    }

    /// Whether the forward map may be taken at `d_in`: a map must allow it,
    /// and with a factor the result must fit the output's type.
    pub open spec fn forward_defined(&self, d_in: MI::Distance) -> bool {
        match self {
            StabilityRelation::Function(_) => true,
            StabilityRelation::Mapped { forward, backward } => forward.defined(d_in),
            StabilityRelation::Constant { value, .. } => {
                &&& MO::Distance::representable(d_in.value())
                &&& MO::Distance::representable(d_in.value() * value.value())
            },
        }
    }

    /// The least output distance that the relation allows for `d_in`, where
    /// the relation has a forward map.
    pub open spec fn forward_spec(&self, d_in: MI::Distance) -> Option<MO::Distance> {
        match self {
            StabilityRelation::Function(_) => None,
            StabilityRelation::Mapped { forward, backward } => Some(forward.image(d_in)),
            StabilityRelation::Constant { value, .. } => Some(
                MO::Distance::from_value(d_in.value() * value.value()),
            ),
        }
    }

    /// Whether the backward map may be taken at `d_out`: a map must allow it,
    /// and with a factor the factor must not be zero and the quotient must
    /// fit both types.
    pub open spec fn backward_defined(&self, d_out: MO::Distance) -> bool {
        match self {
            StabilityRelation::Function(_) => true,
            StabilityRelation::Mapped { forward, backward } => match backward {
                Some(b) => b.defined(d_out),
                None => true,
            },
            StabilityRelation::Constant { value, .. } => {
                &&& value.value() != 0
                &&& MO::Distance::representable(truncated_quotient(d_out.value(), value.value()))
                &&& MI::Distance::representable(truncated_quotient(d_out.value(), value.value()))
            },
        }
    }

    /// The input distance that the backward map gives for `d_out`, where the
    /// relation has a backward map.
    pub open spec fn backward_spec(&self, d_out: MO::Distance) -> Option<MI::Distance> {
        match self {
            StabilityRelation::Function(_) => None,
            StabilityRelation::Mapped { forward, backward } => match backward {
                Some(b) => Some(b.image(d_out)),
                None => None,
            },
            StabilityRelation::Constant { value, .. } => Some(
                MI::Distance::from_value(truncated_quotient(d_out.value(), value.value())),
            ),
        }
    }

    /// Whether the relation may be evaluated on the pair.
    pub open spec fn evaluable(&self, d_in: MI::Distance, d_out: MO::Distance) -> bool {
        match self {
            StabilityRelation::Function(r) => r.accepts(d_in, d_out),
            _ => self.forward_defined(d_in),
        }
    }

    /// Whether the relation holds of the pair: what the predicate says, or
    /// that `d_out` is at least what the forward map gives for `d_in`.
    pub open spec fn relates(&self, d_in: MI::Distance, d_out: MO::Distance) -> bool {
        match self {
            StabilityRelation::Function(r) => r.outcome(d_in, d_out),
            _ => d_out.value() >= self.forward_spec(d_in)->Some_0.value(),
        }
    }

    /// Evaluates the relation.
    pub fn eval(&self, d_in: &MI::Distance, d_out: &MO::Distance) -> (res: bool)
        requires
            self.evaluable(*d_in, *d_out),
        ensures
            res == self.relates(*d_in, *d_out),
    {
        match self {
            StabilityRelation::Function(relate) => relate.decide(d_in, d_out),
            _ => {
                let d_out_map = self.forward_map(d_in);
                match d_out_map {
                    Some(least) => at_least(d_out, &least),
                    None => unreached(),
                }
            },
        }
    }

    /// The least output distance that the relation allows for `d_in`; `None`
    /// for a bare predicate.
    pub fn forward_map(&self, d_in: &MI::Distance) -> (res: Option<MO::Distance>)
        requires
            self.forward_defined(*d_in),
        ensures
            res == self.forward_spec(*d_in),
    {
        match self {
            StabilityRelation::Function(_) => None,
            StabilityRelation::Mapped { forward, backward } => Some(forward.apply(d_in)),
            StabilityRelation::Constant { value, .. } => {
                let cast: Option<MO::Distance> = exact_cast(d_in);
                let cast: MO::Distance = cast.unwrap();
                let product = checked_product(&cast, value).unwrap();
                proof {
                    let v = d_in.value() * value.value();
                    MO::Distance::lemma_representable(v);
                    product.lemma_value(&MO::Distance::from_value(v));
                }
                Some(product)
            },
        }
    }

    /// The input distance that the backward map gives for `d_out`; `None`
    /// where the relation has no backward map.
    pub fn backward_map(&self, d_out: &MO::Distance) -> (res: Option<MI::Distance>)
        requires
            self.backward_defined(*d_out),
        ensures
            res == self.backward_spec(*d_out),
    {
        match self {
            StabilityRelation::Function(_) => None,
            StabilityRelation::Mapped { forward, backward } => match backward {
                Some(b) => Some(b.apply(d_out)),
                None => None,
            },
            StabilityRelation::Constant { value, .. } => {
                let quotient = checked_quotient(d_out, value).unwrap();
                let cast: Option<MI::Distance> = exact_cast(&quotient);
                let cast: MI::Distance = cast.unwrap();
                proof {
                    let v = truncated_quotient(d_out.value(), value.value());
                    MI::Distance::lemma_representable(v);
                    cast.lemma_value(&MI::Distance::from_value(v));
                }
                Some(cast)
            },
        }
    }

    /// The forward map, where a factor's product that leaves the output's
    /// type is reported as a failed cast.
    pub fn try_forward_map(&self, d_in: &MI::Distance) -> (res: Fallible<Option<MO::Distance>>)
        requires
            !(self is Constant) ==> self.forward_defined(*d_in),
        ensures
            res is Ok <==> self.forward_defined(*d_in),
            res matches Ok(d_out) ==> d_out == self.forward_spec(*d_in),
            res matches Err(e) ==> e.variant == ErrorVariant::NumericCast,
    {
        match self {
            StabilityRelation::Constant { value, .. } => {
                let cast: Option<MO::Distance> = exact_cast(d_in);
                match cast {
                    None => Err(Error::new(ErrorVariant::NumericCast)),
                    Some(cast) => match checked_product(&cast, value) {
                        None => Err(Error::new(ErrorVariant::NumericCast)),
                        Some(_) => Ok(self.forward_map(d_in)),
                    },
                }
            },
            _ => Ok(self.forward_map(d_in)),
        }
    }

    /// The backward map, where a factor that is zero or a quotient that
    /// leaves one of the types is reported as a failed cast.
    pub fn try_backward_map(&self, d_out: &MO::Distance) -> (res: Fallible<Option<MI::Distance>>)
        requires
            !(self is Constant) ==> self.backward_defined(*d_out),
        ensures
            res is Ok <==> self.backward_defined(*d_out),
            res matches Ok(d_in) ==> d_in == self.backward_spec(*d_out),
            res matches Err(e) ==> e.variant == ErrorVariant::NumericCast,
    {
        match self {
            StabilityRelation::Constant { value, .. } => {
                match checked_quotient(d_out, value) {
                    None => Err(Error::new(ErrorVariant::NumericCast)),
                    Some(quotient) => {
                        let cast: Option<MI::Distance> = exact_cast(&quotient);
                        match cast {
                            None => Err(Error::new(ErrorVariant::NumericCast)),
                            Some(_) => Ok(self.backward_map(d_out)),
                        }
                    },
                }
            },
            _ => Ok(self.backward_map(d_out)),
        }
    }

    /// Evaluates the relation, and reports a factor's product that leaves
    /// the output's type as a failed cast.
    pub fn try_eval(&self, d_in: &MI::Distance, d_out: &MO::Distance) -> (res: Fallible<bool>)
        requires
            !(self is Constant) ==> self.evaluable(*d_in, *d_out),
        ensures
            res is Ok <==> self.evaluable(*d_in, *d_out),
            res matches Ok(holds) ==> holds == self.relates(*d_in, *d_out),
            res matches Err(e) ==> e.variant == ErrorVariant::NumericCast,
    {
        match self {
            StabilityRelation::Constant { value, .. } => {
                let cast: Option<MO::Distance> = exact_cast(d_in);
                match cast {
                    None => Err(Error::new(ErrorVariant::NumericCast)),
                    Some(cast) => match checked_product(&cast, value) {
                        None => Err(Error::new(ErrorVariant::NumericCast)),
                        Some(_) => Ok(self.eval(d_in, d_out)),
                    },
                }
            },
            _ => Ok(self.eval(d_in, d_out)),
        }
    }

    /// A copy that shares the predicate and the maps.
    pub fn replicate(&self) -> (res: Self)
        ensures
            res == *self,
    {
        match self {
            StabilityRelation::Function(r) => StabilityRelation::Function(share(r)),
            StabilityRelation::Mapped { forward, backward } => {
                let backward = match backward {
                    Some(b) => Some(share(b)),
                    None => None,
                };
                StabilityRelation::Mapped { forward: share(forward), backward }
            },
            StabilityRelation::Constant { value, .. } => StabilityRelation::Constant {
                value: value.replicate(),
                input_metric: PhantomData,
            },
        }
    }
}

impl<MI, MO, R, F, B> Clone for StabilityRelation<MI, MO, R, F, B> where
    MI: Metric,
    MO: Metric,
    MI::Distance: DistanceConstant,
    MO::Distance: DistanceConstant,
    R: DistancePairMap<MI::Distance, MO::Distance, bool>,
    F: DistanceMap<MI::Distance, MO::Distance>,
    B: DistanceMap<MO::Distance, MI::Distance>,
 {
    /// A copy that shares the predicate and the maps.
    fn clone(&self) -> (res: Self)
        ensures
            res == *self,
    {
        self.replicate()
    }
}

/// The type of the relation that chaining two relations gives.
pub type ChainOf<MI, MX, MO, R0, F0, B0, R1, F1, B1, H> = StabilityRelation<
    MI,
    MO,
    ChainedRelation<
        StabilityRelation<MI, MX, R0, F0, B0>,
        StabilityRelation<MX, MO, R1, F1, B1>,
        HintTt<MI, MO, MX, H>,
    >,
    ChainedForward<StabilityRelation<MI, MX, R0, F0, B0>, StabilityRelation<MX, MO, R1, F1, B1>>,
    ChainedBackward<StabilityRelation<MI, MX, R0, F0, B0>, StabilityRelation<MX, MO, R1, F1, B1>>,
>;

/// The forward maps of two relations, one after the other.
pub struct ChainedForward<S0, S1> {
    pub first: S0,
    pub second: S1,
}

impl<MI, MX, MO, R0, F0, B0, R1, F1, B1> DistanceMap<MI::Distance, MO::Distance> for ChainedForward<
    StabilityRelation<MI, MX, R0, F0, B0>,
    StabilityRelation<MX, MO, R1, F1, B1>,
> where
    MI: Metric,
    MX: Metric,
    MO: Metric,
    MI::Distance: DistanceConstant,
    MX::Distance: DistanceConstant,
    MO::Distance: DistanceConstant,
    R0: DistancePairMap<MI::Distance, MX::Distance, bool>,
    F0: DistanceMap<MI::Distance, MX::Distance>,
    B0: DistanceMap<MX::Distance, MI::Distance>,
    R1: DistancePairMap<MX::Distance, MO::Distance, bool>,
    F1: DistanceMap<MX::Distance, MO::Distance>,
    B1: DistanceMap<MO::Distance, MX::Distance>,
 {
    open spec fn defined(&self, d_in: MI::Distance) -> bool {
        &&& self.first.has_forward()
        &&& self.second.has_forward()
        &&& self.first.forward_defined(d_in)
        &&& self.second.forward_defined(self.first.forward_spec(d_in)->Some_0)
    }

    open spec fn image(&self, d_in: MI::Distance) -> MO::Distance {
        self.second.forward_spec(self.first.forward_spec(d_in)->Some_0)->Some_0
    }

    fn apply(&self, d_in: &MI::Distance) -> (res: MO::Distance) {
        let d_mid = self.first.forward_map(d_in).unwrap();
        self.second.forward_map(&d_mid).unwrap()
    }
}

/// The backward maps of two relations, the second relation's first.
pub struct ChainedBackward<S0, S1> {
    pub first: S0,
    pub second: S1,
}

impl<MI, MX, MO, R0, F0, B0, R1, F1, B1> DistanceMap<MO::Distance, MI::Distance> for ChainedBackward<
    StabilityRelation<MI, MX, R0, F0, B0>,
    StabilityRelation<MX, MO, R1, F1, B1>,
> where
    MI: Metric,
    MX: Metric,
    MO: Metric,
    MI::Distance: DistanceConstant,
    MX::Distance: DistanceConstant,
    MO::Distance: DistanceConstant,
    R0: DistancePairMap<MI::Distance, MX::Distance, bool>,
    F0: DistanceMap<MI::Distance, MX::Distance>,
    B0: DistanceMap<MX::Distance, MI::Distance>,
    R1: DistancePairMap<MX::Distance, MO::Distance, bool>,
    F1: DistanceMap<MX::Distance, MO::Distance>,
    B1: DistanceMap<MO::Distance, MX::Distance>,
 {
    open spec fn defined(&self, d_out: MO::Distance) -> bool {
        &&& self.first.has_backward()
        &&& self.second.has_backward()
        &&& self.second.backward_defined(d_out)
        &&& self.first.backward_defined(self.second.backward_spec(d_out)->Some_0)
    }

    open spec fn image(&self, d_out: MO::Distance) -> MI::Distance {
        self.first.backward_spec(self.second.backward_spec(d_out)->Some_0)->Some_0
    }

    fn apply(&self, d_out: &MO::Distance) -> (res: MI::Distance) {
        let d_mid = self.second.backward_map(d_out).unwrap();
        self.first.backward_map(&d_mid).unwrap()
    }
}

/// The predicate of two chained relations of which one at least is a bare
/// predicate.
///
/// With a hint, the hint proposes the distance between the stages and both
/// relations are asked. Without one, the map of the one relation takes a
/// distance to the predicate of the other.
pub struct ChainedRelation<S0, S1, T> {
    pub first: S0,
    pub second: S1,
    pub hint: Option<T>,
}

impl<MI, MX, MO, R0, F0, B0, R1, F1, B1, H> DistancePairMap<
    MI::Distance,
    MO::Distance,
    bool,
> for ChainedRelation<
    StabilityRelation<MI, MX, R0, F0, B0>,
    StabilityRelation<MX, MO, R1, F1, B1>,
    HintTt<MI, MO, MX, H>,
> where
    MI: Metric,
    MX: Metric,
    MO: Metric,
    MI::Distance: DistanceConstant,
    MX::Distance: DistanceConstant,
    MO::Distance: DistanceConstant,
    R0: DistancePairMap<MI::Distance, MX::Distance, bool>,
    F0: DistanceMap<MI::Distance, MX::Distance>,
    B0: DistanceMap<MX::Distance, MI::Distance>,
    R1: DistancePairMap<MX::Distance, MO::Distance, bool>,
    F1: DistanceMap<MX::Distance, MO::Distance>,
    B1: DistanceMap<MO::Distance, MX::Distance>,
    H: DistancePairMap<MI::Distance, MO::Distance, MX::Distance>,
 {
    open spec fn accepts(&self, d_in: MI::Distance, d_out: MO::Distance) -> bool {
        match self.hint {
            Some(hint) => {
                let d_mid = hint.hint.outcome(d_in, d_out);
                &&& hint.hint.accepts(d_in, d_out)
                &&& self.first.evaluable(d_in, d_mid)
                &&& self.first.relates(d_in, d_mid) ==> self.second.evaluable(d_mid, d_out)
            },
            None => if self.first.has_forward() && self.second is Function {
                &&& self.first.forward_defined(d_in)
                &&& self.second.evaluable(self.first.forward_spec(d_in)->Some_0, d_out)
            } else if self.first is Function && self.second.has_backward() {
                &&& self.second.backward_defined(d_out)
                &&& self.first.evaluable(d_in, self.second.backward_spec(d_out)->Some_0)
            } else {
                false
            },
        }
    }

    open spec fn outcome(&self, d_in: MI::Distance, d_out: MO::Distance) -> bool {
        match self.hint {
            Some(hint) => {
                let d_mid = hint.hint.outcome(d_in, d_out);
                self.first.relates(d_in, d_mid) && self.second.relates(d_mid, d_out)
            },
            None => if self.first.has_forward() {
                self.second.relates(self.first.forward_spec(d_in)->Some_0, d_out)
            } else {
                self.first.relates(d_in, self.second.backward_spec(d_out)->Some_0)
            },
        }
    }

    fn decide(&self, d_in: &MI::Distance, d_out: &MO::Distance) -> (res: bool) {
        match &self.hint {
            Some(hint) => {
                let d_mid = hint.eval(d_in, d_out);
                self.first.eval(d_in, &d_mid) && self.second.eval(&d_mid, d_out)
            },
            None => match &self.first {
                StabilityRelation::Function(_) => {
                    let d_mid = self.second.backward_map(d_out).unwrap();
                    self.first.eval(d_in, &d_mid)
                },
                _ => {
                    let d_mid = self.first.forward_map(d_in).unwrap();
                    self.second.eval(&d_mid, d_out)
                },
            },
        }
    }
}

impl<MI, MX, MO, R0, F0, B0, R1, F1, B1, H> StabilityRelation<
    MI,
    MO,
    ChainedRelation<
        StabilityRelation<MI, MX, R0, F0, B0>,
        StabilityRelation<MX, MO, R1, F1, B1>,
        HintTt<MI, MO, MX, H>,
    >,
    ChainedForward<StabilityRelation<MI, MX, R0, F0, B0>, StabilityRelation<MX, MO, R1, F1, B1>>,
    ChainedBackward<StabilityRelation<MI, MX, R0, F0, B0>, StabilityRelation<MX, MO, R1, F1, B1>>,
> where
    MI: Metric,
    MX: Metric,
    MO: Metric,
    MI::Distance: DistanceConstant,
    MX::Distance: DistanceConstant,
    MO::Distance: DistanceConstant,
    R0: DistancePairMap<MI::Distance, MX::Distance, bool>,
    F0: DistanceMap<MI::Distance, MX::Distance>,
    B0: DistanceMap<MX::Distance, MI::Distance>,
    R1: DistancePairMap<MX::Distance, MO::Distance, bool>,
    F1: DistanceMap<MX::Distance, MO::Distance>,
    B1: DistanceMap<MO::Distance, MX::Distance>,
    H: DistancePairMap<MI::Distance, MO::Distance, MX::Distance>,
 {
    /// What chaining with a hint gives: the predicate that asks both
    /// relations at the distance that the hint proposes.
    pub open spec fn is_hinted_chain(
        &self,
        relation1: StabilityRelation<MX, MO, R1, F1, B1>,
        relation0: StabilityRelation<MI, MX, R0, F0, B0>,
        hint: HintTt<MI, MO, MX, H>,
    ) -> bool {
        self matches StabilityRelation::Function(r) && *r == (ChainedRelation {
            first: relation0,
            second: relation1,
            hint: Some(hint),
        })
    }

    /// What chaining without a hint gives, in the order in which the forms
    /// are tried: a constant for two constants; a map for two relations with
    /// forward maps; a predicate where one relation has the map that takes a
    /// distance to the other's predicate; a failure for the rest.
    pub open spec fn is_plain_chain(
        res: Fallible<Self>,
        relation1: StabilityRelation<MX, MO, R1, F1, B1>,
        relation0: StabilityRelation<MI, MX, R0, F0, B0>,
    ) -> bool {
        if relation0 is Constant && relation1 is Constant {
            let c0 = relation0->Constant_value.value();
            let c1 = relation1->Constant_value.value();
            if MO::Distance::representable(c0) && MO::Distance::representable(c0 * c1) {
                res matches Ok(StabilityRelation::Constant { value, .. }) && value.value() == c0
                    * c1
            } else {
                res matches Err(e) && e.variant == ErrorVariant::NumericCast
            }
        } else if relation0.has_forward() && relation1.has_forward() {
            res matches Ok(StabilityRelation::Mapped { forward, backward }) && {
                &&& *forward == (ChainedForward { first: relation0, second: relation1 })
                &&& backward is Some <==> relation0.has_backward() && relation1.has_backward()
                &&& backward matches Some(b) ==> *b == (ChainedBackward {
                    first: relation0,
                    second: relation1,
                })
            }
        } else if (relation0.has_forward() && relation1 is Function) || (relation0 is Function
            && relation1.has_backward()) {
            res matches Ok(StabilityRelation::Function(r)) && *r == (ChainedRelation {
                first: relation0,
                second: relation1,
                hint: None::<HintTt<MI, MO, MX, H>>,
            })
        } else {
            res matches Err(e) && e.variant == ErrorVariant::NotImplemented
        }
    }

    /// What chaining gives, with a hint or without one.
    pub open spec fn is_chain(
        res: Fallible<Self>,
        relation1: StabilityRelation<MX, MO, R1, F1, B1>,
        relation0: StabilityRelation<MI, MX, R0, F0, B0>,
        hint: Option<&HintTt<MI, MO, MX, H>>,
    ) -> bool {
        match hint {
            Some(hint) => res matches Ok(chain) && chain.is_hinted_chain(
                relation1,
                relation0,
                *hint,
            ),
            None => Self::is_plain_chain(res, relation1, relation0),
        }
    }

    /// Chains two relations: `relation0` from the input to a distance in
    /// between, `relation1` from there to the output.
    pub fn make_chain(
        relation1: &StabilityRelation<MX, MO, R1, F1, B1>,
        relation0: &StabilityRelation<MI, MX, R0, F0, B0>,
        hint: Option<&HintTt<MI, MO, MX, H>>,
    ) -> (res: Fallible<Self>)
        ensures
            Self::is_chain(res, *relation1, *relation0, hint),
    {
        match hint {
            Some(hint) => Ok(Self::make_chain_hint(relation1, relation0, hint)),
            None => Self::make_chain_no_hint(relation1, relation0),
        }
    }

    /// Chains two relations without a hint, keeping the most structured form
    /// that both allow.
    pub fn make_chain_no_hint(
        relation1: &StabilityRelation<MX, MO, R1, F1, B1>,
        relation0: &StabilityRelation<MI, MX, R0, F0, B0>,
    ) -> (res: Fallible<Self>)
        ensures
            Self::is_plain_chain(res, *relation1, *relation0),
    {
        // two constants give a constant
        if let StabilityRelation::Constant { value: value0, .. } = relation0 {
            if let StabilityRelation::Constant { value: value1, .. } = relation1 {
                let cast: Option<MO::Distance> = exact_cast(value0);
                return match cast {
                    None => Err(Error::new(ErrorVariant::NumericCast)),
                    Some(cast) => match checked_product(&cast, value1) {
                        None => Err(Error::new(ErrorVariant::NumericCast)),
                        Some(value) => Ok(
                            StabilityRelation::Constant { value, input_metric: PhantomData },
                        ),
                    },
                };
            }
        }
        let forward0: bool = match relation0 {
            StabilityRelation::Function(_) => false,
            _ => true,
        };
        let forward1: bool = match relation1 {
            StabilityRelation::Function(_) => false,
            _ => true,
        };
        let backward0: bool = match relation0 {
            StabilityRelation::Function(_) => false,
            StabilityRelation::Mapped { forward, backward } => backward.is_some(),
            StabilityRelation::Constant { .. } => true,
        };
        let backward1: bool = match relation1 {
            StabilityRelation::Function(_) => false,
            StabilityRelation::Mapped { forward, backward } => backward.is_some(),
            StabilityRelation::Constant { .. } => true,
        };
        if forward0 && forward1 {
            // two maps give a map
            let forward = ChainedForward {
                first: relation0.replicate(),
                second: relation1.replicate(),
            };
            let backward = if backward0 && backward1 {
                Some(
                    Rc::new(
                        ChainedBackward {
                            first: relation0.replicate(),
                            second: relation1.replicate(),
                        },
                    ),
                )
            } else {
                None
            };
            Ok(StabilityRelation::Mapped { forward: Rc::new(forward), backward })
        } else if (forward0 && !forward1) || (!forward0 && backward1) {
            // a map folds into the other relation's predicate
            let relation = ChainedRelation {
                first: relation0.replicate(),
                second: relation1.replicate(),
                hint: None,
            };
            Ok(StabilityRelation::Function(Rc::new(relation)))
        } else {
            // two bare predicates have no distance between them to ask at
            Err(Error::new(ErrorVariant::NotImplemented))
        }
    }

    /// Chains two relations with a hint for the distance between them.
    pub fn make_chain_hint(
        relation1: &StabilityRelation<MX, MO, R1, F1, B1>,
        relation0: &StabilityRelation<MI, MX, R0, F0, B0>,
        hint: &HintTt<MI, MO, MX, H>,
    ) -> (res: Self)
        ensures
            res.is_hinted_chain(*relation1, *relation0, *hint),
    {
        let relation = ChainedRelation {
            first: relation0.replicate(),
            second: relation1.replicate(),
            hint: Some(hint.replicate()),
        };
        StabilityRelation::Function(Rc::new(relation))
    }
}

} // verus!

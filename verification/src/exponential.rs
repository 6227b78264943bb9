use vstd::prelude::*;
use std::marker::PhantomData;
use crate::dist::{InfDifferenceDistance, MaxDivergence, SensitivityMetric, SupDistance};
use crate::dom::{AllDomain, VectorDomain};
use crate::error::{Error, ErrorVariant, Fallible};
use crate::function::{Function, Mapping};
use crate::measurement::Measurement;
use crate::order::TotalOrder;
use crate::relation::{DistanceMap, DistancePairMap, PrivacyRelation};
use crate::traits::{checked_product, DistanceConstant};
use crate::samplers::{standard_uniform_draw, Binary64, EntropyPool, SampleUniform, UniformParts};

verus! {

/// Whether `index` is the place of the first greatest key.
pub open spec fn is_first_max<K: TotalOrder>(keys: Seq<K>, index: int) -> bool {
    &&& 0 <= index < keys.len()
    &&& forall|j: int| 0 <= j < keys.len() ==> keys[j].rank() <= keys[index].rank()
    &&& forall|j: int| 0 <= j < index ==> keys[j].rank() < keys[index].rank()
}

/// The place of the first greatest key, or the length where there is no key.
///
/// A later key takes the place only where it is strictly greater, so that of
/// equal keys the first is kept.
pub fn select_max<K: TotalOrder>(keys: &Vec<K>) -> (res: usize)
    ensures
        keys@.len() == 0 ==> res == 0,
        keys@.len() > 0 ==> is_first_max(keys@, res as int),
{
    let mut best: usize = 0;
    let mut i: usize = 1;
    if keys.len() == 0 {
        return 0;
    }
    while i < keys.len()
        invariant
            1 <= i <= keys@.len(),
            is_first_max(keys@.subrange(0, i as int), best as int),
        decreases keys@.len() - i,
    {
        let ghost before = keys@.subrange(0, i as int);
        let ghost after = keys@.subrange(0, i as int + 1);
        if !keys[i].at_most(&keys[best]) {
            best = i;
        }
        proof {
            assert forall|j: int| 0 <= j < after.len() implies after[j].rank() <= after[best as int].rank() by {
                if j < i {
                    assert(before[j] == after[j]);
                }
            }
            assert forall|j: int| 0 <= j < best implies after[j].rank() < after[best as int].rank() by {
                assert(before[j] == after[j]);
            }
        }
        i += 1;
    }
    assert(keys@.subrange(0, i as int) =~= keys@);
    best
}

/// The parts of a number that was drawn for the format with 52 mantissa bits.
pub open spec fn parts_of(drawn: (int, nat)) -> UniformParts<u64> {
    UniformParts { negative: false, exponent: drawn.0 as i16, mantissa: drawn.1 as u64 }
}

/// The keys of the first `n` scores, each perturbed with a number drawn from
/// the unit interval, and the bytes that are left after the draws. The keys
/// are `None` where the bytes ran out.
pub open spec fn noisy_keys<Q, K, P: DistancePairMap<Q, UniformParts<u64>, K>>(
    scores: Seq<Q>,
    n: nat,
    avail: Seq<u8>,
    constant_time: bool,
    perturb: P,
) -> (Option<Seq<K>>, Seq<u8>)
    decreases n,
{
    if n == 0 || n > scores.len() {
        (Some(Seq::empty()), avail)
    } else {
        let earlier = noisy_keys(scores, (n - 1) as nat, avail, constant_time, perturb);
        match earlier.0 {
            None => earlier,
            Some(keys) => {
                let drawn = standard_uniform_draw(earlier.1, 1023, 7, 0x10, constant_time);
                match drawn.0 {
                    None => (None, drawn.1),
                    Some(parts) => (
                        Some(keys.push(perturb.outcome(scores[n - 1], parts_of(parts)))),
                        drawn.1,
                    ),
                }
            },
        }
    }
}

/// Reports the place of the greatest perturbed score.
///
/// For each score in turn a number is drawn from the unit interval and
/// handed to `perturb` with the score; of the keys that come back the first
/// greatest wins. With no score the result is 0. The draws fail where the
/// pool runs dry.
pub fn report_noisy_max<Q, K: TotalOrder, P: DistancePairMap<Q, UniformParts<u64>, K>>(
    scores: &Vec<Q>,
    pool: &mut EntropyPool,
    constant_time: bool,
    perturb: &P,
) -> (res: Fallible<usize>)
    requires
        forall|i: int, parts: UniformParts<u64>|
            0 <= i < scores@.len() ==> #[trigger] perturb.accepts(scores@[i], parts),
    ensures
        final(pool)@ == noisy_keys(
            scores@,
            scores@.len(),
            old(pool)@,
            constant_time,
            *perturb,
        ).1,
        match noisy_keys(scores@, scores@.len(), old(pool)@, constant_time, *perturb).0 {
            Some(keys) => res matches Ok(index) && keys.len() == scores@.len() && if keys.len()
                == 0 {
                index == 0
            } else {
                is_first_max(keys, index as int)
            },
            None => res matches Err(e) && e.variant == ErrorVariant::Entropy,
        },
{
    let mut keys: Vec<K> = Vec::new();
    let mut i: usize = 0;
    while i < scores.len()
        invariant
            i <= scores@.len(),
            keys@.len() == i,
            forall|j: int, parts: UniformParts<u64>|
                0 <= j < scores@.len() ==> #[trigger] perturb.accepts(scores@[j], parts),
            noisy_keys(scores@, i as nat, old(pool)@, constant_time, *perturb) == (
                Some(keys@),
                pool@,
            ),
        decreases scores@.len() - i,
    {
        let drawn = match Binary64::sample_standard_uniform(pool, constant_time) {
            Ok(drawn) => drawn,
            Err(e) => {
                proof {
                    lemma_noisy_keys_stay_dry(
                        scores@,
                        (i + 1) as nat,
                        scores@.len(),
                        old(pool)@,
                        constant_time,
                        *perturb,
                    );
                }
                return Err(e);
            },
        };
        let key = perturb.decide(&scores[i], &drawn);
        keys.push(key);
        i += 1;
    }
    Ok(select_max(&keys))
}

/// Once the bytes have run out, they stay run out for every longer prefix.
pub proof fn lemma_noisy_keys_stay_dry<Q, K, P: DistancePairMap<Q, UniformParts<u64>, K>>(
    scores: Seq<Q>,
    n: nat,
    m: nat,
    avail: Seq<u8>,
    constant_time: bool,
    perturb: P,
)
    requires
        1 <= n <= m <= scores.len(),
        noisy_keys(scores, n, avail, constant_time, perturb).0 is None,
    ensures
        noisy_keys(scores, m, avail, constant_time, perturb) == noisy_keys(
            scores,
            n,
            avail,
            constant_time,
            perturb,
        ),
    decreases m - n,
{
    if n < m {
        lemma_noisy_keys_stay_dry(scores, n, (m - 1) as nat, avail, constant_time, perturb);
    }
}

/// The number of bytes that one draw from the unit interval takes at most
/// when no exponent is thrown away.
pub const BYTES_PER_DRAW: usize = 135;

/// The mechanism that reports the place of the greatest perturbed score.
///
/// `source` hands out fresh random bytes, as many as it is asked for, and
/// `perturb` turns a score and a number drawn from the unit interval into the
/// key by which the candidates are compared.
pub struct NoisyMax<Q, K, S, P> {
    pub source: S,
    pub perturb: P,
    pub constant_time: bool,
    pub _marker: PhantomData<(Q, K)>,
}

impl<Q, K, S, P> Mapping<Vec<Q>, usize> for NoisyMax<Q, K, S, P> where
    K: TotalOrder,
    S: Fn(usize) -> Fallible<Vec<u8>>,
    P: DistancePairMap<Q, UniformParts<u64>, K>,
 {
    open spec fn defined(&self, arg: Vec<Q>) -> bool {
        &&& arg@.len() * BYTES_PER_DRAW <= usize::MAX
        &&& call_requires(self.source, ((arg@.len() * BYTES_PER_DRAW) as usize,))
        &&& forall|i: int, parts: UniformParts<u64>|
            0 <= i < arg@.len() ==> #[trigger] self.perturb.accepts(arg@[i], parts)
    }

    open spec fn maps(&self, arg: Vec<Q>, res: Fallible<usize>) -> bool {
        let asked = (arg@.len() * BYTES_PER_DRAW) as usize;
        ||| exists|e: Error| call_ensures(self.source, (asked,), Err(e)) && res == Err::<usize, _>(e)
        ||| exists|bytes: Vec<u8>|
            call_ensures(self.source, (asked,), Ok(bytes)) && match noisy_keys(
                arg@,
                arg@.len(),
                bytes@,
                self.constant_time,
                self.perturb,
            ).0 {
                Some(keys) => res matches Ok(index) && keys.len() == arg@.len() && if keys.len()
                    == 0 {
                    index == 0
                } else {
                    is_first_max(keys, index as int)
                },
                None => res matches Err(e) && e.variant == ErrorVariant::Entropy,
            }
    }

    fn call(&self, arg: &Vec<Q>) -> (res: Fallible<usize>) {
        let asked: usize = arg.len() * BYTES_PER_DRAW;
        let bytes = match (self.source)(asked) {
            Ok(bytes) => bytes,
            Err(e) => {
                return Err(e);
            },
        };
        let ghost drawn = bytes;
        let mut pool = EntropyPool::new(bytes);
        let res = report_noisy_max(arg, &mut pool, self.constant_time, &self.perturb);
        assert(call_ensures(self.source, (asked,), Ok(drawn)));
        res
    }
}

/// The privacy relation of a mechanism with a scale: it holds of distances
/// that are not negative and for which `d_out * scale` is at least `d_in`.
pub struct ScaledRelation<Q> {
    pub scale: Q,
}

/// Whether the relation of a mechanism with the given scale holds.
pub open spec fn scaled_relation_holds(scale: int, d_in: int, d_out: int) -> bool {
    d_in >= 0 && d_out >= 0 && d_out * scale >= d_in
}

/// What the relation of a mechanism with the given scale answers: a
/// negative distance is invalid, and other distances are compared.
pub open spec fn scaled_verdict(scale: int, d_in: int, d_out: int) -> Fallible<bool> {
    if d_in < 0 || d_out < 0 {
        Err(Error { variant: ErrorVariant::InvalidDistance })
    } else {
        Ok(d_out * scale >= d_in)
    }
}

/// Asks the relation of a mechanism with the given scale, and reports a
/// negative distance as invalid.
pub fn check_scaled<Q: DistanceConstant>(scale: &Q, d_in: &Q, d_out: &Q) -> (res: Fallible<bool>)
    ensures
        res == scaled_verdict(scale.value(), d_in.value(), d_out.value()),
        res == Ok::<bool, Error>(true) <==> scaled_relation_holds(
            scale.value(),
            d_in.value(),
            d_out.value(),
        ),
{
    let wide_in: i128 = d_in.widen();
    let wide_out: i128 = d_out.widen();
    let wide_scale: i128 = scale.widen();
    if wide_in < 0 || wide_out < 0 {
        return Err(Error::new(ErrorVariant::InvalidDistance));
    }
    proof {
        d_in.lemma_value(d_in);
    }
    // the product is exact, so no rounding can admit a distance too many
    match wide_out.checked_mul(wide_scale) {
        Some(product) => Ok(product >= wide_in),
        None => {
            proof {
                let product = d_out.value() * scale.value();
                if scale.value() > 0 {
                    assert(product >= 0) by (nonlinear_arith)
                        requires
                            d_out.value() >= 0,
                            scale.value() > 0,
                            product == d_out.value() * scale.value(),
                    ;
                } else {
                    assert(product <= 0) by (nonlinear_arith)
                        requires
                            d_out.value() >= 0,
                            scale.value() <= 0,
                            product == d_out.value() * scale.value(),
                    ;
                }
            }
            Ok(wide_scale > 0)
        },
    }
}

impl<Q: DistanceConstant> DistancePairMap<Q, Q, Fallible<bool>> for ScaledRelation<Q> {
    open spec fn accepts(&self, d_in: Q, d_out: Q) -> bool {
        true
    }

    open spec fn outcome(&self, d_in: Q, d_out: Q) -> Fallible<bool> {
        scaled_verdict(self.scale.value(), d_in.value(), d_out.value())
    }

    fn decide(&self, d_in: &Q, d_out: &Q) -> (res: Fallible<bool>) {
        check_scaled(&self.scale, d_in, d_out)
    }
}

/// The greatest input distance that a mechanism with a scale allows for an
/// output distance: `d_out * scale`.
pub struct ScaledBackward<Q> {
    pub scale: Q,
}

impl<Q: DistanceConstant> DistanceMap<Q, Q> for ScaledBackward<Q> {
    open spec fn defined(&self, d_out: Q) -> bool {
        Q::representable(d_out.value() * self.scale.value())
    }

    open spec fn image(&self, d_out: Q) -> Q {
        Q::from_value(d_out.value() * self.scale.value())
    }

    fn apply(&self, d_out: &Q) -> (res: Q) {
        let product = checked_product(d_out, &self.scale).unwrap();
        proof {
            let v = d_out.value() * self.scale.value();
            Q::lemma_representable(v);
            product.lemma_value(&Q::from_value(v));
        }
        product
    }
}

/// Whether a scale is positive.
fn is_positive<Q: DistanceConstant>(scale: &Q) -> (res: bool)
    ensures
        res == (scale.value() > 0),
{
    scale.widen() > 0
}

/// Makes the discrete exponential mechanism: it takes the scores of the
/// candidates and reports the place of the score that is greatest after each
/// was perturbed.
///
/// `perturb` is to turn a score `v` and a number `u` drawn from the unit
/// interval into the key `scale * v - ln(-ln(u))`, which is floating-point
/// work. A scale that is not positive is refused.
pub fn make_base_discrete_exponential<MI, K, S, P>(
    scale: MI::Distance,
    constant_time: bool,
    source: S,
    perturb: P,
) -> (res: Fallible<
    Measurement<
        VectorDomain<AllDomain<MI::Distance>>,
        AllDomain<usize>,
        SupDistance<MI>,
        MaxDivergence<MI::Distance>,
        NoisyMax<MI::Distance, K, S, P>,
        ScaledRelation<MI::Distance>,
        ScaledBackward<MI::Distance>,
    >,
>) where
    MI: SensitivityMetric,
    MI::Distance: DistanceConstant,
    K: TotalOrder,
    S: Fn(usize) -> Fallible<Vec<u8>>,
    P: DistancePairMap<MI::Distance, UniformParts<u64>, K>,

    ensures
        res is Ok <==> scale.value() > 0,
        res matches Err(e) ==> e.variant == ErrorVariant::MakeMeasurement,
        res matches Ok(mechanism) ==> {
            &&& mechanism.function.function.source == source
            &&& mechanism.function.function.perturb == perturb
            &&& mechanism.function.function.constant_time == constant_time
            &&& mechanism.privacy_relation.relation.scale == scale
            &&& mechanism.privacy_relation.backward_map matches Some(backward) && backward.scale
                == scale
        },
{
    if !is_positive(&scale) {
        return Err(Error::new(ErrorVariant::MakeMeasurement));
    }
    let function = Function::new_fallible(
        NoisyMax { source, perturb, constant_time, _marker: PhantomData },
    );
    let privacy_relation = PrivacyRelation::new_fallible(
        ScaledRelation { scale: scale.replicate() },
        Some(ScaledBackward { scale: scale.replicate() }),
    );
    Ok(
        Measurement {
            input_domain: VectorDomain::new_all(),
            output_domain: AllDomain::new(),
            function,
            input_metric: SupDistance { inner: MI::new() },
            output_measure: MaxDivergence::new(),
            privacy_relation,
        },
    )
}

/// Makes the exponential mechanism over candidates: it takes the utilities
/// of the candidates and reports the place of the one that is greatest after
/// each was perturbed.
///
/// `perturb` is to turn a utility `v` and a number `u` drawn from the unit
/// interval into the key `v / temperature - ln(-ln(u))`, which is
/// floating-point work. A temperature that is not positive is refused.
pub fn make_base_exponential_candidates<TI, K, S, P>(
    temperature: TI,
    constant_time: bool,
    source: S,
    perturb: P,
) -> (res: Fallible<
    Measurement<
        VectorDomain<AllDomain<TI>>,
        AllDomain<usize>,
        InfDifferenceDistance<TI>,
        MaxDivergence<TI>,
        NoisyMax<TI, K, S, P>,
        ScaledRelation<TI>,
        ScaledBackward<TI>,
    >,
>) where
    TI: DistanceConstant,
    K: TotalOrder,
    S: Fn(usize) -> Fallible<Vec<u8>>,
    P: DistancePairMap<TI, UniformParts<u64>, K>,

    ensures
        res is Ok <==> temperature.value() > 0,
        res matches Err(e) ==> e.variant == ErrorVariant::MakeMeasurement,
        res matches Ok(mechanism) ==> {
            &&& mechanism.function.function.source == source
            &&& mechanism.function.function.perturb == perturb
            &&& mechanism.function.function.constant_time == constant_time
            &&& mechanism.privacy_relation.relation.scale == temperature
            &&& mechanism.privacy_relation.backward_map matches Some(backward) && backward.scale
                == temperature
        },
{
    if !is_positive(&temperature) {
        return Err(Error::new(ErrorVariant::MakeMeasurement));
    }
    let function = Function::new_fallible(
        NoisyMax { source, perturb, constant_time, _marker: PhantomData },
    );
    let privacy_relation = PrivacyRelation::new_fallible(
        ScaledRelation { scale: temperature.replicate() },
        Some(ScaledBackward { scale: temperature.replicate() }),
    );
    Ok(
        Measurement {
            input_domain: VectorDomain::new_all(),
            output_domain: AllDomain::new(),
            function,
            input_metric: InfDifferenceDistance::new(),
            output_measure: MaxDivergence::new(),
            privacy_relation,
        },
    )
}

/// Makes the exponential mechanism over candidates by the Gumbel trick: the
/// place of the greatest utility after Gumbel noise was added to each is
/// distributed as the exponential mechanism asks, and no weights need to be
/// normalised.
///
/// `perturb` is to turn a utility `v` and a number `u` drawn from the unit
/// interval into the key `v / temperature - ln(-ln(u))`, which is
/// floating-point work. A temperature that is not positive is refused.
pub fn make_base_exponential_candidates_gumbel<TI, K, S, P>(
    temperature: TI,
    constant_time: bool,
    source: S,
    perturb: P,
) -> (res: Fallible<
    Measurement<
        VectorDomain<AllDomain<TI>>,
        AllDomain<usize>,
        InfDifferenceDistance<TI>,
        MaxDivergence<TI>,
        NoisyMax<TI, K, S, P>,
        ScaledRelation<TI>,
        ScaledBackward<TI>,
    >,
>) where
    TI: DistanceConstant,
    K: TotalOrder,
    S: Fn(usize) -> Fallible<Vec<u8>>,
    P: DistancePairMap<TI, UniformParts<u64>, K>,

    ensures
        res is Ok <==> temperature.value() > 0,
        res matches Err(e) ==> e.variant == ErrorVariant::MakeMeasurement,
        res matches Ok(mechanism) ==> {
            &&& mechanism.function.function.source == source
            &&& mechanism.function.function.perturb == perturb
            &&& mechanism.function.function.constant_time == constant_time
            &&& mechanism.privacy_relation.relation.scale == temperature
            &&& mechanism.privacy_relation.backward_map matches Some(backward) && backward.scale
                == temperature
        },
{
    if temperature.widen() <= 0 {
        return Err(Error::new(ErrorVariant::MakeMeasurement));
    }
    let function = Function::new_fallible(
        NoisyMax { source, perturb, constant_time, _marker: PhantomData },
    );
    let privacy_relation = PrivacyRelation::new_fallible(
        ScaledRelation { scale: temperature.replicate() },
        Some(ScaledBackward { scale: temperature.replicate() }),
    );
    Ok(
        Measurement {
            input_domain: VectorDomain::new_all(),
            output_domain: AllDomain::new(),
            function,
            input_metric: InfDifferenceDistance::new(),
            output_measure: MaxDivergence::new(),
            privacy_relation,
        },
    )
}

} // verus!

use vstd::prelude::*;
use std::marker::PhantomData;
use crate::dist::{AgnosticMetric, Measure, Metric};
use crate::dom::{BoxDomain, Domain, PairDomain};
use crate::error::{Error, ErrorVariant, Fallible};
use crate::function::{Chained, Composed, Function, Mapping};
use crate::measurement::{Measurement, Transformation};
use std::rc::Rc;
use crate::relation::{Cast, DistanceMap, DistancePairMap, Fixed, HintTt, PrivacyRelation, Unset};
use crate::stability::{ChainOf, ChainedBackward, ChainedForward, ChainedRelation, StabilityRelation};
use crate::traits::DistanceConstant;

verus! {

/// What a combinator needs of a domain and a measure: to compare two domains
/// and to copy a domain or a measure.
pub struct MeasureGlue<D: Domain, M: Measure> {
    pub _marker: PhantomData<(D, M)>,
}

impl<D: Domain, M: Measure> MeasureGlue<D, M> {
    pub fn new() -> (res: Self) {
        MeasureGlue { _marker: PhantomData }
    }

    /// Whether the two domains are the same.
    pub fn domain_eq(&self, d0: &D, d1: &D) -> (res: bool)
        ensures
            res == (*d0 == *d1),
    {
        d0.same(d1)
    }

    /// A copy of the domain.
    pub fn domain_clone(&self, d: &D) -> (res: D)
        ensures
            res == *d,
    {
        d.replicate()
    }

    /// A copy of the measure.
    pub fn measure_clone(&self, m: &M) -> (res: M)
        ensures
            res == *m,
    {
        m.replicate()
    }
}

/// What a combinator needs of a domain and a metric: to compare two domains
/// and to copy a domain or a metric.
pub struct MetricGlue<D: Domain, M: Metric> {
    pub _marker: PhantomData<(D, M)>,
}

impl<D: Domain, M: Metric> MetricGlue<D, M> {
    pub fn new() -> (res: Self) {
        MetricGlue { _marker: PhantomData }
    }

    /// Whether the two domains are the same.
    pub fn domain_eq(&self, d0: &D, d1: &D) -> (res: bool)
        ensures
            res == (*d0 == *d1),
    {
        d0.same(d1)
    }

    /// A copy of the domain.
    pub fn domain_clone(&self, d: &D) -> (res: D)
        ensures
            res == *d,
    {
        d.replicate()
    }

    /// A copy of the metric.
    pub fn metric_clone(&self, m: &M) -> (res: M)
        ensures
            res == *m,
    {
        m.replicate()
    }
}

/// Chains a transformation and a measurement into a measurement.
///
/// The stages must meet in one domain, else the chain is refused as a domain
/// mismatch. The function is the chain of the two functions. No privacy
/// relation is derived: the one of the result holds of no pair, until the
/// caller puts a proven one in its place.
pub fn make_chain_mt_glue<DI, DX, DO, MI, MX, MO, F0, R0, FM0, BM0, F1, R1, B1>(
    measurement1: &Measurement<DX, DO, MX, MO, F1, R1, B1>,
    transformation0: &Transformation<DI, DX, MI, MX, F0, R0, FM0, BM0>,
    input_glue: &MetricGlue<DI, MI>,
    x_glue: &MetricGlue<DX, MX>,
    output_glue: &MeasureGlue<DO, MO>,
) -> (res: Fallible<Measurement<DI, DO, MI, MO, Chained<DI, DX, DO, F0, F1>, Fixed, Unset>>) where
    DI: Domain,
    DX: Domain,
    DO: Domain,
    MI: Metric,
    MX: Metric,
    MO: Measure,
    F0: Mapping<DI::Carrier, DX::Carrier>,
    F1: Mapping<DX::Carrier, DO::Carrier>,

    ensures
        res is Ok <==> transformation0.output_domain == measurement1.input_domain,
        res matches Err(e) ==> e.variant == ErrorVariant::DomainMismatch,
        res matches Ok(chain) ==> {
            &&& chain.input_domain == transformation0.input_domain
            &&& chain.output_domain == measurement1.output_domain
            &&& chain.function.function.first == transformation0.function
            &&& chain.function.function.second == measurement1.function
            &&& chain.input_metric == transformation0.input_metric
            &&& chain.output_measure == measurement1.output_measure
            &&& chain.privacy_relation.relation.verdict == false
            &&& chain.privacy_relation.backward_map is None
        },
{
    if !x_glue.domain_eq(&transformation0.output_domain, &measurement1.input_domain) {
        return Err(Error::new(ErrorVariant::DomainMismatch));
    }
    let input_domain = input_glue.domain_clone(&transformation0.input_domain);
    let output_domain = output_glue.domain_clone(&measurement1.output_domain);
    let function = Function::make_chain(&measurement1.function, &transformation0.function);
    let input_metric = input_glue.metric_clone(&transformation0.input_metric);
    let output_measure = output_glue.measure_clone(&measurement1.output_measure);
    let privacy_relation = PrivacyRelation {
        relation: Rc::new(Fixed { verdict: false }),
        backward_map: None,
        _marker: PhantomData,
    };
    Ok(
        Measurement {
            input_domain,
            output_domain,
            function,
            input_metric,
            output_measure,
            privacy_relation,
        },
    )
}

/// The combinator that chains a transformation and a measurement.
pub struct ChainMT;

impl ChainMT {
    /// Chains `transformation0` and `measurement1`, as
    /// [`make_chain_mt_glue`] does.
    pub fn make2<DI, DX, DO, MI, MX, MO, F0, R0, FM0, BM0, F1, R1, B1>(
        measurement1: &Measurement<DX, DO, MX, MO, F1, R1, B1>,
        transformation0: &Transformation<DI, DX, MI, MX, F0, R0, FM0, BM0>,
    ) -> (res: Fallible<Measurement<DI, DO, MI, MO, Chained<DI, DX, DO, F0, F1>, Fixed, Unset>>) where
        DI: Domain,
        DX: Domain,
        DO: Domain,
        MI: Metric,
        MX: Metric,
        MO: Measure,
        F0: Mapping<DI::Carrier, DX::Carrier>,
        F1: Mapping<DX::Carrier, DO::Carrier>,

        ensures
            res is Ok <==> transformation0.output_domain == measurement1.input_domain,
            res matches Err(e) ==> e.variant == ErrorVariant::DomainMismatch,
            res matches Ok(chain) ==> {
                &&& chain.input_domain == transformation0.input_domain
                &&& chain.output_domain == measurement1.output_domain
                &&& chain.function.function.first == transformation0.function
                &&& chain.function.function.second == measurement1.function
                &&& chain.input_metric == transformation0.input_metric
                &&& chain.output_measure == measurement1.output_measure
                &&& chain.privacy_relation.relation.verdict == false
                &&& chain.privacy_relation.backward_map is None
            },
    {
        let input_glue = MetricGlue::<DI, MI>::new();
        let x_glue = MetricGlue::<DX, MX>::new();
        let output_glue = MeasureGlue::<DO, MO>::new();
        make_chain_mt_glue(measurement1, transformation0, &input_glue, &x_glue, &output_glue)
    }

    /// Chains `transformation0` and `measurement1`.
    pub fn make<DI, DX, DO, MI, MX, MO, F0, R0, FM0, BM0, F1, R1, B1>(
        measurement1: &Measurement<DX, DO, MX, MO, F1, R1, B1>,
        transformation0: &Transformation<DI, DX, MI, MX, F0, R0, FM0, BM0>,
    ) -> (res: Fallible<Measurement<DI, DO, MI, MO, Chained<DI, DX, DO, F0, F1>, Fixed, Unset>>) where
        DI: Domain,
        DX: Domain,
        DO: Domain,
        MI: Metric,
        MX: Metric,
        MO: Measure,
        F0: Mapping<DI::Carrier, DX::Carrier>,
        F1: Mapping<DX::Carrier, DO::Carrier>,

        ensures
            res is Ok <==> transformation0.output_domain == measurement1.input_domain,
            res matches Err(e) ==> e.variant == ErrorVariant::DomainMismatch,
            res matches Ok(chain) ==> {
                &&& chain.input_domain == transformation0.input_domain
                &&& chain.output_domain == measurement1.output_domain
                &&& chain.function.function.first == transformation0.function
                &&& chain.function.function.second == measurement1.function
                &&& chain.input_metric == transformation0.input_metric
                &&& chain.output_measure == measurement1.output_measure
                &&& chain.privacy_relation.relation.verdict == false
                &&& chain.privacy_relation.backward_map is None
            },
    {
        Self::make2(measurement1, transformation0)
    }
}

/// The combinator that chains two transformations.
pub struct ChainTT;

impl ChainTT {
    /// Chains two transformations into one.
    ///
    /// The stages must meet in one domain, else the chain is refused as a
    /// domain mismatch. The function is the chain of the two functions, and
    /// the relation is the chain of the two relations, which may fail in its
    /// own ways.
    pub fn make_chain_tt_glue<DI, DX, DO, MI, MX, MO, F0, R0, FM0, BM0, F1, R1, FM1, BM1, H>(
        transformation1: &Transformation<DX, DO, MX, MO, F1, R1, FM1, BM1>,
        transformation0: &Transformation<DI, DX, MI, MX, F0, R0, FM0, BM0>,
        hint: Option<&HintTt<MI, MO, MX, H>>,
        input_glue: &MetricGlue<DI, MI>,
        x_glue: &MetricGlue<DX, MX>,
        output_glue: &MetricGlue<DO, MO>,
    ) -> (res: Fallible<
        Transformation<
            DI,
            DO,
            MI,
            MO,
            Chained<DI, DX, DO, F0, F1>,
            ChainedRelation<
                StabilityRelation<MI, MX, R0, FM0, BM0>,
                StabilityRelation<MX, MO, R1, FM1, BM1>,
                HintTt<MI, MO, MX, H>,
            >,
            ChainedForward<
                StabilityRelation<MI, MX, R0, FM0, BM0>,
                StabilityRelation<MX, MO, R1, FM1, BM1>,
            >,
            ChainedBackward<
                StabilityRelation<MI, MX, R0, FM0, BM0>,
                StabilityRelation<MX, MO, R1, FM1, BM1>,
            >,
        >,
    >) where
        DI: Domain,
        DX: Domain,
        DO: Domain,
        MI: Metric,
        MX: Metric,
        MO: Metric,
        MI::Distance: DistanceConstant,
        MX::Distance: DistanceConstant,
        MO::Distance: DistanceConstant,
        F0: Mapping<DI::Carrier, DX::Carrier>,
        F1: Mapping<DX::Carrier, DO::Carrier>,
        R0: DistancePairMap<MI::Distance, MX::Distance, bool>,
        FM0: DistanceMap<MI::Distance, MX::Distance>,
        BM0: DistanceMap<MX::Distance, MI::Distance>,
        R1: DistancePairMap<MX::Distance, MO::Distance, bool>,
        FM1: DistanceMap<MX::Distance, MO::Distance>,
        BM1: DistanceMap<MO::Distance, MX::Distance>,
        H: DistancePairMap<MI::Distance, MO::Distance, MX::Distance>,

        ensures
            transformation0.output_domain != transformation1.input_domain ==> (res matches Err(e)
                && e.variant == ErrorVariant::DomainMismatch),
            transformation0.output_domain == transformation1.input_domain ==> match res {
                Ok(chain) => {
                    &&& chain.input_domain == transformation0.input_domain
                    &&& chain.output_domain == transformation1.output_domain
                    &&& chain.function.function.first == transformation0.function
                    &&& chain.function.function.second == transformation1.function
                    &&& chain.input_metric == transformation0.input_metric
                    &&& chain.output_metric == transformation1.output_metric
                    &&& ChainOf::<MI, MX, MO, R0, FM0, BM0, R1, FM1, BM1, H>::is_chain(
                        Ok(chain.stability_relation),
                        transformation1.stability_relation,
                        transformation0.stability_relation,
                        hint,
                    )
                },
                Err(e) => ChainOf::<MI, MX, MO, R0, FM0, BM0, R1, FM1, BM1, H>::is_chain(
                    Err(e),
                    transformation1.stability_relation,
                    transformation0.stability_relation,
                    hint,
                ),
            },
    {
        if !x_glue.domain_eq(&transformation0.output_domain, &transformation1.input_domain) {
            return Err(Error::new(ErrorVariant::DomainMismatch));
        }
        let input_domain = input_glue.domain_clone(&transformation0.input_domain);
        let output_domain = output_glue.domain_clone(&transformation1.output_domain);
        let function = Function::make_chain(&transformation1.function, &transformation0.function);
        let input_metric = input_glue.metric_clone(&transformation0.input_metric);
        let output_metric = output_glue.metric_clone(&transformation1.output_metric);
        let stability_relation = match StabilityRelation::make_chain(
            &transformation1.stability_relation,
            &transformation0.stability_relation,
            hint,
        ) {
            Ok(relation) => relation,
            Err(e) => {
                return Err(e);
            },
        };
        Ok(
            Transformation {
                input_domain,
                output_domain,
                function,
                input_metric,
                output_metric,
                stability_relation,
            },
        )
    }
}

/// What chaining two transformations without a hint gives.
pub open spec fn is_chained_transformation<DI, DX, DO, MI, MX, MO, F0, R0, FM0, BM0, F1, R1, FM1, BM1>(
    res: Fallible<
        Transformation<
            DI,
            DO,
            MI,
            MO,
            Chained<DI, DX, DO, F0, F1>,
            ChainedRelation<
                StabilityRelation<MI, MX, R0, FM0, BM0>,
                StabilityRelation<MX, MO, R1, FM1, BM1>,
                HintTt<MI, MO, MX, Cast>,
            >,
            ChainedForward<
                StabilityRelation<MI, MX, R0, FM0, BM0>,
                StabilityRelation<MX, MO, R1, FM1, BM1>,
            >,
            ChainedBackward<
                StabilityRelation<MI, MX, R0, FM0, BM0>,
                StabilityRelation<MX, MO, R1, FM1, BM1>,
            >,
        >,
    >,
    transformation1: Transformation<DX, DO, MX, MO, F1, R1, FM1, BM1>,
    transformation0: Transformation<DI, DX, MI, MX, F0, R0, FM0, BM0>,
) -> bool where
    DI: Domain,
    DX: Domain,
    DO: Domain,
    MI: Metric,
    MX: Metric,
    MO: Metric,
    MI::Distance: DistanceConstant,
    MX::Distance: DistanceConstant,
    MO::Distance: DistanceConstant,
    F0: Mapping<DI::Carrier, DX::Carrier>,
    F1: Mapping<DX::Carrier, DO::Carrier>,
    R0: DistancePairMap<MI::Distance, MX::Distance, bool>,
    FM0: DistanceMap<MI::Distance, MX::Distance>,
    BM0: DistanceMap<MX::Distance, MI::Distance>,
    R1: DistancePairMap<MX::Distance, MO::Distance, bool>,
    FM1: DistanceMap<MX::Distance, MO::Distance>,
    BM1: DistanceMap<MO::Distance, MX::Distance>,
 {
    if transformation0.output_domain != transformation1.input_domain {
        res matches Err(e) && e.variant == ErrorVariant::DomainMismatch
    } else {
        match res {
            Ok(chain) => {
                &&& chain.input_domain == transformation0.input_domain
                &&& chain.output_domain == transformation1.output_domain
                &&& chain.function.function.first == transformation0.function
                &&& chain.function.function.second == transformation1.function
                &&& chain.input_metric == transformation0.input_metric
                &&& chain.output_metric == transformation1.output_metric
                &&& ChainOf::<MI, MX, MO, R0, FM0, BM0, R1, FM1, BM1, Cast>::is_plain_chain(
                    Ok(chain.stability_relation),
                    transformation1.stability_relation,
                    transformation0.stability_relation,
                )
            },
            Err(e) => ChainOf::<MI, MX, MO, R0, FM0, BM0, R1, FM1, BM1, Cast>::is_plain_chain(
                Err(e),
                transformation1.stability_relation,
                transformation0.stability_relation,
            ),
        }
    }
}

impl ChainTT {
    /// Chains two transformations without a hint, as
    /// [`ChainTT::make_chain_tt_glue`] does.
    pub fn make2<DI, DX, DO, MI, MX, MO, F0, R0, FM0, BM0, F1, R1, FM1, BM1>(
        transformation1: &Transformation<DX, DO, MX, MO, F1, R1, FM1, BM1>,
        transformation0: &Transformation<DI, DX, MI, MX, F0, R0, FM0, BM0>,
    ) -> (res: Fallible<
        Transformation<
            DI,
            DO,
            MI,
            MO,
            Chained<DI, DX, DO, F0, F1>,
            ChainedRelation<
                StabilityRelation<MI, MX, R0, FM0, BM0>,
                StabilityRelation<MX, MO, R1, FM1, BM1>,
                HintTt<MI, MO, MX, Cast>,
            >,
            ChainedForward<
                StabilityRelation<MI, MX, R0, FM0, BM0>,
                StabilityRelation<MX, MO, R1, FM1, BM1>,
            >,
            ChainedBackward<
                StabilityRelation<MI, MX, R0, FM0, BM0>,
                StabilityRelation<MX, MO, R1, FM1, BM1>,
            >,
        >,
    >) where
        DI: Domain,
        DX: Domain,
        DO: Domain,
        MI: Metric,
        MX: Metric,
        MO: Metric,
        MI::Distance: DistanceConstant,
        MX::Distance: DistanceConstant,
        MO::Distance: DistanceConstant,
        F0: Mapping<DI::Carrier, DX::Carrier>,
        F1: Mapping<DX::Carrier, DO::Carrier>,
        R0: DistancePairMap<MI::Distance, MX::Distance, bool>,
        FM0: DistanceMap<MI::Distance, MX::Distance>,
        BM0: DistanceMap<MX::Distance, MI::Distance>,
        R1: DistancePairMap<MX::Distance, MO::Distance, bool>,
        FM1: DistanceMap<MX::Distance, MO::Distance>,
        BM1: DistanceMap<MO::Distance, MX::Distance>,

        ensures
            is_chained_transformation(res, *transformation1, *transformation0),
    {
        let input_glue = MetricGlue::<DI, MI>::new();
        let x_glue = MetricGlue::<DX, MX>::new();
        let output_glue = MetricGlue::<DO, MO>::new();
        Self::make_chain_tt_glue(
            transformation1,
            transformation0,
            None::<&HintTt<MI, MO, MX, Cast>>,
            &input_glue,
            &x_glue,
            &output_glue,
        )
    }

    /// Chains two transformations without a hint.
    pub fn make<DI, DX, DO, MI, MX, MO, F0, R0, FM0, BM0, F1, R1, FM1, BM1>(
        transformation1: &Transformation<DX, DO, MX, MO, F1, R1, FM1, BM1>,
        transformation0: &Transformation<DI, DX, MI, MX, F0, R0, FM0, BM0>,
    ) -> (res: Fallible<
        Transformation<
            DI,
            DO,
            MI,
            MO,
            Chained<DI, DX, DO, F0, F1>,
            ChainedRelation<
                StabilityRelation<MI, MX, R0, FM0, BM0>,
                StabilityRelation<MX, MO, R1, FM1, BM1>,
                HintTt<MI, MO, MX, Cast>,
            >,
            ChainedForward<
                StabilityRelation<MI, MX, R0, FM0, BM0>,
                StabilityRelation<MX, MO, R1, FM1, BM1>,
            >,
            ChainedBackward<
                StabilityRelation<MI, MX, R0, FM0, BM0>,
                StabilityRelation<MX, MO, R1, FM1, BM1>,
            >,
        >,
    >) where
        DI: Domain,
        DX: Domain,
        DO: Domain,
        MI: Metric,
        MX: Metric,
        MO: Metric,
        MI::Distance: DistanceConstant,
        MX::Distance: DistanceConstant,
        MO::Distance: DistanceConstant,
        F0: Mapping<DI::Carrier, DX::Carrier>,
        F1: Mapping<DX::Carrier, DO::Carrier>,
        R0: DistancePairMap<MI::Distance, MX::Distance, bool>,
        FM0: DistanceMap<MI::Distance, MX::Distance>,
        BM0: DistanceMap<MX::Distance, MI::Distance>,
        R1: DistancePairMap<MX::Distance, MO::Distance, bool>,
        FM1: DistanceMap<MX::Distance, MO::Distance>,
        BM1: DistanceMap<MO::Distance, MX::Distance>,

        ensures
            is_chained_transformation(res, *transformation1, *transformation0),
    {
        Self::make2(transformation1, transformation0)
    }
}

/// Composes two measurements on one input into the measurement of both
/// results.
///
/// The measurements must share their input domain, else the composition is
/// refused as a domain mismatch. The output domain is the pair of the two
/// output domains, each in a box, and the function returns both results. The
/// metric and the measure are those of the first measurement, and no privacy
/// relation is derived: the one of the result holds of no pair.
pub fn make_composition_glue<DI, DO0, DO1, MI, MO, F0, R0, B0, F1, R1, B1>(
    measurement0: &Measurement<DI, DO0, MI, MO, F0, R0, B0>,
    measurement1: &Measurement<DI, DO1, MI, MO, F1, R1, B1>,
    input_glue: &MetricGlue<DI, MI>,
    output_glue0: &MeasureGlue<DO0, MO>,
    output_glue1: &MeasureGlue<DO1, MO>,
) -> (res: Fallible<
    Measurement<
        DI,
        PairDomain<BoxDomain<DO0>, BoxDomain<DO1>>,
        MI,
        MO,
        Composed<DI, DO0, DO1, F0, F1>,
        Fixed,
        Unset,
    >,
>) where
    DI: Domain,
    DO0: Domain,
    DO1: Domain,
    MI: Metric,
    MO: Measure,
    F0: Mapping<DI::Carrier, DO0::Carrier>,
    F1: Mapping<DI::Carrier, DO1::Carrier>,

    ensures
        res is Ok <==> measurement0.input_domain == measurement1.input_domain,
        res matches Err(e) ==> e.variant == ErrorVariant::DomainMismatch,
        res matches Ok(both) ==> {
            &&& both.input_domain == measurement0.input_domain
            &&& *both.output_domain.first.element_domain == measurement0.output_domain
            &&& *both.output_domain.second.element_domain == measurement1.output_domain
            &&& both.function.function.first == measurement0.function
            &&& both.function.function.second == measurement1.function
            &&& both.input_metric == measurement0.input_metric
            &&& both.output_measure == measurement0.output_measure
            &&& both.privacy_relation.relation.verdict == false
            &&& both.privacy_relation.backward_map is None
        },
{
    if !input_glue.domain_eq(&measurement0.input_domain, &measurement1.input_domain) {
        return Err(Error::new(ErrorVariant::DomainMismatch));
    }
    let input_domain = input_glue.domain_clone(&measurement0.input_domain);
    let output_domain0 = output_glue0.domain_clone(&measurement0.output_domain);
    let output_domain0 = BoxDomain::new(Box::new(output_domain0));
    let output_domain1 = output_glue1.domain_clone(&measurement1.output_domain);
    let output_domain1 = BoxDomain::new(Box::new(output_domain1));
    let output_domain = PairDomain::new(output_domain0, output_domain1);
    let function = Function::make_composition(&measurement0.function, &measurement1.function);
    let input_metric = input_glue.metric_clone(&measurement0.input_metric);
    let output_measure = output_glue0.measure_clone(&measurement0.output_measure);
    let privacy_relation = PrivacyRelation {
        relation: Rc::new(Fixed { verdict: false }),
        backward_map: None,
        _marker: PhantomData,
    };
    Ok(
        Measurement {
            input_domain,
            output_domain,
            function,
            input_metric,
            output_measure,
            privacy_relation,
        },
    )
}

/// The combinator that composes two measurements.
pub struct Composition;

impl Composition {
    /// Composes two measurements, as [`make_composition_glue`] does.
    pub fn make2<DI, DO0, DO1, MI, MO, F0, R0, B0, F1, R1, B1>(
        measurement0: &Measurement<DI, DO0, MI, MO, F0, R0, B0>,
        measurement1: &Measurement<DI, DO1, MI, MO, F1, R1, B1>,
    ) -> (res: Fallible<
        Measurement<
            DI,
            PairDomain<BoxDomain<DO0>, BoxDomain<DO1>>,
            MI,
            MO,
            Composed<DI, DO0, DO1, F0, F1>,
            Fixed,
            Unset,
        >,
    >) where
        DI: Domain,
        DO0: Domain,
        DO1: Domain,
        MI: Metric,
        MO: Measure,
        F0: Mapping<DI::Carrier, DO0::Carrier>,
        F1: Mapping<DI::Carrier, DO1::Carrier>,

        ensures
            res is Ok <==> measurement0.input_domain == measurement1.input_domain,
            res matches Err(e) ==> e.variant == ErrorVariant::DomainMismatch,
            res matches Ok(both) ==> {
                &&& both.input_domain == measurement0.input_domain
                &&& *both.output_domain.first.element_domain == measurement0.output_domain
                &&& *both.output_domain.second.element_domain == measurement1.output_domain
                &&& both.function.function.first == measurement0.function
                &&& both.function.function.second == measurement1.function
                &&& both.input_metric == measurement0.input_metric
                &&& both.output_measure == measurement0.output_measure
                &&& both.privacy_relation.relation.verdict == false
                &&& both.privacy_relation.backward_map is None
            },
    {
        let input_glue = MetricGlue::<DI, MI>::new();
        let output_glue0 = MeasureGlue::<DO0, MO>::new();
        let output_glue1 = MeasureGlue::<DO1, MO>::new();
        make_composition_glue(measurement0, measurement1, &input_glue, &output_glue0, &output_glue1)
    }

    /// Composes two measurements.
    pub fn make<DI, DO0, DO1, MI, MO, F0, R0, B0, F1, R1, B1>(
        measurement0: &Measurement<DI, DO0, MI, MO, F0, R0, B0>,
        measurement1: &Measurement<DI, DO1, MI, MO, F1, R1, B1>,
    ) -> (res: Fallible<
        Measurement<
            DI,
            PairDomain<BoxDomain<DO0>, BoxDomain<DO1>>,
            MI,
            MO,
            Composed<DI, DO0, DO1, F0, F1>,
            Fixed,
            Unset,
        >,
    >) where
        DI: Domain,
        DO0: Domain,
        DO1: Domain,
        MI: Metric,
        MO: Measure,
        F0: Mapping<DI::Carrier, DO0::Carrier>,
        F1: Mapping<DI::Carrier, DO1::Carrier>,

        ensures
            res is Ok <==> measurement0.input_domain == measurement1.input_domain,
            res matches Err(e) ==> e.variant == ErrorVariant::DomainMismatch,
            res matches Ok(both) ==> {
                &&& both.input_domain == measurement0.input_domain
                &&& *both.output_domain.first.element_domain == measurement0.output_domain
                &&& *both.output_domain.second.element_domain == measurement1.output_domain
                &&& both.function.function.first == measurement0.function
                &&& both.function.function.second == measurement1.function
                &&& both.input_metric == measurement0.input_metric
                &&& both.output_measure == measurement0.output_measure
                &&& both.privacy_relation.relation.verdict == false
                &&& both.privacy_relation.backward_map is None
            },
    {
        Self::make2(measurement0, measurement1)
    }
}

/// Forgets the metrics and the relation of a transformation: the result has
/// the same domains and function, and a relation that holds of every pair.
pub fn make_erase_relation<DI, DO, MI, MO, F, R, FM, BM>(
    trans: Transformation<DI, DO, MI, MO, F, R, FM, BM>,
) -> (res: Fallible<Transformation<DI, DO, AgnosticMetric, AgnosticMetric, F, Fixed, Cast, Cast>>) where
    DI: Domain,
    DO: Domain,
    MI: Metric,
    MO: Metric,

    ensures
        res matches Ok(erased) && {
            &&& erased.input_domain == trans.input_domain
            &&& erased.output_domain == trans.output_domain
            &&& erased.function == trans.function
            &&& erased.stability_relation matches StabilityRelation::Function(r) && r.verdict
        },
{
    Ok(
        Transformation {
            input_domain: trans.input_domain,
            output_domain: trans.output_domain,
            function: trans.function,
            input_metric: AgnosticMetric,
            output_metric: AgnosticMetric,
            stability_relation: StabilityRelation::new(Fixed { verdict: true }),
        },
    )
}

} // verus!

use vstd::prelude::*;
use crate::dist::{Measure, Metric};
use crate::dom::Domain;
use crate::error::Fallible;
use crate::function::{Function, Mapping, Pure};
use crate::relation::{Cast, DistanceMap, DistancePairMap, Fixed, Infallible, PrivacyRelation, Unset};
use crate::stability::StabilityRelation;
use crate::traits::DistanceConstant;

verus! {

/// A randomized mechanism with its privacy relation.
pub struct Measurement<DI: Domain, DO: Domain, MI: Metric, MO: Measure, F, R, B> {
    pub input_domain: DI,
    pub output_domain: DO,
    pub function: Function<DI, DO, F>,
    pub input_metric: MI,
    pub output_measure: MO,
    pub privacy_relation: PrivacyRelation<MI, MO, R, B>,
}

impl<DI, DO, MI, MO, G, R> Measurement<DI, DO, MI, MO, Pure<G>, Infallible<R>, Unset> where
    DI: Domain,
    DO: Domain,
    MI: Metric,
    MO: Measure,
    G: Fn(&DI::Carrier) -> DO::Carrier,
    R: DistancePairMap<MI::Distance, MO::Distance, bool>,
 {
    /// The measurement with the given parts, of a computation that cannot
    /// fail and a predicate as its relation.
    pub fn new(
        input_domain: DI,
        output_domain: DO,
        function: G,
        input_metric: MI,
        output_measure: MO,
        privacy_relation: R,
    ) -> (res: Self)
        ensures
            res.input_domain == input_domain,
            res.output_domain == output_domain,
            res.function.function.inner == function,
            res.input_metric == input_metric,
            res.output_measure == output_measure,
            res.privacy_relation.relation.inner == privacy_relation,
            res.privacy_relation.backward_map is None,
    {
        Measurement {
            input_domain,
            output_domain,
            function: Function::new(function),
            input_metric,
            output_measure,
            privacy_relation: PrivacyRelation::new(privacy_relation),
        }
    }
}

impl<DI, DO, MI, MO, F, R, B> Measurement<DI, DO, MI, MO, F, R, B> where
    DI: Domain,
    DO: Domain,
    MI: Metric,
    MO: Measure,
    F: Mapping<DI::Carrier, DO::Carrier>,
    R: DistancePairMap<MI::Distance, MO::Distance, Fallible<bool>>,
 {
    /// Runs the mechanism on `arg`.
    pub fn invoke(&self, arg: &DI::Carrier) -> (res: Fallible<DO::Carrier>)
        requires
            self.function.defined(*arg),
        ensures
            self.function.maps(*arg, res),
    {
        self.function.eval(arg)
    }

    /// Asks the privacy relation whether inputs at most `d_in` apart give
    /// outputs at most `d_out` apart. Where the predicate refuses the
    /// distances, its error is returned.
    pub fn check(&self, d_in: &MI::Distance, d_out: &MO::Distance) -> (res: Fallible<bool>)
        requires
            self.privacy_relation.evaluable(*d_in, *d_out),
        ensures
            res == self.privacy_relation.verdict(*d_in, *d_out),
    {
        self.privacy_relation.try_eval(d_in, d_out)
    }
}

/// A deterministic transformation with its stability relation.
pub struct Transformation<DI: Domain, DO: Domain, MI: Metric, MO: Metric, F, R, FM, BM> {
    pub input_domain: DI,
    pub output_domain: DO,
    pub function: Function<DI, DO, F>,
    pub input_metric: MI,
    pub output_metric: MO,
    pub stability_relation: StabilityRelation<MI, MO, R, FM, BM>,
}

impl<DI, DO, MI, MO, G, R> Transformation<DI, DO, MI, MO, Pure<G>, R, Cast, Cast> where
    DI: Domain,
    DO: Domain,
    MI: Metric,
    MO: Metric,
    G: Fn(&DI::Carrier) -> DO::Carrier,
    R: DistancePairMap<MI::Distance, MO::Distance, bool>,
 {
    /// The transformation with the given parts, of a computation that cannot
    /// fail and a predicate as its relation.
    pub fn new(
        input_domain: DI,
        output_domain: DO,
        function: G,
        input_metric: MI,
        output_metric: MO,
        stability_relation: R,
    ) -> (res: Self)
        ensures
            res.input_domain == input_domain,
            res.output_domain == output_domain,
            res.function.function.inner == function,
            res.input_metric == input_metric,
            res.output_metric == output_metric,
            res.stability_relation matches StabilityRelation::Function(r) && *r
                == stability_relation,
    {
        Transformation {
            input_domain,
            output_domain,
            function: Function::new(function),
            input_metric,
            output_metric,
            stability_relation: StabilityRelation::new(stability_relation),
        }
    }
}

impl<DI, DO, MI, MO, G> Transformation<DI, DO, MI, MO, Pure<G>, Fixed, Cast, Cast> where
    DI: Domain,
    DO: Domain,
    MI: Metric,
    MO: Metric,
    G: Fn(&DI::Carrier) -> DO::Carrier,
 {
    /// The transformation with the given parts, of a computation that cannot
    /// fail and a factor as its relation.
    pub fn new_constant_stability(
        input_domain: DI,
        output_domain: DO,
        function: G,
        input_metric: MI,
        output_metric: MO,
        stability_constant: MO::Distance,
    ) -> (res: Self)
        ensures
            res.input_domain == input_domain,
            res.output_domain == output_domain,
            res.function.function.inner == function,
            res.input_metric == input_metric,
            res.output_metric == output_metric,
            res.stability_relation matches StabilityRelation::Constant { value, .. } && value
                == stability_constant,
    {
        Transformation {
            input_domain,
            output_domain,
            function: Function::new(function),
            input_metric,
            output_metric,
            stability_relation: StabilityRelation::new_from_constant(stability_constant),
        }
    }
}

impl<DI, DO, MI, MO, F, R, FM, BM> Transformation<DI, DO, MI, MO, F, R, FM, BM> where
    DI: Domain,
    DO: Domain,
    MI: Metric,
    MO: Metric,
    MI::Distance: DistanceConstant,
    MO::Distance: DistanceConstant,
    F: Mapping<DI::Carrier, DO::Carrier>,
    R: DistancePairMap<MI::Distance, MO::Distance, bool>,
    FM: DistanceMap<MI::Distance, MO::Distance>,
    BM: DistanceMap<MO::Distance, MI::Distance>,
 {
    /// Runs the transformation on `arg`.
    pub fn invoke(&self, arg: &DI::Carrier) -> (res: Fallible<DO::Carrier>)
        requires
            self.function.defined(*arg),
        ensures
            self.function.maps(*arg, res),
    {
        self.function.eval(arg)
    }

    /// Asks the stability relation whether inputs at most `d_in` apart give
    /// outputs at most `d_out` apart. With a factor, a product that leaves
    /// the output's type is reported as a failed cast.
    pub fn check(&self, d_in: &MI::Distance, d_out: &MO::Distance) -> (res: Fallible<bool>)
        requires
            !(self.stability_relation is Constant) ==> self.stability_relation.evaluable(
                *d_in,
                *d_out,
            ),
        ensures
            res is Ok <==> self.stability_relation.evaluable(*d_in, *d_out),
            res matches Ok(holds) ==> holds == self.stability_relation.relates(*d_in, *d_out),
            res matches Err(e) ==> e.variant == crate::error::ErrorVariant::NumericCast,
    {
        self.stability_relation.try_eval(d_in, d_out)
    }
}

} // verus!

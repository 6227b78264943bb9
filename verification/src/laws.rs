use vstd::prelude::*;
use vstd::arithmetic::div_mod::lemma_div_by_multiple;
use crate::dist::Metric;
use crate::exponential::scaled_relation_holds;
use crate::order::{count_at_most, TotalOrder};
use crate::quantile::{quantile_score, Proportion};
use crate::relation::{DistanceMap, DistancePairMap};
use crate::samplers::{geometric_draw, lemma_first_nonzero_bound};
use crate::stability::{ChainOf, StabilityRelation};
use crate::traits::{truncated_quotient, DistanceConstant};

verus! {

/// A relation that has a forward map is monotone: where it holds of an
/// output distance, it holds of every greater one.
pub proof fn lemma_stability_monotone<MI, MO, R, F, B>(
    relation: StabilityRelation<MI, MO, R, F, B>,
    d_in: MI::Distance,
    d_out: MO::Distance,
    greater: MO::Distance,
) where
    MI: Metric,
    MO: Metric,
    MI::Distance: DistanceConstant,
    MO::Distance: DistanceConstant,
    R: DistancePairMap<MI::Distance, MO::Distance, bool>,
    F: DistanceMap<MI::Distance, MO::Distance>,
    B: DistanceMap<MO::Distance, MI::Distance>,

    requires
        relation.has_forward(),
        relation.relates(d_in, d_out),
        greater.value() >= d_out.value(),
    ensures
        relation.relates(d_in, greater),
{
}

/// The relation of a mechanism with a positive scale is monotone: where it
/// holds of an output distance, it holds of every greater one.
pub proof fn lemma_scaled_monotone(scale: int, d_in: int, d_out: int, greater: int)
    requires
        scale > 0,
        scaled_relation_holds(scale, d_in, d_out),
        greater >= d_out,
    ensures
        scaled_relation_holds(scale, d_in, greater),
{
    assert(greater * scale >= d_out * scale) by (nonlinear_arith)
        requires
            scale > 0,
            greater >= d_out,
    ;
}

/// Dividing a multiple of a number by that number, rounding toward zero,
/// gives the factor back.
pub proof fn lemma_quotient_of_multiple(d: int, c: int)
    requires
        c != 0,
    ensures
        truncated_quotient(d * c, c) == d,
{
    let a = d * c;
    if c > 0 && d >= 0 {
        assert(a >= 0) by (nonlinear_arith)
            requires
                a == d * c,
                c > 0,
                d >= 0,
        ;
        lemma_div_by_multiple(d, c);
    } else if c > 0 {
        assert(a < 0 && -a == (-d) * c) by (nonlinear_arith)
            requires
                a == d * c,
                c > 0,
                d < 0,
        ;
        lemma_div_by_multiple(-d, c);
    } else if d > 0 {
        assert(a < 0 && -a == d * (-c)) by (nonlinear_arith)
            requires
                a == d * c,
                c < 0,
                d > 0,
        ;
        lemma_div_by_multiple(d, -c);
    } else if d == 0 {
        assert(a == 0) by (nonlinear_arith)
            requires
                a == d * c,
                d == 0,
        ;
        lemma_div_by_multiple(0, -c);
        assert(0 * (-c) == 0) by (nonlinear_arith);
    } else {
        assert(a > 0 && a == (-d) * (-c)) by (nonlinear_arith)
            requires
                a == d * c,
                c < 0,
                d < 0,
        ;
        lemma_div_by_multiple(-d, -c);
    }
}

/// With a factor that is not zero, the backward map of a constant relation
/// takes what the forward map gives back to where it came from.
pub proof fn lemma_constant_round_trip<MI, MO, R, F, B>(
    relation: StabilityRelation<MI, MO, R, F, B>,
    d_in: MI::Distance,
) where
    MI: Metric,
    MO: Metric,
    MI::Distance: DistanceConstant,
    MO::Distance: DistanceConstant,
    R: DistancePairMap<MI::Distance, MO::Distance, bool>,
    F: DistanceMap<MI::Distance, MO::Distance>,
    B: DistanceMap<MO::Distance, MI::Distance>,

    requires
        relation is Constant,
        relation->Constant_value.value() != 0,
        relation.forward_defined(d_in),
    ensures
        relation.backward_defined(relation.forward_spec(d_in)->Some_0),
        relation.backward_spec(relation.forward_spec(d_in)->Some_0) == Some(d_in),
{
    let c = relation->Constant_value.value();
    let d = d_in.value();
    MO::Distance::lemma_representable(d * c);
    lemma_quotient_of_multiple(d, c);
    d_in.lemma_value(&d_in);
    MI::Distance::lemma_representable(d);
    d_in.lemma_value(&MI::Distance::from_value(d));
}

/// Where the backward map of a relation undoes its forward map at a
/// distance, mapping forward and then backward gives that distance back.
pub proof fn lemma_map_round_trip<MI, MO, R, F, B>(
    relation: StabilityRelation<MI, MO, R, F, B>,
    d_in: MI::Distance,
) where
    MI: Metric,
    MO: Metric,
    MI::Distance: DistanceConstant,
    MO::Distance: DistanceConstant,
    R: DistancePairMap<MI::Distance, MO::Distance, bool>,
    F: DistanceMap<MI::Distance, MO::Distance>,
    B: DistanceMap<MO::Distance, MI::Distance>,

    requires
        relation matches StabilityRelation::Mapped { forward, backward: Some(backward) }
            && backward.image(forward.image(d_in)) == d_in,
    ensures
        relation.backward_spec(relation.forward_spec(d_in)->Some_0) == Some(d_in),
{
}

/// The chain of two constant relations asks what its stages ask one after
/// the other: its forward map is the second stage's forward map of what the
/// first stage's gives, and it holds of an output distance where the second
/// stage holds of it at that distance in between.
pub proof fn lemma_constant_chain_agrees<MI, MX, MO, R0, F0, B0, R1, F1, B1, H>(
    chain: ChainOf<MI, MX, MO, R0, F0, B0, R1, F1, B1, H>,
    relation1: StabilityRelation<MX, MO, R1, F1, B1>,
    relation0: StabilityRelation<MI, MX, R0, F0, B0>,
    d_in: MI::Distance,
    d_out: MO::Distance,
) where
    MI: Metric,
    MX: Metric,
    MO: Metric,
    MI::Distance: DistanceConstant,
    MX::Distance: DistanceConstant,
    MO::Distance: DistanceConstant,
    R0: DistancePairMap<MI::Distance, MX::Distance, bool>,
    F0: DistanceMap<MI::Distance, MX::Distance>,
    B0: DistanceMap<MX::Distance, MI::Distance>,
    R1: DistancePairMap<MX::Distance, MO::Distance, bool>,
    F1: DistanceMap<MX::Distance, MO::Distance>,
    B1: DistanceMap<MO::Distance, MX::Distance>,
    H: DistancePairMap<MI::Distance, MO::Distance, MX::Distance>,

    requires
        relation0 is Constant,
        relation1 is Constant,
        ChainOf::<MI, MX, MO, R0, F0, B0, R1, F1, B1, H>::is_plain_chain(
            Ok(chain),
            relation1,
            relation0,
        ),
        relation0.forward_defined(d_in),
        relation1.forward_defined(relation0.forward_spec(d_in)->Some_0),
    ensures
        chain matches StabilityRelation::Constant { value, .. } && value.value()
            == relation1->Constant_value.value() * relation0->Constant_value.value(),
        chain.forward_spec(d_in) == relation1.forward_spec(relation0.forward_spec(d_in)->Some_0),
        chain.relates(d_in, d_out) == relation1.relates(
            relation0.forward_spec(d_in)->Some_0,
            d_out,
        ),
{
    let c0 = relation0->Constant_value.value();
    let c1 = relation1->Constant_value.value();
    let d = d_in.value();
    MX::Distance::lemma_representable(d * c0);
    assert(d * (c0 * c1) == (d * c0) * c1) by (nonlinear_arith);
    assert(c1 * c0 == c0 * c1) by (nonlinear_arith);
}

/// Adding one element to a data set moves the score of a candidate by at
/// most the larger of the quantile and its complement.
pub proof fn lemma_score_sensitivity<TI: TotalOrder>(
    x: Seq<TI>,
    added: TI,
    candidate: TI,
    alpha: Proportion,
)
    requires
        alpha.valid(),
    ensures
        quantile_score(x.push(added), candidate, alpha) - quantile_score(x, candidate, alpha)
            <= alpha.larger_share(),
        quantile_score(x, candidate, alpha) - quantile_score(x.push(added), candidate, alpha)
            <= alpha.larger_share(),
{
    let longer = x.push(added);
    assert(longer.drop_last() =~= x);
    assert(longer.last() == added);
    let k = count_at_most(x, candidate) as int;
    let n = x.len() as int;
    let den = alpha.denom as int;
    let num = alpha.numer as int;
    assert(den * (k + 1) == den * k + den) by (nonlinear_arith);
    assert(num * (n + 1) == num * n + num) by (nonlinear_arith);
}

/// Replacing one element of a data set moves the score of a candidate by at
/// most one, that is by the denominator of the quantile at most.
pub proof fn lemma_score_sensitivity_sized<TI: TotalOrder>(
    x: Seq<TI>,
    old_element: TI,
    new_element: TI,
    candidate: TI,
    alpha: Proportion,
)
    requires
        alpha.valid(),
    ensures
        quantile_score(x.push(new_element), candidate, alpha) - quantile_score(
            x.push(old_element),
            candidate,
            alpha,
        ) <= alpha.denom,
{
    let before = x.push(old_element);
    let after = x.push(new_element);
    assert(before.drop_last() =~= x);
    assert(after.drop_last() =~= x);
    assert(before.last() == old_element);
    assert(after.last() == new_element);
    let k = count_at_most(x, candidate) as int;
    let den = alpha.denom as int;
    assert(den * (k + 1) == den * k + den) by (nonlinear_arith);
}

/// Where the pool holds enough bytes for a draw in constant time, the
/// geometric draw gives the same position in both modes.
pub proof fn lemma_geometric_modes_agree(avail: Seq<u8>, limit: nat)
    requires
        limit <= avail.len(),
    ensures
        geometric_draw(avail, limit, true).0 == geometric_draw(avail, limit, false).0,
{
    let window = avail.subrange(0, limit as int);
    lemma_first_nonzero_bound(window, 0);
}

} // verus!

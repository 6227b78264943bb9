use vstd::prelude::*;
use vstd::seq_lib::{commutative_foldl, lemma_fold_left_permutation, to_multiset_len};
use crate::dist::{InfDistance, SubstituteDistance, SymmetricDistance};
use crate::dom::{AllDomain, SizedDomain, VectorDomain};
use crate::error::{Error, ErrorVariant, Fallible};
use crate::function::{Function, Mapping};
use crate::measurement::Transformation;
use crate::order::{
    count_at_most, count_below, lemma_count_below_at_boundary, lemma_count_below_bound, sorted,
    TotalOrder,
};
use crate::quantile::{count_lte, lemma_count_of_permutation, Proportion};
use crate::relation::{Cast, Fixed};
use crate::sorting::sort_by_rank;
use crate::stability::StabilityRelation;

verus! {

/// Finds by bisection the number of elements of `x` that lie below `target`.
///
/// Whatever the order of `x`, the result is a place where the elements change
/// from "below the target" to "at least the target". For a sorted `x` that
/// place is the count.
pub fn count_lt<TI: TotalOrder>(x: &[TI], target: &TI) -> (res: usize)
    ensures
        res <= x@.len(),
        res > 0 ==> x@[res - 1].rank() < target.rank(),
        res < x@.len() ==> x@[res as int].rank() >= target.rank(),
        sorted(x@) ==> res == count_below(x@, *target),
{
    if x.len() == 0 {
        return 0;
    }
    let mut lower: usize = 0;
    let mut upper: usize = x.len();
    while upper - lower > 1
        invariant
            lower < upper <= x@.len(),
            lower > 0 ==> x@[lower as int].rank() < target.rank(),
            upper < x@.len() ==> x@[upper as int].rank() >= target.rank(),
        decreases upper - lower,
    {
        let middle: usize = lower + (upper - lower) / 2;
        if target.at_most(&x[middle]) {
            upper = middle;
        } else {
            lower = middle;
        }
    }
    let res: usize = if target.at_most(&x[lower]) {
        lower
    } else {
        upper
    };
    proof {
        if sorted(x@) {
            lemma_count_below_at_boundary(x@, *target, res as int);
        }
    }
    res
}

/// How far a candidate is from the quantile, in units of `1 / alpha.denom`:
/// with `lt` elements below it and `gt` above it,
/// `|(denom - numer) * lt - numer * gt|`, that is `denom` times
/// `|(1 - alpha) * lt - alpha * gt|`.
pub open spec fn imbalance(num_lt: int, num_gt: int, alpha: Proportion) -> int {
    let weighed = (alpha.denom - alpha.numer) * num_lt - alpha.numer * num_gt;
    if weighed >= 0 {
        weighed
    } else {
        -weighed
    }
}

/// The utility of a candidate on the data set `x`, in units of
/// `1 / alpha.denom`: the greatest imbalance that `x` allows, less the
/// imbalance of the candidate.
pub open spec fn quantile_utility<TI: TotalOrder>(x: Seq<TI>, candidate: TI, alpha: Proportion) -> int {
    alpha.larger_share() * x.len() - imbalance(
        count_below(x, candidate) as int,
        x.len() - count_at_most(x, candidate),
        alpha,
    )
}

/// Scores a candidate by the numbers of elements below it and above it: its
/// imbalance.
pub fn score_candidate(num_lt: usize, num_gt: usize, alpha: Proportion) -> (res: i128)
    ensures
        res == imbalance(num_lt as int, num_gt as int, alpha),
        0 <= res <= 0x2_0000_0000 * 0x1_0000_0000_0000_0000,
{
    let below: i128 = alpha.denom as i128 - alpha.numer as i128;
    let above: i128 = alpha.numer as i128;
    proof {
        assert(-0x1_0000_0000 * 0x1_0000_0000_0000_0000 <= below * num_lt <= 0x1_0000_0000
            * 0x1_0000_0000_0000_0000) by (nonlinear_arith)
            requires
                -0x1_0000_0000 < below < 0x1_0000_0000,
                0 <= num_lt < 0x1_0000_0000_0000_0000,
        ;
        assert(0 <= above * num_gt <= 0x1_0000_0000 * 0x1_0000_0000_0000_0000)
            by (nonlinear_arith)
            requires
                0 <= above < 0x1_0000_0000,
                0 <= num_gt < 0x1_0000_0000_0000_0000,
        ;
    }
    let weighed: i128 = below * (num_lt as i128) - above * (num_gt as i128);
    if weighed >= 0 {
        weighed
    } else {
        -weighed
    }
}

/// The number of elements below the target as a fold over the sequence.
proof fn lemma_count_below_is_fold<TI: TotalOrder>(s: Seq<TI>, target: TI)
    ensures
        count_below(s, target) == s.fold_left(
            0nat,
            |acc: nat, e: TI|
                if e.rank() < target.rank() {
                    (acc + 1) as nat
                } else {
                    acc
                },
        ),
    decreases s.len(),
{
    if s.len() > 0 {
        lemma_count_below_is_fold(s.drop_last(), target);
    }
}

/// Two sequences with the same elements, each as often, have as many
/// elements below a target.
pub proof fn lemma_count_below_of_permutation<TI: TotalOrder>(a: Seq<TI>, b: Seq<TI>, target: TI)
    requires
        a.to_multiset() == b.to_multiset(),
    ensures
        count_below(a, target) == count_below(b, target),
{
    let step = |acc: nat, e: TI|
        if e.rank() < target.rank() {
            (acc + 1) as nat
        } else {
            acc
        };
    assert(commutative_foldl(step));
    lemma_count_below_is_fold(a, target);
    lemma_count_below_is_fold(b, target);
    lemma_fold_left_permutation(a, b, step, 0nat);
}

/// Scores each candidate against the data set `x` by its utility.
///
/// `x` is sorted once, and the elements below and above each candidate are
/// counted by bisection. The scores come in the order of the candidates,
/// which need not be sorted. A score that does not fit the result type is
/// reported as a failed cast.
pub fn score<TI: TotalOrder>(x: Vec<TI>, candidates: &Vec<TI>, alpha: Proportion) -> (res: Fallible<
    Vec<i64>,
>)
    ensures
        res is Ok <==> forall|i: int|
            0 <= i < candidates@.len() ==> i64::MIN <= quantile_utility(
                x@,
                #[trigger] candidates@[i],
                alpha,
            ) <= i64::MAX,
        res matches Ok(scores) ==> {
            &&& scores@.len() == candidates@.len()
            &&& forall|i: int|
                0 <= i < candidates@.len() ==> (#[trigger] scores@[i]) == quantile_utility(
                    x@,
                    candidates@[i],
                    alpha,
                )
        },
        res matches Err(e) ==> e.variant == ErrorVariant::NumericCast,
{
    let ghost given = x@;
    let mut data = x;
    sort_by_rank(&mut data);
    proof {
        to_multiset_len(data@);
        to_multiset_len(given);
    }
    let n: usize = data.len();
    let complement: i128 = alpha.denom as i128 - alpha.numer as i128;
    let constant: i128 = if alpha.numer as i128 >= complement {
        alpha.numer as i128
    } else {
        complement
    };
    proof {
        assert(-0x1_0000_0000 * 0x1_0000_0000_0000_0000 <= constant * n <= 0x1_0000_0000
            * 0x1_0000_0000_0000_0000) by (nonlinear_arith)
            requires
                -0x1_0000_0000 < constant < 0x1_0000_0000,
                0 <= n < 0x1_0000_0000_0000_0000,
        ;
    }
    let greatest: i128 = constant * (n as i128);

    let mut scores: Vec<i64> = Vec::new();
    let mut i: usize = 0;
    while i < candidates.len()
        invariant
            i <= candidates@.len(),
            given == x@,
            sorted(data@),
            data@.to_multiset() == given.to_multiset(),
            data@.len() == given.len(),
            n == data@.len(),
            greatest == alpha.larger_share() * n,
            scores@.len() == i,
            forall|j: int|
                0 <= j < i ==> (#[trigger] scores@[j]) == quantile_utility(
                    given,
                    candidates@[j],
                    alpha,
                ),
        decreases candidates@.len() - i,
    {
        let candidate = &candidates[i];
        let num_lt: usize = count_lt(data.as_slice(), candidate);
        let num_lte: usize = count_lte(data.as_slice(), candidate);
        proof {
            lemma_count_of_permutation(data@, given, *candidate);
            lemma_count_below_of_permutation(data@, given, *candidate);
            lemma_count_below_bound(given, *candidate);
        }
        let value: i128 = greatest - score_candidate(num_lt, n - num_lte, alpha);
        assert(value == quantile_utility(given, candidates@[i as int], alpha));
        if value < i64::MIN as i128 || value > i64::MAX as i128 {
            return Err(Error::new(ErrorVariant::NumericCast));
        }
        scores.push(value as i64);
        i += 1;
    }
    proof {
        assert forall|j: int| 0 <= j < candidates@.len() implies i64::MIN <= quantile_utility(
            x@,
            #[trigger] candidates@[j],
            alpha,
        ) <= i64::MAX by {
            assert(scores@[j] == quantile_utility(given, candidates@[j], alpha));
        }
    }
    Ok(scores)
}

/// The function that scores a fixed list of candidates by their utility on
/// the data set that it is given.
pub struct UtilityScorer<TI> {
    pub candidates: Vec<TI>,
    pub alpha: Proportion,
}

impl<TI: TotalOrder + Copy> Mapping<Vec<TI>, Vec<i64>> for UtilityScorer<TI> {
    open spec fn defined(&self, arg: Vec<TI>) -> bool {
        true
    }

    open spec fn maps(&self, arg: Vec<TI>, res: Fallible<Vec<i64>>) -> bool {
        &&& res is Ok <==> forall|i: int|
            0 <= i < self.candidates@.len() ==> i64::MIN <= quantile_utility(
                arg@,
                #[trigger] self.candidates@[i],
                self.alpha,
            ) <= i64::MAX
        &&& res matches Ok(scores) ==> {
            &&& scores@.len() == self.candidates@.len()
            &&& forall|i: int|
                0 <= i < self.candidates@.len() ==> (#[trigger] scores@[i]) == quantile_utility(
                    arg@,
                    self.candidates@[i],
                    self.alpha,
                )
        }
        &&& res matches Err(e) ==> e.variant == ErrorVariant::NumericCast
    }

    fn call(&self, arg: &Vec<TI>) -> (res: Fallible<Vec<i64>>) {
        let mut data: Vec<TI> = Vec::new();
        let mut i: usize = 0;
        while i < arg.len()
            invariant
                i <= arg@.len(),
                data@ == arg@.subrange(0, i as int),
            decreases arg@.len() - i,
        {
            data.push(arg[i]);
            i += 1;
            assert(data@ =~= arg@.subrange(0, i as int));
        }
        assert(data@ =~= arg@);
        score(data, &self.candidates, self.alpha)
    }
}

/// Makes the transformation that scores each candidate by its utility for
/// the `alpha`-quantile of a data set of any size.
///
/// The scores are in units of `1 / alpha.denom`, and so is the stability
/// constant, which is the larger of `alpha` and `1 - alpha`. A quantile that
/// is no proportion is refused.
pub fn make_quantile_discrete_exponential<TI: TotalOrder + Copy>(
    candidates: Vec<TI>,
    alpha: Proportion,
) -> (res: Fallible<
    Transformation<
        VectorDomain<AllDomain<TI>>,
        VectorDomain<AllDomain<i64>>,
        SymmetricDistance,
        InfDistance<i64>,
        UtilityScorer<TI>,
        Fixed,
        Cast,
        Cast,
    >,
>)
    ensures
        res is Ok <==> alpha.valid(),
        res matches Err(e) ==> e.variant == ErrorVariant::InvalidDistance,
        res matches Ok(scorer) ==> {
            &&& scorer.function.function.candidates == candidates
            &&& scorer.function.function.alpha == alpha
            &&& scorer.stability_relation matches StabilityRelation::Constant { value, .. }
                && value == alpha.larger_share()
        },
{
    if alpha.denom == 0 || alpha.numer > alpha.denom {
        return Err(Error::new(ErrorVariant::InvalidDistance));
    }
    let complement: u32 = alpha.denom - alpha.numer;
    let constant: i64 = if alpha.numer >= complement {
        alpha.numer as i64
    } else {
        complement as i64
    };
    Ok(
        Transformation {
            input_domain: VectorDomain::new_all(),
            output_domain: VectorDomain::new_all(),
            function: Function::new_fallible(UtilityScorer { candidates, alpha }),
            input_metric: SymmetricDistance,
            output_metric: InfDistance::new(),
            stability_relation: StabilityRelation::new_from_constant(constant),
        },
    )
}

/// Makes the transformation that scores each candidate by its utility for
/// the `alpha`-quantile of a data set of the given size.
///
/// The scores are in units of `1 / alpha.denom`, and so is the stability
/// constant, which is 1, that is `alpha.denom` in those units. A quantile
/// that is no proportion is refused.
pub fn make_sized_quantile_discrete_exponential<TI: TotalOrder + Copy>(
    size: usize,
    candidates: Vec<TI>,
    alpha: Proportion,
) -> (res: Fallible<
    Transformation<
        SizedDomain<VectorDomain<AllDomain<TI>>>,
        VectorDomain<AllDomain<i64>>,
        SubstituteDistance,
        InfDistance<i64>,
        UtilityScorer<TI>,
        Fixed,
        Cast,
        Cast,
    >,
>)
    ensures
        res is Ok <==> alpha.valid(),
        res matches Err(e) ==> e.variant == ErrorVariant::InvalidDistance,
        res matches Ok(scorer) ==> {
            &&& scorer.input_domain.length == size
            &&& scorer.function.function.candidates == candidates
            &&& scorer.function.function.alpha == alpha
            &&& scorer.stability_relation matches StabilityRelation::Constant { value, .. }
                && value == alpha.denom
        },
{
    if alpha.denom == 0 || alpha.numer > alpha.denom {
        return Err(Error::new(ErrorVariant::InvalidDistance));
    }
    Ok(
        Transformation {
            input_domain: SizedDomain::new(VectorDomain::new_all(), size),
            output_domain: VectorDomain::new_all(),
            function: Function::new_fallible(UtilityScorer { candidates, alpha }),
            input_metric: SubstituteDistance,
            output_metric: InfDistance::new(),
            stability_relation: StabilityRelation::new_from_constant(alpha.denom as i64),
        },
    )
}

} // verus!

use vstd::prelude::*;
use vstd::slice::slice_subrange;
use vstd::seq_lib::{commutative_foldl, lemma_fold_left_permutation, to_multiset_len};
use std::marker::PhantomData;
use crate::dist::{AbsoluteDistance, SupDistance, SymmetricDistance};
use crate::dom::{AllDomain, SizedDomain, VectorDomain};
use crate::error::{Error, ErrorVariant, Fallible};
use crate::function::{Function, Mapping};
use crate::measurement::Transformation;
use crate::order::{TotalOrder, sorted, strictly_increasing, count_at_most, lemma_count_at_boundary, lemma_count_at_most_split};
use crate::relation::{Cast, Fixed};
use crate::stability::StabilityRelation;
use crate::sorting::sort_by_rank;

verus! {

/// Finds by bisection the number of elements of `x` that are at most `target`.
///
/// Whatever the order of `x`, the result is a place where the elements change
/// from "at most the target" to "greater than the target". For a sorted `x`
/// that place is the count.
pub fn count_lte<TI: TotalOrder>(x: &[TI], target: &TI) -> (res: usize)
    ensures
        res <= x@.len(),
        res > 0 ==> x@[res - 1].rank() <= target.rank(),
        res < x@.len() ==> x@[res as int].rank() > target.rank(),
        sorted(x@) ==> res == count_at_most(x@, *target),
{
    if x.len() == 0 {
        return 0;
    }
    let mut lower: usize = 0;
    let mut upper: usize = x.len();
    while upper - lower > 1
        invariant
            lower < upper <= x@.len(),
            lower > 0 ==> x@[lower as int].rank() <= target.rank(),
            upper < x@.len() ==> x@[upper as int].rank() > target.rank(),
        decreases upper - lower,
    {
        let middle: usize = lower + (upper - lower) / 2;
        if x[middle].at_most(target) {
            lower = middle;
        } else {
            upper = middle;
        }
    }
    let res: usize = if x[lower].at_most(target) {
        upper
    } else {
        lower
    };
    proof {
        if sorted(x@) {
            lemma_count_at_boundary(x@, *target, res as int);
        }
    }
    res
}

/// What the counts hold, edge by edge, when both sequences are sorted.
pub open spec fn counted<TI: TotalOrder>(
    counts: Seq<usize>,
    offset: int,
    edges: Seq<TI>,
    x: Seq<TI>,
    x_start_idx: int,
) -> bool {
    forall|i: int|
        0 <= i < edges.len() ==> (#[trigger] counts[offset + i]) == x_start_idx + count_at_most(
            x,
            edges[i],
        )
}

proof fn lemma_sorted_subrange<TI: TotalOrder>(s: Seq<TI>, a: int, b: int)
    requires
        sorted(s),
        0 <= a <= b <= s.len(),
    ensures
        sorted(s.subrange(a, b)),
{
    let t = s.subrange(a, b);
    assert forall|i: int, j: int| 0 <= i <= j < t.len() implies t[i].rank() <= t[j].rank() by {
        assert(t[i] == s[a + i] && t[j] == s[a + j]);
    }
}

/// Below the place where a sorted `x` starts to exceed `pivot`, an edge that
/// is at most `pivot` counts as it does in the whole of `x`.
proof fn lemma_count_left<TI: TotalOrder>(x: Seq<TI>, m: int, pivot: TI, edge: TI)
    requires
        sorted(x),
        0 <= m <= x.len(),
        m < x.len() ==> x[m].rank() > pivot.rank(),
        edge.rank() <= pivot.rank(),
    ensures
        count_at_most(x.subrange(0, m), edge) == count_at_most(x, edge),
{
    let right = x.subrange(m, x.len() as int);
    lemma_count_at_most_split(x, edge, m);
    lemma_sorted_subrange(x, m, x.len() as int);
    if m < x.len() {
        assert(right[0] == x[m]);
    }
    lemma_count_at_boundary(right, edge, 0);
}

/// From that place on, an edge that is at least `pivot` counts the whole left
/// part and what it counts in the right part.
proof fn lemma_count_right<TI: TotalOrder>(x: Seq<TI>, m: int, pivot: TI, edge: TI)
    requires
        sorted(x),
        0 <= m <= x.len(),
        m > 0 ==> x[m - 1].rank() <= pivot.rank(),
        pivot.rank() <= edge.rank(),
    ensures
        count_at_most(x, edge) == m + count_at_most(x.subrange(m, x.len() as int), edge),
{
    let left = x.subrange(0, m);
    lemma_count_at_most_split(x, edge, m);
    lemma_sorted_subrange(x, 0, m);
    if m > 0 {
        assert(left[m - 1] == x[m - 1]);
    }
    lemma_count_at_boundary(left, edge, m);
}

/// The recursion of [`count_lte_recursive`], writing the count of `edges[i]`
/// to `counts[offset + i]`.
fn count_lte_at<TI: TotalOrder>(
    counts: &mut [usize],
    offset: usize,
    edges: &[TI],
    x: &[TI],
    x_start_idx: usize,
)
    requires
        offset + edges@.len() <= old(counts)@.len(),
        x_start_idx + x@.len() <= usize::MAX,
    ensures
        final(counts)@.len() == old(counts)@.len(),
        forall|i: int|
            0 <= i < offset || offset + edges@.len() <= i < old(counts)@.len()
                ==> final(counts)@[i] == old(counts)@[i],
        forall|i: int|
            offset <= i < offset + edges@.len() ==> x_start_idx <= (#[trigger] final(counts)@[i])
                <= x_start_idx + x@.len(),
        sorted(x@) && sorted(edges@) ==> counted(
            final(counts)@,
            offset as int,
            edges@,
            x@,
            x_start_idx as int,
        ),
    decreases edges@.len(),
{
    if edges.len() == 0 {
        return ;
    }
    if edges.len() == 1 {
        let found: usize = count_lte(x, &edges[0]);
        counts[offset] = x_start_idx + found;
        return ;
    }
    // the middle, rounded up
    let mid_edge_idx: usize = edges.len() / 2 + edges.len() % 2;
    let mid_edge = &edges[mid_edge_idx];
    let mid_x_idx: usize = count_lte(x, mid_edge);
    counts[offset + mid_edge_idx] = x_start_idx + mid_x_idx;
    let ghost at_mid = counts@;

    let left_edges = slice_subrange(edges, 0, mid_edge_idx);
    let left_x = slice_subrange(x, 0, mid_x_idx);
    count_lte_at(counts, offset, left_edges, left_x, x_start_idx);
    let ghost at_left = counts@;

    let right_edges = slice_subrange(edges, mid_edge_idx + 1, edges.len());
    let right_x = slice_subrange(x, mid_x_idx, x.len());
    count_lte_at(counts, offset + mid_edge_idx + 1, right_edges, right_x, x_start_idx + mid_x_idx);

    proof {
        assert(at_left[offset + mid_edge_idx] == at_mid[offset + mid_edge_idx]);
        assert forall|i: int| offset <= i < offset + edges@.len() implies x_start_idx <= (
        #[trigger] counts@[i]) <= x_start_idx + x@.len() by {
            if i < offset + mid_edge_idx {
                assert(counts@[i] == at_left[i]);
            } else if i == offset + mid_edge_idx {
                assert(counts@[i] == at_left[i]);
            }
        }
        if sorted(x@) && sorted(edges@) {
            lemma_sorted_subrange(x@, 0, mid_x_idx as int);
            lemma_sorted_subrange(x@, mid_x_idx as int, x@.len() as int);
            lemma_sorted_subrange(edges@, 0, mid_edge_idx as int);
            lemma_sorted_subrange(edges@, mid_edge_idx as int + 1, edges@.len() as int);
            assert forall|i: int| 0 <= i < edges@.len() implies (#[trigger] counts@[offset + i])
                == x_start_idx + count_at_most(x@, edges@[i]) by {
                if i < mid_edge_idx {
                    assert(left_edges@[i] == edges@[i]);
                    assert(counts@[offset + i] == at_left[offset + i]);
                    lemma_count_left(x@, mid_x_idx as int, *mid_edge, edges@[i]);
                } else if i == mid_edge_idx {
                    assert(counts@[offset + i] == at_left[offset + i]);
                } else {
                    let k = i - mid_edge_idx - 1;
                    assert(right_edges@[k] == edges@[i]);
                    assert(counts@[offset + mid_edge_idx + 1 + k] == counts@[offset + i]);
                    lemma_count_right(x@, mid_x_idx as int, *mid_edge, edges@[i]);
                }
            }
        }
    }
}

/// Counts, for each edge, the elements of `x` that are at most that edge, and
/// adds `x_start_idx`.
///
/// The edges are halved around their middle, and with them the part of `x`
/// that can still matter, so `x` is not scanned once per edge. Entries of
/// `counts` beyond the number of edges are left as they are.
pub fn count_lte_recursive<TI: TotalOrder>(
    counts: &mut [usize],
    edges: &[TI],
    x: &[TI],
    x_start_idx: usize,
)
    requires
        edges@.len() <= old(counts)@.len(),
        x_start_idx + x@.len() <= usize::MAX,
    ensures
        final(counts)@.len() == old(counts)@.len(),
        forall|i: int|
            edges@.len() <= i < old(counts)@.len() ==> final(counts)@[i] == old(counts)@[i],
        forall|i: int|
            0 <= i < edges@.len() ==> x_start_idx <= (#[trigger] final(counts)@[i]) <= x_start_idx
                + x@.len(),
        sorted(x@) && sorted(edges@) ==> forall|i: int|
            0 <= i < edges@.len() ==> (#[trigger] final(counts)@[i]) == x_start_idx
                + count_at_most(x@, edges@[i]),
{
    count_lte_at(counts, 0, edges, x, x_start_idx);
    proof {
        if sorted(x@) && sorted(edges@) {
            assert forall|i: int| 0 <= i < edges@.len() implies (#[trigger] counts@[i])
                == x_start_idx + count_at_most(x@, edges@[i]) by {
                assert(counts@[0 + i] == counts@[i]);
            }
        }
    }
}

/// A quantile, given exactly as the fraction `numer / denom`.
#[derive(Clone, Copy, Debug, PartialEq, Eq, Structural)]
pub struct Proportion {
    pub numer: u32,
    pub denom: u32,
}

impl Proportion {
    /// Whether the fraction is defined and lies between 0 and 1.
    pub open spec fn valid(&self) -> bool {
        0 < self.denom && self.numer <= self.denom
    }

    /// The larger of the fraction and its complement, in units of `1 / denom`.
    pub open spec fn larger_share(&self) -> int {
        if self.numer >= self.denom - self.numer {
            self.numer as int
        } else {
            self.denom - self.numer
        }
    }
}

/// The score of one candidate: the distance of the observed count from the
/// ideal one, negated, in units of `1 / alpha.denom`.
///
/// With `n` elements in `x`, of which `k` are at most the candidate, this is
/// `-|denom * k - numer * n|`, that is `denom` times `-|k - alpha * n|`.
pub open spec fn quantile_score<TI: TotalOrder>(x: Seq<TI>, candidate: TI, alpha: Proportion) -> int {
    let observed = alpha.denom * count_at_most(x, candidate);
    let ideal = alpha.numer * x.len();
    if observed >= ideal {
        ideal - observed
    } else {
        observed - ideal
    }
}

/// The count as a fold over the sequence.
proof fn lemma_count_is_fold<TI: TotalOrder>(s: Seq<TI>, target: TI)
    ensures
        count_at_most(s, target) == s.fold_left(
            0nat,
            |acc: nat, e: TI|
                if e.rank() <= target.rank() {
                    (acc + 1) as nat
                } else {
                    acc
                },
        ),
    decreases s.len(),
{
    if s.len() > 0 {
        lemma_count_is_fold(s.drop_last(), target);
    }
}

/// Two sequences with the same elements, each as often, count alike.
pub proof fn lemma_count_of_permutation<TI: TotalOrder>(a: Seq<TI>, b: Seq<TI>, target: TI)
    requires
        a.to_multiset() == b.to_multiset(),
    ensures
        count_at_most(a, target) == count_at_most(b, target),
{
    let step = |acc: nat, e: TI|
        if e.rank() <= target.rank() {
            (acc + 1) as nat
        } else {
            acc
        };
    assert(commutative_foldl(step));
    lemma_count_is_fold(a, target);
    lemma_count_is_fold(b, target);
    lemma_fold_left_permutation(a, b, step, 0nat);
}

/// Scores each candidate against the data set `x`.
///
/// `x` is sorted once, the counts are taken for all candidates together, and
/// each count is turned into its score. A score that does not fit the result
/// type is reported as a failed cast.
pub fn score<TI: TotalOrder>(x: Vec<TI>, candidates: &Vec<TI>, alpha: Proportion) -> (res: Fallible<Vec<i64>>)
    requires
        sorted(candidates@),
    ensures
        res is Ok <==> forall|i: int|
            0 <= i < candidates@.len() ==> quantile_score(x@, #[trigger] candidates@[i], alpha)
                >= i64::MIN,
        res matches Ok(scores) ==> {
            &&& scores@.len() == candidates@.len()
            &&& forall|i: int|
                0 <= i < candidates@.len() ==> (#[trigger] scores@[i]) == quantile_score(
                    x@,
                    candidates@[i],
                    alpha,
                )
        },
        res matches Err(e) ==> e.variant == ErrorVariant::NumericCast,
{
    let ghost given = x@;
    let mut data = x;
    // the counts are found by bisection, so the data must be sorted
    sort_by_rank(&mut data);
    proof {
        to_multiset_len(data@);
        to_multiset_len(given);
    }
    let n: usize = data.len();

    let mut num_lte: Vec<usize> = Vec::new();
    let mut k: usize = 0;
    while k < candidates.len()
        invariant
            k <= candidates@.len(),
            num_lte@.len() == k,
        decreases candidates@.len() - k,
    {
        num_lte.push(0);
        k += 1;
    }
    count_lte_recursive(num_lte.as_mut_slice(), candidates.as_slice(), data.as_slice(), 0);

    let mut scores: Vec<i64> = Vec::new();
    let mut i: usize = 0;
    while i < candidates.len()
        invariant
            i <= candidates@.len(),
            num_lte@.len() == candidates@.len(),
            given == x@,
            data@.to_multiset() == given.to_multiset(),
            data@.len() == given.len(),
            n == data@.len(),
            forall|j: int|
                0 <= j < candidates@.len() ==> (#[trigger] num_lte@[j]) == count_at_most(
                    data@,
                    candidates@[j],
                ),
            scores@.len() == i,
            forall|j: int|
                0 <= j < i ==> (#[trigger] scores@[j]) == quantile_score(
                    given,
                    candidates@[j],
                    alpha,
                ),
        decreases candidates@.len() - i,
    {
        proof {
            lemma_count_of_permutation(data@, given, candidates@[i as int]);
            assert(num_lte@[i as int] <= usize::MAX);
            assert(alpha.denom * num_lte@[i as int] <= 0x1_0000_0000 * 0x1_0000_0000_0000_0000)
                by (nonlinear_arith)
                requires
                    0 <= alpha.denom < 0x1_0000_0000,
                    0 <= num_lte@[i as int] < 0x1_0000_0000_0000_0000,
            ;
            assert(alpha.numer * n <= 0x1_0000_0000 * 0x1_0000_0000_0000_0000)
                by (nonlinear_arith)
                requires
                    0 <= alpha.numer < 0x1_0000_0000,
                    0 <= n < 0x1_0000_0000_0000_0000,
            ;
            assert(0 <= alpha.denom * num_lte@[i as int]) by (nonlinear_arith)
                requires
                    0 <= alpha.denom,
                    0 <= num_lte@[i as int],
            ;
            assert(0 <= alpha.numer * n) by (nonlinear_arith)
                requires
                    0 <= alpha.numer,
                    0 <= n,
            ;
        }
        let observed: i128 = (alpha.denom as i128) * (num_lte[i] as i128);
        let ideal: i128 = (alpha.numer as i128) * (n as i128);
        let value: i128 = if observed >= ideal {
            ideal - observed
        } else {
            observed - ideal
        };
        assert(value == quantile_score(given, candidates@[i as int], alpha));
        if value < i64::MIN as i128 {
            assert(quantile_score(given, candidates@[i as int], alpha) < i64::MIN);
            return Err(Error::new(ErrorVariant::NumericCast));
        }
        scores.push(value as i64);
        i += 1;
    }
    proof {
        assert forall|j: int| 0 <= j < candidates@.len() implies quantile_score(
            x@,
            #[trigger] candidates@[j],
            alpha,
        ) >= i64::MIN by {
            assert(scores@[j] == quantile_score(given, candidates@[j], alpha));
        }
    }
    Ok(scores)
}

/// The function that scores a fixed list of candidates against the data set
/// that it is given.
pub struct QuantileScorer<TI> {
    pub candidates: Vec<TI>,
    pub alpha: Proportion,
}

impl<TI: TotalOrder + Copy> Mapping<Vec<TI>, Vec<i64>> for QuantileScorer<TI> {
    open spec fn defined(&self, arg: Vec<TI>) -> bool {
        sorted(self.candidates@)
    }

    open spec fn maps(&self, arg: Vec<TI>, res: Fallible<Vec<i64>>) -> bool {
        &&& res is Ok <==> forall|i: int|
            0 <= i < self.candidates@.len() ==> quantile_score(
                arg@,
                #[trigger] self.candidates@[i],
                self.alpha,
            ) >= i64::MIN
        &&& res matches Ok(scores) ==> {
            &&& scores@.len() == self.candidates@.len()
            &&& forall|i: int|
                0 <= i < self.candidates@.len() ==> (#[trigger] scores@[i]) == quantile_score(
                    arg@,
                    self.candidates@[i],
                    self.alpha,
                )
        }
        &&& res matches Err(e) ==> e.variant == ErrorVariant::NumericCast
    }

    fn call(&self, arg: &Vec<TI>) -> (res: Fallible<Vec<i64>>) {
        let mut data: Vec<TI> = Vec::new();
        let mut i: usize = 0;
        while i < arg.len()
            invariant
                i <= arg@.len(),
                data@ == arg@.subrange(0, i as int),
            decreases arg@.len() - i,
        {
            data.push(arg[i]);
            i += 1;
            assert(data@ =~= arg@.subrange(0, i as int));
        }
        assert(data@ =~= arg@);
        score(data, &self.candidates, self.alpha)
    }
}

/// Whether each candidate is greater than the one before it.
fn is_strictly_increasing<TI: TotalOrder>(candidates: &Vec<TI>) -> (res: bool)
    ensures
        res == strictly_increasing(candidates@),
{
    if candidates.len() < 2 {
        return true;
    }
    let mut i: usize = 1;
    while i < candidates.len()
        invariant
            1 <= i <= candidates@.len(),
            forall|a: int, b: int| 0 <= a < b < i ==> candidates@[a].rank() < candidates@[b].rank(),
        decreases candidates@.len() - i,
    {
        if candidates[i].at_most(&candidates[i - 1]) {
            assert(!(candidates@[i - 1].rank() < candidates@[i as int].rank()));
            return false;
        }
        proof {
            assert forall|a: int, b: int| 0 <= a < b < i + 1 implies candidates@[a].rank()
                < candidates@[b].rank() by {
                if b == i && a < i - 1 {
                    assert(candidates@[a].rank() < candidates@[i - 1].rank());
                }
            }
        }
        i += 1;
    }
    true
}

/// The type of the transformations that score candidates.
pub type ScorerTransformation<D, TI> = Transformation<
    D,
    VectorDomain<AllDomain<i64>>,
    SymmetricDistance,
    SupDistance<AbsoluteDistance<i64>>,
    QuantileScorer<TI>,
    Fixed,
    Cast,
    Cast,
>;

/// What both constructors of scorers check and build, but for the input
/// domain: the candidates must rise strictly and the quantile must be a
/// valid proportion, and the scorer has the stability constant `constant`.
pub open spec fn is_scorer<D: crate::dom::Domain, TI: TotalOrder>(
    res: Fallible<ScorerTransformation<D, TI>>,
    candidates: Vec<TI>,
    alpha: Proportion,
    constant: int,
) -> bool {
    if !strictly_increasing(candidates@) {
        res matches Err(e) && e.variant == ErrorVariant::MakeTransformation
    } else if !alpha.valid() {
        res matches Err(e) && e.variant == ErrorVariant::InvalidDistance
    } else {
        res matches Ok(scorer) && {
            &&& scorer.function.function.candidates == candidates
            &&& scorer.function.function.alpha == alpha
            &&& scorer.stability_relation matches StabilityRelation::Constant { value, .. }
                && value == constant
        }
    }
}

/// Makes the transformation that scores how close each candidate is to the
/// `alpha`-quantile of a data set of any size.
///
/// The scores are in units of `1 / alpha.denom`. When one element is added
/// or removed, a score moves by at most the larger of `alpha` and
/// `1 - alpha`, and the distance between two scores by at most twice that:
/// this is the stability constant, in the same units.
pub fn make_quantile_scorer_de<TI: TotalOrder + Copy>(candidates: Vec<TI>, alpha: Proportion) -> (res:
    Fallible<ScorerTransformation<VectorDomain<AllDomain<TI>>, TI>>)
    ensures
        is_scorer(res, candidates, alpha, 2 * alpha.larger_share()),
{
    if !is_strictly_increasing(&candidates) {
        return Err(Error::new(ErrorVariant::MakeTransformation));
    }
    if alpha.denom == 0 || alpha.numer > alpha.denom {
        return Err(Error::new(ErrorVariant::InvalidDistance));
    }
    let complement: u32 = alpha.denom - alpha.numer;
    let abs_dist_const: i64 = if alpha.numer >= complement {
        alpha.numer as i64
    } else {
        complement as i64
    };
    let sup_dist_const: i64 = 2 * abs_dist_const;
    Ok(
        Transformation {
            input_domain: VectorDomain::new_all(),
            output_domain: VectorDomain::new_all(),
            function: Function::new_fallible(QuantileScorer { candidates, alpha }),
            input_metric: SymmetricDistance,
            output_metric: SupDistance { inner: AbsoluteDistance { _marker: PhantomData } },
            stability_relation: StabilityRelation::new_from_constant(sup_dist_const),
        },
    )
}

/// Makes the transformation that scores how close each candidate is to the
/// `alpha`-quantile of a data set of the given size.
///
/// The scores are in units of `1 / alpha.denom`. Where the size is fixed,
/// two data sets differ by replaced elements, and the stability constant is
/// 1, that is `alpha.denom` in those units.
pub fn make_sized_quantile_scorer_de<TI: TotalOrder + Copy>(
    size: usize,
    candidates: Vec<TI>,
    alpha: Proportion,
) -> (res: Fallible<ScorerTransformation<SizedDomain<VectorDomain<AllDomain<TI>>>, TI>>)
    ensures
        is_scorer(res, candidates, alpha, alpha.denom as int),
        res matches Ok(scorer) ==> scorer.input_domain.length == size,
{
    if !is_strictly_increasing(&candidates) {
        return Err(Error::new(ErrorVariant::MakeTransformation));
    }
    if alpha.denom == 0 || alpha.numer > alpha.denom {
        return Err(Error::new(ErrorVariant::InvalidDistance));
    }
    Ok(
        Transformation {
            input_domain: SizedDomain::new(VectorDomain::new_all(), size),
            output_domain: VectorDomain::new_all(),
            function: Function::new_fallible(QuantileScorer { candidates, alpha }),
            input_metric: SymmetricDistance,
            output_metric: SupDistance { inner: AbsoluteDistance { _marker: PhantomData } },
            stability_relation: StabilityRelation::new_from_constant(alpha.denom as i64),
        },
    )
}

} // verus!

use vstd::prelude::*;

verus! {

/// Values that are totally ordered through an integer rank.
///
/// Data sets and candidates are compared through this trait, so that counting
/// and sorting can be stated over integers.
pub trait TotalOrder: Sized {
    /// The position of the value in the order.
    spec fn rank(&self) -> int;

    /// Values of the same rank are the same value.
    proof fn lemma_rank(&self, other: &Self)
        ensures
            self.rank() == other.rank() ==> *self == *other,
    ;

    /// Whether `self` comes before `other`, or is as large.
    fn at_most(&self, other: &Self) -> (res: bool)
        ensures
            res == (self.rank() <= other.rank()),
    ;
}

impl TotalOrder for i8 {
    open spec fn rank(&self) -> int {
        *self as int
    }

    proof fn lemma_rank(&self, other: &Self) {
    }

    fn at_most(&self, other: &Self) -> (res: bool) {
        *self <= *other
    }
}

impl TotalOrder for i16 {
    open spec fn rank(&self) -> int {
        *self as int
    }

    proof fn lemma_rank(&self, other: &Self) {
    }

    fn at_most(&self, other: &Self) -> (res: bool) {
        *self <= *other
    }
}

impl TotalOrder for i32 {
    open spec fn rank(&self) -> int {
        *self as int
    }

    proof fn lemma_rank(&self, other: &Self) {
    }

    fn at_most(&self, other: &Self) -> (res: bool) {
        *self <= *other
    }
}

impl TotalOrder for i64 {
    open spec fn rank(&self) -> int {
        *self as int
    }

    proof fn lemma_rank(&self, other: &Self) {
    }

    fn at_most(&self, other: &Self) -> (res: bool) {
        *self <= *other
    }
}

impl TotalOrder for u8 {
    open spec fn rank(&self) -> int {
        *self as int
    }

    proof fn lemma_rank(&self, other: &Self) {
    }

    fn at_most(&self, other: &Self) -> (res: bool) {
        *self <= *other
    }
}

impl TotalOrder for u16 {
    open spec fn rank(&self) -> int {
        *self as int
    }

    proof fn lemma_rank(&self, other: &Self) {
    }

    fn at_most(&self, other: &Self) -> (res: bool) {
        *self <= *other
    }
}

impl TotalOrder for u32 {
    open spec fn rank(&self) -> int {
        *self as int
    }

    proof fn lemma_rank(&self, other: &Self) {
    }

    fn at_most(&self, other: &Self) -> (res: bool) {
        *self <= *other
    }
}

impl TotalOrder for u64 {
    open spec fn rank(&self) -> int {
        *self as int
    }

    proof fn lemma_rank(&self, other: &Self) {
    }

    fn at_most(&self, other: &Self) -> (res: bool) {
        *self <= *other
    }
}

impl TotalOrder for usize {
    open spec fn rank(&self) -> int {
        *self as int
    }

    proof fn lemma_rank(&self, other: &Self) {
    }

    fn at_most(&self, other: &Self) -> (res: bool) {
        *self <= *other
    }
}

/// Whether the ranks never fall from one element to the next.
pub open spec fn sorted<T: TotalOrder>(s: Seq<T>) -> bool {
    forall|i: int, j: int| 0 <= i <= j < s.len() ==> s[i].rank() <= s[j].rank()
}

/// Whether the ranks rise from each element to the next.
pub open spec fn strictly_increasing<T: TotalOrder>(s: Seq<T>) -> bool {
    forall|i: int, j: int| 0 <= i < j < s.len() ==> s[i].rank() < s[j].rank()
}

/// The number of elements of `s` whose rank is at most that of `target`.
pub open spec fn count_at_most<T: TotalOrder>(s: Seq<T>, target: T) -> nat
    decreases s.len(),
{
    if s.len() == 0 {
        0
    } else {
        let rest = count_at_most(s.drop_last(), target);
        if s.last().rank() <= target.rank() {
            rest + 1
        } else {
            rest
        }
    }
}

/// In a sorted sequence the count is the index at which the elements start to
/// exceed the target.
pub proof fn lemma_count_at_boundary<T: TotalOrder>(s: Seq<T>, target: T, r: int)
    requires
        sorted(s),
        0 <= r <= s.len(),
        r > 0 ==> s[r - 1].rank() <= target.rank(),
        r < s.len() ==> s[r].rank() > target.rank(),
    ensures
        count_at_most(s, target) == r,
    decreases s.len(),
{
    if s.len() > 0 {
        let rest = s.drop_last();
        assert(sorted(rest)) by {
            assert forall|i: int, j: int| 0 <= i <= j < rest.len() implies rest[i].rank()
                <= rest[j].rank() by {
                assert(rest[i] == s[i] && rest[j] == s[j]);
            }
        }
        if r == s.len() {
            assert(s.last().rank() <= target.rank());
            if r - 1 > 0 {
                assert(rest[r - 2] == s[r - 2]);
                assert(s[r - 2].rank() <= s[r - 1].rank());
            }
            lemma_count_at_boundary(rest, target, r - 1);
        } else {
            assert(s[r].rank() <= s.last().rank());
            if r > 0 {
                assert(rest[r - 1] == s[r - 1]);
            }
            if r < rest.len() {
                assert(rest[r] == s[r]);
            }
            lemma_count_at_boundary(rest, target, r);
        }
    }
}

/// Counting in a concatenation adds the counts of the parts.
pub proof fn lemma_count_at_most_split<T: TotalOrder>(s: Seq<T>, target: T, m: int)
    requires
        0 <= m <= s.len(),
    ensures
        count_at_most(s, target) == count_at_most(s.subrange(0, m), target) + count_at_most(
            s.subrange(m, s.len() as int),
            target,
        ),
    decreases s.len() - m,
{
    let left = s.subrange(0, m);
    let right = s.subrange(m, s.len() as int);
    if m == s.len() {
        assert(left =~= s);
        assert(right.len() == 0);
    } else {
        lemma_count_at_most_split(s.drop_last(), target, m);
        assert(s.drop_last().subrange(0, m) =~= left);
        assert(s.drop_last().subrange(m, s.len() - 1) =~= right.drop_last());
        assert(right.last() == s.last());
    }
}

/// The number of elements of `s` whose rank is below that of `target`.
pub open spec fn count_below<T: TotalOrder>(s: Seq<T>, target: T) -> nat
    decreases s.len(),
{
    if s.len() == 0 {
        0
    } else {
        let rest = count_below(s.drop_last(), target);
        if s.last().rank() < target.rank() {
            rest + 1
        } else {
            rest
        }
    }
}

/// No more elements lie below a target than lie at or below it, and no more
/// of either than there are.
pub proof fn lemma_count_below_bound<T: TotalOrder>(s: Seq<T>, target: T)
    ensures
        count_below(s, target) <= count_at_most(s, target) <= s.len(),
    decreases s.len(),
{
    if s.len() > 0 {
        lemma_count_below_bound(s.drop_last(), target);
    }
}

/// In a sorted sequence the number of elements below the target is the index
/// at which the elements stop to lie below it.
pub proof fn lemma_count_below_at_boundary<T: TotalOrder>(s: Seq<T>, target: T, r: int)
    requires
        sorted(s),
        0 <= r <= s.len(),
        r > 0 ==> s[r - 1].rank() < target.rank(),
        r < s.len() ==> s[r].rank() >= target.rank(),
    ensures
        count_below(s, target) == r,
    decreases s.len(),
{
    if s.len() > 0 {
        let rest = s.drop_last();
        assert(sorted(rest)) by {
            assert forall|i: int, j: int| 0 <= i <= j < rest.len() implies rest[i].rank()
                <= rest[j].rank() by {
                assert(rest[i] == s[i] && rest[j] == s[j]);
            }
        }
        if r == s.len() {
            lemma_count_below_all(s, target);
        } else {
            assert(s[r].rank() <= s.last().rank());
            if r > 0 {
                assert(rest[r - 1] == s[r - 1]);
            }
            if r < rest.len() {
                assert(rest[r] == s[r]);
            }
            lemma_count_below_at_boundary(rest, target, r);
        }
    }
}

/// Where the last element of a sorted sequence lies below the target, all of
/// them count.
proof fn lemma_count_below_all<T: TotalOrder>(s: Seq<T>, target: T)
    requires
        sorted(s),
        s.len() > 0 ==> s.last().rank() < target.rank(),
    ensures
        count_below(s, target) == s.len(),
    decreases s.len(),
{
    if s.len() > 0 {
        let rest = s.drop_last();
        assert(sorted(rest)) by {
            assert forall|i: int, j: int| 0 <= i <= j < rest.len() implies rest[i].rank()
                <= rest[j].rank() by {
                assert(rest[i] == s[i] && rest[j] == s[j]);
            }
        }
        if rest.len() > 0 {
            assert(rest.last() == s[s.len() - 2]);
            assert(s[s.len() - 2].rank() <= s.last().rank());
        }
        lemma_count_below_all(rest, target);
    }
}

} // verus!

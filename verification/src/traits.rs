use vstd::prelude::*;
use vstd::arithmetic::div_mod::{lemma_div_basics, lemma_div_is_ordered_by_denominator, lemma_div_pos_is_pos};

verus! {

/// A type of distances: integers of some width, each with its value.
///
/// The arithmetic of relations is stated over the values, and carried out in
/// a wide integer, so that a result that leaves the type is noticed.
pub trait DistanceConstant: Sized {
    /// The distance as a mathematical integer.
    spec fn value(&self) -> int;

    /// Whether the type has a distance of value `v`.
    spec fn representable(v: int) -> bool;

    /// A distance is representable, it lies within the wide integer, above
    /// the least one, and its value determines it.
    proof fn lemma_value(&self, other: &Self)
        ensures
            Self::representable(self.value()),
            i128::MIN < self.value() <= i128::MAX,
            self.value() == other.value() ==> *self == *other,
    ;

    /// The distance of value `v`, where the type has one.
    spec fn from_value(v: int) -> Self;

    /// A value that the type has lies within the wide integer, above the
    /// least one, and is the value of the distance made from it.
    proof fn lemma_representable(v: int)
        requires
            Self::representable(v),
        ensures
            i128::MIN < v <= i128::MAX,
            Self::from_value(v).value() == v,
    ;

    /// A copy of the distance.
    fn replicate(&self) -> (res: Self)
        ensures
            res == *self,
    ;

    /// The distance as a wide integer.
    fn widen(&self) -> (res: i128)
        ensures
            res == self.value(),
    ;

    /// The distance with the given value, where the type has one.
    fn narrow(wide: i128) -> (res: Option<Self>)
        ensures
            res is Some <==> Self::representable(wide as int),
            res matches Some(d) ==> d.value() == wide,
    ;
}

/// `<i32 as num::NumCast>::from`, applied to an `i128`.
///
/// The contract claims what the crate documents and its source shows: the
/// result is the same number as an `i32` where it lies within the range of
/// `i32`, and `None` elsewhere.
#[verifier::external_body]
fn cast_to_i32(wide: i128) -> (res: Option<i32>)
    ensures
        res is Some <==> i32::MIN <= wide <= i32::MAX,
        res matches Some(v) ==> v == wide,
{
    num::NumCast::from(wide)
}

/// `<u32 as num::NumCast>::from`, applied to an `i128`: the same number as a
/// `u32` where it lies within the range of `u32`, and `None` elsewhere.
#[verifier::external_body]
fn cast_to_u32(wide: i128) -> (res: Option<u32>)
    ensures
        res is Some <==> 0 <= wide <= u32::MAX,
        res matches Some(v) ==> v == wide,
{
    num::NumCast::from(wide)
}

/// `<i64 as num::NumCast>::from`, applied to an `i128`: the same number as an
/// `i64` where it lies within the range of `i64`, and `None` elsewhere.
#[verifier::external_body]
fn cast_to_i64(wide: i128) -> (res: Option<i64>)
    ensures
        res is Some <==> i64::MIN <= wide <= i64::MAX,
        res matches Some(v) ==> v == wide,
{
    num::NumCast::from(wide)
}

/// `<u64 as num::NumCast>::from`, applied to an `i128`: the same number as a
/// `u64` where it lies within the range of `u64`, and `None` elsewhere.
#[verifier::external_body]
fn cast_to_u64(wide: i128) -> (res: Option<u64>)
    ensures
        res is Some <==> 0 <= wide <= u64::MAX,
        res matches Some(v) ==> v == wide,
{
    num::NumCast::from(wide)
}

impl DistanceConstant for i32 {
    open spec fn value(&self) -> int {
        *self as int
    }

    open spec fn from_value(v: int) -> Self {
        v as i32
    }

    proof fn lemma_representable(v: int) {
    }

    open spec fn representable(v: int) -> bool {
        i32::MIN <= v <= i32::MAX
    }

    proof fn lemma_value(&self, other: &Self) {
    }

    fn replicate(&self) -> (res: Self) {
        *self
    }

    fn widen(&self) -> (res: i128) {
        *self as i128
    }

    fn narrow(wide: i128) -> (res: Option<Self>) {
        cast_to_i32(wide)
    }
}

impl DistanceConstant for u32 {
    open spec fn value(&self) -> int {
        *self as int
    }

    open spec fn from_value(v: int) -> Self {
        v as u32
    }

    proof fn lemma_representable(v: int) {
    }

    open spec fn representable(v: int) -> bool {
        0 <= v <= u32::MAX
    }

    proof fn lemma_value(&self, other: &Self) {
    }

    fn replicate(&self) -> (res: Self) {
        *self
    }

    fn widen(&self) -> (res: i128) {
        *self as i128
    }

    fn narrow(wide: i128) -> (res: Option<Self>) {
        cast_to_u32(wide)
    }
}

impl DistanceConstant for i64 {
    open spec fn value(&self) -> int {
        *self as int
    }

    open spec fn from_value(v: int) -> Self {
        v as i64
    }

    proof fn lemma_representable(v: int) {
    }

    open spec fn representable(v: int) -> bool {
        i64::MIN <= v <= i64::MAX
    }

    proof fn lemma_value(&self, other: &Self) {
    }

    fn replicate(&self) -> (res: Self) {
        *self
    }

    fn widen(&self) -> (res: i128) {
        *self as i128
    }

    fn narrow(wide: i128) -> (res: Option<Self>) {
        cast_to_i64(wide)
    }
}

impl DistanceConstant for u64 {
    open spec fn value(&self) -> int {
        *self as int
    }

    open spec fn from_value(v: int) -> Self {
        v as u64
    }

    proof fn lemma_representable(v: int) {
    }

    open spec fn representable(v: int) -> bool {
        0 <= v <= u64::MAX
    }

    proof fn lemma_value(&self, other: &Self) {
    }

    fn replicate(&self) -> (res: Self) {
        *self
    }

    fn widen(&self) -> (res: i128) {
        *self as i128
    }

    fn narrow(wide: i128) -> (res: Option<Self>) {
        cast_to_u64(wide)
    }
}

/// The distance of a metric that measures nothing: there is one, of value 0.
impl DistanceConstant for () {
    open spec fn value(&self) -> int {
        0
    }

    open spec fn from_value(v: int) -> Self {
        ()
    }

    proof fn lemma_representable(v: int) {
    }

    open spec fn representable(v: int) -> bool {
        v == 0
    }

    proof fn lemma_value(&self, other: &Self) {
    }

    fn replicate(&self) -> (res: Self) {
        ()
    }

    fn widen(&self) -> (res: i128) {
        0
    }

    fn narrow(wide: i128) -> (res: Option<Self>) {
        if wide == 0 {
            Some(())
        } else {
            None
        }
    }
}

/// The quotient of two integers, rounded toward zero.
pub open spec fn truncated_quotient(a: int, b: int) -> int
    recommends
        b != 0,
{
    if a >= 0 && b > 0 {
        a / b
    } else if a >= 0 {
        -(a / (-b))
    } else if b > 0 {
        -((-a) / b)
    } else {
        (-a) / (-b)
    }
}

/// Whether `a` is at least as large as `b`.
pub fn at_least<Q: DistanceConstant>(a: &Q, b: &Q) -> (res: bool)
    ensures
        res == (a.value() >= b.value()),
{
    a.widen() >= b.widen()
}

/// The distance of another type with the same value, where there is one.
pub fn exact_cast<S: DistanceConstant, T: DistanceConstant>(source: &S) -> (res: Option<T>)
    ensures
        res is Some <==> T::representable(source.value()),
        res matches Some(d) ==> d.value() == source.value(),
{
    T::narrow(source.widen())
}

/// The product of two distances, where the type has it.
pub fn checked_product<Q: DistanceConstant>(a: &Q, b: &Q) -> (res: Option<Q>)
    ensures
        res is Some <==> Q::representable(a.value() * b.value()),
        res matches Some(d) ==> d.value() == a.value() * b.value(),
{
    proof {
        a.lemma_value(a);
        b.lemma_value(b);
        if Q::representable(a.value() * b.value()) {
            Q::lemma_representable(a.value() * b.value());
        }
    }
    match a.widen().checked_mul(b.widen()) {
        Some(wide) => Q::narrow(wide),
        None => None,
    }
}

/// The quotient of two distances, rounded toward zero, where the divisor is
/// not zero and the type has the quotient.
pub fn checked_quotient<Q: DistanceConstant>(a: &Q, b: &Q) -> (res: Option<Q>)
    ensures
        res is Some <==> b.value() != 0 && Q::representable(
            truncated_quotient(a.value(), b.value()),
        ),
        res matches Some(d) ==> d.value() == truncated_quotient(a.value(), b.value()),
{
    let wide_a: i128 = a.widen();
    let wide_b: i128 = b.widen();
    if wide_b == 0 {
        return None;
    }
    proof {
        a.lemma_value(a);
        b.lemma_value(b);
    }
    let magnitude_a: i128 = if wide_a >= 0 {
        wide_a
    } else {
        -wide_a
    };
    let magnitude_b: i128 = if wide_b >= 0 {
        wide_b
    } else {
        -wide_b
    };
    proof {
        lemma_div_pos_is_pos(magnitude_a as int, magnitude_b as int);
        lemma_div_is_ordered_by_denominator(magnitude_a as int, 1, magnitude_b as int);
        lemma_div_basics(magnitude_a as int);
    }
    let magnitude_q: i128 = magnitude_a / magnitude_b;
    let wide_q: i128 = if (wide_a >= 0) == (wide_b > 0) {
        magnitude_q
    } else {
        -magnitude_q
    };
    Q::narrow(wide_q)
}

} // verus!

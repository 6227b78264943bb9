use vstd::prelude::*;
use vstd::std_specs::bits::{axiom_u8_leading_zeros, u8_leading_zeros};
use crate::error::{Error, ErrorVariant, Fallible};

verus! {

/// Random bytes that were drawn beforehand, handed out in order and once.
///
/// Every sampler takes its randomness from a pool. What it returns is a
/// function of the bytes it took, and it fails when the pool runs dry.
pub struct EntropyPool {
    bytes: Vec<u8>,
    position: usize,
}

impl View for EntropyPool {
    type V = Seq<u8>;

    /// The bytes that are still to be handed out.
    closed spec fn view(&self) -> Seq<u8> {
        if self.position <= self.bytes@.len() {
            self.bytes@.subrange(self.position as int, self.bytes@.len() as int)
        } else {
            Seq::empty()
        }
    }
}

impl EntropyPool {
    /// A pool of the given bytes.
    pub fn new(bytes: Vec<u8>) -> (res: Self)
        ensures
            res@ == bytes@,
    {
        let pool = EntropyPool { bytes, position: 0 };
        assert(pool@ =~= bytes@);
        pool
    }

    /// The number of bytes that are left.
    pub fn remaining(&self) -> (res: usize)
        ensures
            res == self@.len(),
    {
        if self.position <= self.bytes.len() {
            self.bytes.len() - self.position
        } else {
            0
        }
    }

    /// Takes the next byte.
    pub fn next_byte(&mut self) -> (res: Fallible<u8>)
        ensures
            old(self)@.len() > 0 ==> res == Ok::<u8, Error>(old(self)@[0]) && final(self)@
                == old(self)@.subrange(1, old(self)@.len() as int),
            old(self)@.len() == 0 ==> (res matches Err(e) && e.variant == ErrorVariant::Entropy)
                && final(self)@ == old(self)@,
    {
        if self.position < self.bytes.len() {
            let byte = self.bytes[self.position];
            self.position = self.position + 1;
            assert(self@ =~= old(self)@.subrange(1, old(self)@.len() as int));
            Ok(byte)
        } else {
            Err(Error::new(ErrorVariant::Entropy))
        }
    }

    /// Takes the next `count` bytes, or none where fewer are left.
    pub fn fill_bytes(&mut self, count: usize) -> (res: Fallible<Vec<u8>>)
        ensures
            count <= old(self)@.len() ==> (res matches Ok(buffer) && buffer@ == old(
                self,
            )@.subrange(0, count as int)) && final(self)@ == old(self)@.subrange(
                count as int,
                old(self)@.len() as int,
            ),
            count > old(self)@.len() ==> (res matches Err(e) && e.variant == ErrorVariant::Entropy)
                && final(self)@ == old(self)@,
    {
        if count > self.remaining() {
            return Err(Error::new(ErrorVariant::Entropy));
        }
        let mut buffer: Vec<u8> = Vec::new();
        if count == 0 {
            assert(buffer@ =~= old(self)@.subrange(0, 0));
            assert(self@ =~= old(self)@.subrange(0, old(self)@.len() as int));
            return Ok(buffer);
        }
        let total: usize = self.bytes.len();
        let mut i: usize = 0;
        while i < count
            invariant
                i <= count <= old(self)@.len(),
                total == self.bytes@.len(),
                self.position + (count - i) <= self.bytes@.len(),
                self.bytes@ == old(self).bytes@,
                self.position == old(self).position + i,
                old(self).position <= old(self).bytes@.len(),
                buffer@ == old(self)@.subrange(0, i as int),
            decreases count - i,
        {
            buffer.push(self.bytes[self.position]);
            self.position = self.position + 1;
            i += 1;
            assert(buffer@ =~= old(self)@.subrange(0, i as int));
        }
        assert(self@ =~= old(self)@.subrange(count as int, old(self)@.len() as int));
        Ok(buffer)
    }
}

/// The index of the first byte from `from` on that is not zero, or the length
/// where there is none.
pub open spec fn first_nonzero(bytes: Seq<u8>, from: nat) -> nat
    decreases bytes.len() - from,
{
    if from >= bytes.len() {
        bytes.len()
    } else if bytes[from as int] != 0 {
        from
    } else {
        first_nonzero(bytes, from + 1)
    }
}

/// The position of the first set bit in the bytes, counted from the highest
/// bit of the first byte, or `None` where no bit is set.
pub open spec fn geometric_index(bytes: Seq<u8>) -> Option<nat> {
    let k = first_nonzero(bytes, 0);
    if k < bytes.len() {
        Some((8 * k + u8_leading_zeros(bytes[k as int])) as nat)
    } else {
        None
    }
}

/// What a geometric draw of at most `limit` bytes gives on the bytes that are
/// left, and the bytes that are left after it. The outer `None` stands for a
/// pool that ran dry.
///
/// In constant time all `limit` bytes are taken. Otherwise the bytes are
/// taken one by one, up to the first that is not zero.
pub open spec fn geometric_draw(avail: Seq<u8>, limit: nat, constant_time: bool) -> (
    Option<Option<nat>>,
    Seq<u8>,
) {
    if constant_time {
        if avail.len() >= limit {
            (
                Some(geometric_index(avail.subrange(0, limit as int))),
                avail.subrange(limit as int, avail.len() as int),
            )
        } else {
            (None, avail)
        }
    } else {
        let width = if limit <= avail.len() {
            limit
        } else {
            avail.len()
        };
        let window = avail.subrange(0, width as int);
        let k = first_nonzero(window, 0);
        if k < width {
            (Some(geometric_index(window)), avail.subrange(k as int + 1, avail.len() as int))
        } else if width == limit {
            (Some(None), avail.subrange(limit as int, avail.len() as int))
        } else {
            (None, avail.subrange(width as int, avail.len() as int))
        }
    }
}

/// The first byte that is not zero stands where all bytes before it are zero.
pub proof fn lemma_first_nonzero(bytes: Seq<u8>, from: nat, k: nat)
    requires
        from <= k <= bytes.len(),
        forall|j: int| from <= j < k ==> bytes[j] == 0,
        k < bytes.len() ==> bytes[k as int] != 0,
    ensures
        first_nonzero(bytes, from) == k,
    decreases k - from,
{
    if from < k {
        lemma_first_nonzero(bytes, from + 1, k);
    }
}

/// Draws from the geometric distribution with parameter one half: the
/// position of the first set bit among `B` random bytes, or `None` where all
/// their bits are zero.
///
/// In constant time all `B` bytes are taken and looked at. Otherwise the
/// bytes are taken one by one and the draw ends at the first that is not
/// zero. On the same bytes both give the same position.
pub fn sample_geometric_buffer<const B: usize>(pool: &mut EntropyPool, constant_time: bool) -> (res:
    Fallible<Option<usize>>)
    requires
        B <= usize::MAX / 8,
    ensures
        final(pool)@ == geometric_draw(old(pool)@, B as nat, constant_time).1,
        match geometric_draw(old(pool)@, B as nat, constant_time).0 {
            Some(Some(index)) => res == Ok::<Option<usize>, Error>(Some(index as usize)),
            Some(None) => res == Ok::<Option<usize>, Error>(None),
            None => res matches Err(e) && e.variant == ErrorVariant::Entropy,
        },
{
    let ghost avail = pool@;
    if constant_time {
        let buffer = match pool.fill_bytes(B) {
            Ok(buffer) => buffer,
            Err(e) => {
                return Err(e);
            },
        };
        // the place of the first byte that is not zero, and its leading zeros
        let mut first: usize = B;
        let mut zeros: u32 = 0;
        let mut i: usize = 0;
        while i < B
            invariant
                i <= B,
                buffer@.len() == B,
                first == B || first < i,
                forall|j: int| 0 <= j < i && j < first ==> buffer@[j] == 0,
                first < B ==> buffer@[first as int] != 0 && zeros == u8_leading_zeros(
                    buffer@[first as int],
                ),
            decreases B - i,
        {
            let sample: u8 = buffer[i];
            if first == B && sample > 0 {
                first = i;
                zeros = sample.leading_zeros();
            }
            i += 1;
        }
        proof {
            lemma_first_nonzero(buffer@, 0, first as nat);
        }
        if first < B {
            proof {
                axiom_u8_leading_zeros(buffer@[first as int]);
            }
            Ok(Some(8 * first + zeros as usize))
        } else {
            Ok(None)
        }
    } else {
        let ghost width: nat = if B <= avail.len() {
            B as nat
        } else {
            avail.len()
        };
        let ghost window = avail.subrange(0, width as int);
        let mut i: usize = 0;
        while i < B
            invariant
                i <= B,
                i <= avail.len(),
                B <= usize::MAX / 8,
                !constant_time,
                avail == old(pool)@,
                width == if B <= avail.len() {
                    B as nat
                } else {
                    avail.len()
                },
                window == avail.subrange(0, width as int),
                pool@ == avail.subrange(i as int, avail.len() as int),
                forall|j: int| 0 <= j < i ==> avail[j] == 0,
            decreases B - i,
        {
            let ghost before = pool@;
            assert(before.len() == avail.len() - i);
            match pool.next_byte() {
                Err(e) => {
                    proof {
                        assert(i == width);
                        lemma_first_nonzero(window, 0, i as nat);
                        assert(pool@ =~= avail.subrange(width as int, avail.len() as int));
                    }
                    return Err(e);
                },
                Ok(sample) => {
                    assert(sample == before[0] && before[0] == avail[i as int]);
                    if sample > 0 {
                        proof {
                            assert(window[i as int] == avail[i as int]);
                            lemma_first_nonzero(window, 0, i as nat);
                            axiom_u8_leading_zeros(sample);
                            assert(pool@ =~= avail.subrange(i as int + 1, avail.len() as int));
                        }
                        return Ok(Some(i * 8 + sample.leading_zeros() as usize));
                    }
                    assert(pool@ =~= avail.subrange(i as int + 1, avail.len() as int));
                },
            }
            i += 1;
        }
        proof {
            lemma_first_nonzero(window, 0, B as nat);
        }
        Ok(None)
    }
}

/// The number that the bytes spell, the first byte being the highest.
pub open spec fn be_value(bytes: Seq<u8>) -> nat
    decreases bytes.len(),
{
    if bytes.len() == 0 {
        0
    } else {
        be_value(bytes.drop_last()) * 256 + bytes.last() as nat
    }
}

/// The number of values that `width` bytes can spell.
pub open spec fn radix(width: nat) -> nat
    decreases width,
{
    if width == 0 {
        1
    } else {
        256 * radix((width - 1) as nat)
    }
}

/// Bytes spell a number below the radix of their count, and below a lower
/// bound where their first byte is small.
pub proof fn lemma_be_value_bound(bytes: Seq<u8>, head: nat)
    requires
        bytes.len() > 0,
        bytes[0] < head,
    ensures
        be_value(bytes) < head * radix((bytes.len() - 1) as nat),
    decreases bytes.len(),
{
    if bytes.len() == 1 {
        assert(bytes.drop_last().len() == 0);
        assert(be_value(bytes.drop_last()) == 0);
        assert(bytes.last() == bytes[0]);
        assert(radix(0) == 1);
        assert(head * radix(0) == head) by (nonlinear_arith)
            requires
                radix(0) == 1,
        ;
    } else {
        let front = bytes.drop_last();
        assert(front[0] == bytes[0]);
        lemma_be_value_bound(front, head);
        let r = radix((front.len() - 1) as nat);
        assert(radix((bytes.len() - 1) as nat) == 256 * r);
        assert(be_value(bytes) == be_value(front) * 256 + bytes.last() as nat);
        assert(be_value(front) + 1 <= head * r);
        assert((be_value(front) + 1) * 256 <= head * (256 * r)) by (nonlinear_arith)
            requires
                be_value(front) + 1 <= head * r,
        ;
    }
}

/// What a draw of one number of `width` bytes gives on the bytes that are
/// left, and the bytes that are left after it.
pub open spec fn uniform_int_draw(avail: Seq<u8>, width: nat) -> (Option<nat>, Seq<u8>) {
    if avail.len() >= width {
        (
            Some(be_value(avail.subrange(0, width as int))),
            avail.subrange(width as int, avail.len() as int),
        )
    } else {
        (None, avail)
    }
}

/// What a draw of a number below `upper` gives: numbers of `width` bytes are
/// drawn until one lies below the greatest multiple of `upper` that such
/// numbers reach, and that one is reduced modulo `upper`.
pub open spec fn uniform_below_draw(avail: Seq<u8>, width: nat, upper: nat) -> (
    Option<nat>,
    Seq<u8>,
)
    decreases avail.len(),
{
    if width == 0 || upper == 0 || avail.len() < width {
        (None, avail)
    } else {
        let drawn = be_value(avail.subrange(0, width as int));
        let rest = avail.subrange(width as int, avail.len() as int);
        let greatest = (radix(width) - 1) as nat;
        if drawn < greatest - greatest % upper {
            (Some(drawn % upper), rest)
        } else {
            uniform_below_draw(rest, width, upper)
        }
    }
}

/// As many as sixteen bytes spell a number that the widest integer holds.
proof fn lemma_radix_fits(width: nat)
    requires
        width <= 16,
    ensures
        0 < radix(width) <= 0x1_0000_0000_0000_0000_0000_0000_0000_0000,
        width <= 8 ==> radix(width) <= 0x1_0000_0000_0000_0000,
        width <= 4 ==> radix(width) <= 0x1_0000_0000,
        width <= 2 ==> radix(width) <= 0x1_0000,
        width <= 1 ==> radix(width) <= 0x100,
{
    reveal_with_fuel(radix, 17);
}

/// Draws one number of `width` bytes.
fn draw_uniform(pool: &mut EntropyPool, width: usize) -> (res: Fallible<u128>)
    requires
        1 <= width <= 16,
    ensures
        final(pool)@ == uniform_int_draw(old(pool)@, width as nat).1,
        match uniform_int_draw(old(pool)@, width as nat).0 {
            Some(value) => res == Ok::<u128, Error>(value as u128) && value < radix(width as nat),
            None => res matches Err(e) && e.variant == ErrorVariant::Entropy,
        },
{
    let buffer = match pool.fill_bytes(width) {
        Ok(buffer) => buffer,
        Err(e) => {
            return Err(e);
        },
    };
    let mut value: u128 = 0;
    let mut i: usize = 0;
    while i < width
        invariant
            i <= width <= 16,
            buffer@.len() == width,
            value == be_value(buffer@.subrange(0, i as int)),
            value < radix(i as nat),
        decreases width - i,
    {
        proof {
            let next = buffer@.subrange(0, i as int + 1);
            assert(next.drop_last() =~= buffer@.subrange(0, i as int));
            assert(next.last() == buffer@[i as int]);
            assert(radix((i + 1) as nat) == 256 * radix(i as nat));
            lemma_radix_fits((i + 1) as nat);
        }
        value = value * 256 + buffer[i] as u128;
        i += 1;
    }
    assert(buffer@.subrange(0, width as int) =~= buffer@);
    Ok(value)
}

/// Draws a number below `upper` from numbers of `width` bytes.
fn draw_uniform_below(pool: &mut EntropyPool, width: usize, upper: u128) -> (res: Fallible<u128>)
    requires
        1 <= width <= 16,
        0 < upper < radix(width as nat),
    ensures
        final(pool)@ == uniform_below_draw(old(pool)@, width as nat, upper as nat).1,
        match uniform_below_draw(old(pool)@, width as nat, upper as nat).0 {
            Some(value) => res == Ok::<u128, Error>(value as u128) && value < upper,
            None => res matches Err(e) && e.variant == ErrorVariant::Entropy,
        },
{
    let greatest: u128 = greatest_of_width(width);
    loop
        invariant
            1 <= width <= 16,
            0 < upper < radix(width as nat),
            greatest == radix(width as nat) - 1,
            uniform_below_draw(pool@, width as nat, upper as nat) == uniform_below_draw(
                old(pool)@,
                width as nat,
                upper as nat,
            ),
        decreases pool@.len(),
    {
        let drawn = match draw_uniform(pool, width) {
            Ok(drawn) => drawn,
            Err(e) => {
                return Err(e);
            },
        };
        if drawn < greatest - greatest % upper {
            return Ok(drawn % upper);
        }
    }
}

/// The greatest number that `width` bytes spell.
fn greatest_of_width(width: usize) -> (res: u128)
    requires
        1 <= width <= 16,
    ensures
        res == radix(width as nat) - 1,
{
    let mut greatest: u128 = 0;
    let mut i: usize = 0;
    while i < width
        invariant
            i <= width <= 16,
            greatest == radix(i as nat) - 1,
        decreases width - i,
    {
        proof {
            assert(radix((i + 1) as nat) == 256 * radix(i as nat));
            lemma_radix_fits((i + 1) as nat);
        }
        greatest = greatest * 256 + 255;
        i += 1;
    }
    greatest
}

/// Unsigned integers that can be drawn uniformly.
pub trait SampleUniformInt: Sized {
    /// The number of bytes of the type.
    spec fn byte_width() -> nat;

    /// The integer as a number.
    spec fn magnitude(&self) -> nat;

    /// Draws uniformly from all values of the type: the number that the next
    /// bytes spell.
    fn sample_uniform_int(pool: &mut EntropyPool) -> (res: Fallible<Self>)
        ensures
            final(pool)@ == uniform_int_draw(old(pool)@, Self::byte_width()).1,
            match uniform_int_draw(old(pool)@, Self::byte_width()).0 {
                Some(value) => res matches Ok(drawn) && drawn.magnitude() == value,
                None => res matches Err(e) && e.variant == ErrorVariant::Entropy,
            },
    ;

    /// Draws uniformly from the numbers below `upper`. A draw that would
    /// favour the low numbers is thrown away and repeated.
    fn sample_uniform_int_0_u(pool: &mut EntropyPool, upper: Self) -> (res: Fallible<Self>)
        requires
            upper.magnitude() > 0,
        ensures
            final(pool)@ == uniform_below_draw(
                old(pool)@,
                Self::byte_width(),
                upper.magnitude(),
            ).1,
            match uniform_below_draw(old(pool)@, Self::byte_width(), upper.magnitude()).0 {
                Some(value) => res matches Ok(drawn) && drawn.magnitude() == value && value
                    < upper.magnitude(),
                None => res matches Err(e) && e.variant == ErrorVariant::Entropy,
            },
    ;
}

impl SampleUniformInt for u8 {
    open spec fn byte_width() -> nat {
        1
    }

    open spec fn magnitude(&self) -> nat {
        *self as nat
    }

    fn sample_uniform_int(pool: &mut EntropyPool) -> (res: Fallible<Self>) {
        proof {
            lemma_radix_fits(1);
        }
        match draw_uniform(pool, 1) {
            Ok(value) => Ok(value as u8),
            Err(e) => Err(e),
        }
    }

    fn sample_uniform_int_0_u(pool: &mut EntropyPool, upper: Self) -> (res: Fallible<Self>) {
        proof {
            lemma_radix_fits(1);
            reveal_with_fuel(radix, 5);
        }
        match draw_uniform_below(pool, 1, upper as u128) {
            Ok(value) => Ok(value as u8),
            Err(e) => Err(e),
        }
    }
}

impl SampleUniformInt for u16 {
    open spec fn byte_width() -> nat {
        2
    }

    open spec fn magnitude(&self) -> nat {
        *self as nat
    }

    fn sample_uniform_int(pool: &mut EntropyPool) -> (res: Fallible<Self>) {
        proof {
            lemma_radix_fits(2);
        }
        match draw_uniform(pool, 2) {
            Ok(value) => Ok(value as u16),
            Err(e) => Err(e),
        }
    }

    fn sample_uniform_int_0_u(pool: &mut EntropyPool, upper: Self) -> (res: Fallible<Self>) {
        proof {
            lemma_radix_fits(2);
            reveal_with_fuel(radix, 5);
        }
        match draw_uniform_below(pool, 2, upper as u128) {
            Ok(value) => Ok(value as u16),
            Err(e) => Err(e),
        }
    }
}

impl SampleUniformInt for u32 {
    open spec fn byte_width() -> nat {
        4
    }

    open spec fn magnitude(&self) -> nat {
        *self as nat
    }

    fn sample_uniform_int(pool: &mut EntropyPool) -> (res: Fallible<Self>) {
        proof {
            lemma_radix_fits(4);
        }
        match draw_uniform(pool, 4) {
            Ok(value) => Ok(value as u32),
            Err(e) => Err(e),
        }
    }

    fn sample_uniform_int_0_u(pool: &mut EntropyPool, upper: Self) -> (res: Fallible<Self>) {
        proof {
            lemma_radix_fits(4);
            reveal_with_fuel(radix, 5);
        }
        match draw_uniform_below(pool, 4, upper as u128) {
            Ok(value) => Ok(value as u32),
            Err(e) => Err(e),
        }
    }
}

impl SampleUniformInt for u64 {
    open spec fn byte_width() -> nat {
        8
    }

    open spec fn magnitude(&self) -> nat {
        *self as nat
    }

    fn sample_uniform_int(pool: &mut EntropyPool) -> (res: Fallible<Self>) {
        proof {
            lemma_radix_fits(8);
        }
        match draw_uniform(pool, 8) {
            Ok(value) => Ok(value as u64),
            Err(e) => Err(e),
        }
    }

    fn sample_uniform_int_0_u(pool: &mut EntropyPool, upper: Self) -> (res: Fallible<Self>) {
        proof {
            lemma_radix_fits(8);
            reveal_with_fuel(radix, 9);
        }
        match draw_uniform_below(pool, 8, upper as u128) {
            Ok(value) => Ok(value as u64),
            Err(e) => Err(e),
        }
    }
}

impl SampleUniformInt for u128 {
    open spec fn byte_width() -> nat {
        16
    }

    open spec fn magnitude(&self) -> nat {
        *self as nat
    }

    fn sample_uniform_int(pool: &mut EntropyPool) -> (res: Fallible<Self>) {
        proof {
            lemma_radix_fits(16);
        }
        draw_uniform(pool, 16)
    }

    fn sample_uniform_int_0_u(pool: &mut EntropyPool, upper: Self) -> (res: Fallible<Self>) {
        proof {
            reveal_with_fuel(radix, 17);
        }
        draw_uniform_below(pool, 16, upper)
    }
}

/// A binary floating-point format, seen as its bit fields.
pub trait FloatBits {
    /// The unsigned integer that holds the bits of a number of the format.
    type Bits;

    /// The bias of the exponent field.
    spec fn exponent_bias() -> nat;

    /// The number of values of the mantissa field.
    spec fn mantissa_limit() -> nat;

    /// The bits as a number.
    spec fn bits_value(bits: Self::Bits) -> nat;
}

/// The format with 11 exponent bits and 52 mantissa bits.
pub struct Binary64;

/// The format with 8 exponent bits and 23 mantissa bits.
pub struct Binary32;

impl FloatBits for Binary64 {
    type Bits = u64;

    open spec fn exponent_bias() -> nat {
        1023
    }

    open spec fn mantissa_limit() -> nat {
        0x10_0000_0000_0000
    }

    open spec fn bits_value(bits: u64) -> nat {
        bits as nat
    }
}

impl FloatBits for Binary32 {
    type Bits = u32;

    open spec fn exponent_bias() -> nat {
        127
    }

    open spec fn mantissa_limit() -> nat {
        0x80_0000
    }

    open spec fn bits_value(bits: u32) -> nat {
        bits as nat
    }
}

/// The sign, the exponent and the mantissa of a number in the unit interval:
/// the number is `2^exponent * (1 + mantissa / mantissa_limit)`.
pub struct UniformParts<B> {
    pub negative: bool,
    pub exponent: i16,
    pub mantissa: B,
}

/// What a draw of an exponent gives: a geometric draw over as many bits as
/// the bias and one, of which the last is thrown away, because beyond it lie
/// no numbers of the format. The inner `None` stands for a draw that was
/// thrown away.
pub open spec fn exponent_draw(avail: Seq<u8>, bias: nat, constant_time: bool) -> (
    Option<Option<nat>>,
    Seq<u8>,
) {
    let drawn = geometric_draw(avail, (bias + 1) / 8, constant_time);
    match drawn.0 {
        Some(Some(index)) => if index != bias {
            (Some(Some(index)), drawn.1)
        } else {
            (Some(None), drawn.1)
        },
        Some(None) => (Some(None), drawn.1),
        None => (None, drawn.1),
    }
}

/// What a draw of a mantissa gives: the number that the next `count` bytes
/// spell once the first of them is reduced modulo `modulus`.
pub open spec fn mantissa_draw(avail: Seq<u8>, count: nat, modulus: nat) -> (Option<nat>, Seq<u8>) {
    if 0 < count <= avail.len() && modulus > 0 {
        let bytes = avail.subrange(0, count as int);
        (
            Some(be_value(bytes.update(0, (bytes[0] as nat % modulus) as u8))),
            avail.subrange(count as int, avail.len() as int),
        )
    } else {
        (None, avail)
    }
}

/// What a draw of a number in the unit interval gives: exponents are drawn
/// until one is kept, then a mantissa is drawn. The exponent `e` that was
/// drawn stands for the band from `2^(-e-1)` to `2^(-e)`.
pub open spec fn standard_uniform_draw(
    avail: Seq<u8>,
    bias: nat,
    count: nat,
    modulus: nat,
    constant_time: bool,
) -> (Option<(int, nat)>, Seq<u8>)
    decreases avail.len(),
{
    let drawn = exponent_draw(avail, bias, constant_time);
    match drawn.0 {
        None => (None, drawn.1),
        Some(None) => if drawn.1.len() < avail.len() {
            standard_uniform_draw(drawn.1, bias, count, modulus, constant_time)
        } else {
            (None, drawn.1)
        },
        Some(Some(index)) => {
            let mantissa = mantissa_draw(drawn.1, count, modulus);
            match mantissa.0 {
                Some(m) => (Some((-(index as int) - 1, m)), mantissa.1),
                None => (None, mantissa.1),
            }
        },
    }
}

/// Draws an exponent from `B` bytes, for the bias `8 * B - 1`.
fn draw_exponent<const B: usize>(pool: &mut EntropyPool, constant_time: bool) -> (res: Fallible<
    Option<usize>,
>)
    requires
        0 < B <= 128,
    ensures
        final(pool)@ == exponent_draw(old(pool)@, (8 * B - 1) as nat, constant_time).1,
        match exponent_draw(old(pool)@, (8 * B - 1) as nat, constant_time).0 {
            Some(Some(index)) => res == Ok::<Option<usize>, Error>(Some(index as usize)) && index
                < 8 * B - 1,
            Some(None) => res == Ok::<Option<usize>, Error>(None),
            None => res matches Err(e) && e.variant == ErrorVariant::Entropy,
        },
        exponent_draw(old(pool)@, (8 * B - 1) as nat, constant_time).0 is Some ==> final(pool)@.len()
            < old(pool)@.len(),
{
    let ghost avail = pool@;
    assert((8 * B - 1 + 1) / 8 == B);
    let drawn = sample_geometric_buffer::<B>(pool, constant_time);
    proof {
        lemma_geometric_draw(avail, B as nat, constant_time);
    }
    match drawn {
        Err(e) => Err(e),
        Ok(None) => Ok(None),
        // the last bit is kept for the values that are no numbers
        Ok(Some(index)) => if index != 8 * B - 1 {
            Ok(Some(index))
        } else {
            Ok(None)
        },
    }
}

/// A geometric draw that succeeds takes at least one byte, where there is a
/// limit, and gives an index below eight times the limit.
pub proof fn lemma_geometric_draw(avail: Seq<u8>, limit: nat, constant_time: bool)
    requires
        limit > 0,
    ensures
        geometric_draw(avail, limit, constant_time).0 is Some ==> geometric_draw(
            avail,
            limit,
            constant_time,
        ).1.len() < avail.len(),
        geometric_draw(avail, limit, constant_time).0 matches Some(Some(index)) ==> index < 8
            * limit,
{
    let width = if limit <= avail.len() {
        limit
    } else {
        avail.len()
    };
    let window = avail.subrange(0, width as int);
    lemma_first_nonzero_bound(window, 0);
    let k = first_nonzero(window, 0);
    if k < window.len() {
        axiom_u8_leading_zeros(window[k as int]);
    }
    if avail.len() >= limit {
        let all = avail.subrange(0, limit as int);
        lemma_first_nonzero_bound(all, 0);
        let j = first_nonzero(all, 0);
        if j < all.len() {
            axiom_u8_leading_zeros(all[j as int]);
        }
    }
}

/// The first byte that is not zero lies at or after the start, within the
/// bytes or at their end, and is not zero.
pub proof fn lemma_first_nonzero_bound(bytes: Seq<u8>, from: nat)
    requires
        from <= bytes.len(),
    ensures
        from <= first_nonzero(bytes, from) <= bytes.len(),
        first_nonzero(bytes, from) < bytes.len() ==> bytes[first_nonzero(bytes, from) as int] != 0,
    decreases bytes.len() - from,
{
    if from < bytes.len() && bytes[from as int] == 0 {
        lemma_first_nonzero_bound(bytes, from + 1);
    }
}

/// Draws a mantissa from `count` bytes, of which the first keeps the bits of
/// `mask`.
fn draw_mantissa(pool: &mut EntropyPool, count: usize, mask: u8) -> (res: Fallible<u64>)
    requires
        1 <= count <= 7,
        mask == 0x0f || mask == 0x7f,
    ensures
        final(pool)@ == mantissa_draw(old(pool)@, count as nat, (mask + 1) as nat).1,
        match mantissa_draw(old(pool)@, count as nat, (mask + 1) as nat).0 {
            Some(value) => res == Ok::<u64, Error>(value as u64) && value < (mask + 1) * radix(
                (count - 1) as nat,
            ),
            None => res matches Err(e) && e.variant == ErrorVariant::Entropy,
        },
{
    let ghost avail = pool@;
    let mut buffer = match pool.fill_bytes(count) {
        Ok(buffer) => buffer,
        Err(e) => {
            return Err(e);
        },
    };
    // clear the bits that the mantissa does not have
    let first: u8 = buffer[0];
    let kept: u8 = first & mask;
    assert(kept == first % ((mask + 1) as u8)) by (bit_vector)
        requires
            kept == first & mask,
            mask == 0x0f || mask == 0x7f,
    ;
    buffer.set(0, kept);
    let ghost cleared = buffer@;
    proof {
        assert(cleared =~= avail.subrange(0, count as int).update(
            0,
            (avail.subrange(0, count as int)[0] as nat % ((mask + 1) as nat)) as u8,
        ));
        lemma_be_value_bound(cleared, (mask + 1) as nat);
        reveal_with_fuel(radix, 9);
        assert((mask + 1) * radix((count - 1) as nat) <= 0x80 * radix(6)) by (nonlinear_arith)
            requires
                mask + 1 <= 0x80,
                radix((count - 1) as nat) <= radix(6),
                0 <= radix((count - 1) as nat),
        ;
    }
    let mut value: u64 = 0;
    let mut i: usize = 0;
    while i < count
        invariant
            i <= count <= 7,
            buffer@ == cleared,
            buffer@.len() == count,
            value == be_value(buffer@.subrange(0, i as int)),
            value < radix(i as nat),
        decreases count - i,
    {
        proof {
            reveal_with_fuel(radix, 9);
            let next = buffer@.subrange(0, i as int + 1);
            assert(next.drop_last() =~= buffer@.subrange(0, i as int));
            assert(next.last() == buffer@[i as int]);
            assert(radix((i + 1) as nat) == 256 * radix(i as nat));
        }
        value = value * 256 + buffer[i] as u64;
        i += 1;
    }
    assert(buffer@.subrange(0, count as int) =~= buffer@);
    Ok(value)
}

/// Draws a number in the unit interval as its exponent and mantissa.
fn draw_standard_uniform<const B: usize>(
    pool: &mut EntropyPool,
    constant_time: bool,
    count: usize,
    mask: u8,
) -> (res: Fallible<(i16, u64)>)
    requires
        0 < B <= 128,
        1 <= count <= 7,
        mask == 0x0f || mask == 0x7f,
    ensures
        final(pool)@ == standard_uniform_draw(
            old(pool)@,
            (8 * B - 1) as nat,
            count as nat,
            (mask + 1) as nat,
            constant_time,
        ).1,
        match standard_uniform_draw(
            old(pool)@,
            (8 * B - 1) as nat,
            count as nat,
            (mask + 1) as nat,
            constant_time,
        ).0 {
            Some(parts) => {
                &&& res == Ok::<(i16, u64), Error>((parts.0 as i16, parts.1 as u64))
                &&& -(8 * B - 1) <= parts.0 <= -1
                &&& parts.1 < (mask + 1) * radix((count - 1) as nat)
            },
            None => res matches Err(e) && e.variant == ErrorVariant::Entropy,
        },
{
    // draw exponents until one is kept: the bands then have their exact shares
    loop
        invariant
            0 < B <= 128,
            1 <= count <= 7,
            mask == 0x0f || mask == 0x7f,
            standard_uniform_draw(
                pool@,
                (8 * B - 1) as nat,
                count as nat,
                (mask + 1) as nat,
                constant_time,
            ) == standard_uniform_draw(
                old(pool)@,
                (8 * B - 1) as nat,
                count as nat,
                (mask + 1) as nat,
                constant_time,
            ),
        decreases pool@.len(),
    {
        match draw_exponent::<B>(pool, constant_time) {
            Err(e) => {
                return Err(e);
            },
            Ok(None) => {},
            Ok(Some(index)) => {
                let exponent: i16 = -(index as i16) - 1;
                return match draw_mantissa(pool, count, mask) {
                    Ok(mantissa) => Ok((exponent, mantissa)),
                    Err(e) => Err(e),
                };
            },
        }
    }
}

/// The formats whose exponents can be drawn.
pub trait SampleUniformExponent: FloatBits {
    /// Draws the band of a number in the unit interval: band `e`, which is
    /// drawn with probability `2^(-e-1)`, or `None` for a draw that is to be
    /// repeated.
    fn sample_uniform_exponent(pool: &mut EntropyPool, constant_time: bool) -> (res: Fallible<
        Option<Self::Bits>,
    >)
        ensures
            final(pool)@ == exponent_draw(old(pool)@, Self::exponent_bias(), constant_time).1,
            match exponent_draw(old(pool)@, Self::exponent_bias(), constant_time).0 {
                Some(Some(index)) => res matches Ok(Some(drawn)) && Self::bits_value(drawn)
                    == index && index < Self::exponent_bias(),
                Some(None) => res matches Ok(None),
                None => res matches Err(e) && e.variant == ErrorVariant::Entropy,
            },
    ;
}

impl SampleUniformExponent for Binary64 {
    fn sample_uniform_exponent(pool: &mut EntropyPool, constant_time: bool) -> (res: Fallible<
        Option<u64>,
    >) {
        match draw_exponent::<128>(pool, constant_time) {
            Ok(Some(index)) => Ok(Some(index as u64)),
            Ok(None) => Ok(None),
            Err(e) => Err(e),
        }
    }
}

impl SampleUniformExponent for Binary32 {
    fn sample_uniform_exponent(pool: &mut EntropyPool, constant_time: bool) -> (res: Fallible<
        Option<u32>,
    >) {
        match draw_exponent::<16>(pool, constant_time) {
            Ok(Some(index)) => Ok(Some(index as u32)),
            Ok(None) => Ok(None),
            Err(e) => Err(e),
        }
    }
}

/// The formats whose mantissas can be drawn.
pub trait SampleUniformMantissa: FloatBits {
    /// The number of bytes that a mantissa is drawn from.
    spec fn mantissa_bytes() -> nat;

    /// The number of values that the first of those bytes keeps.
    spec fn mantissa_head() -> nat;

    /// Draws a mantissa uniformly.
    fn sample_uniform_mantissa(pool: &mut EntropyPool) -> (res: Fallible<Self::Bits>)
        ensures
            final(pool)@ == mantissa_draw(
                old(pool)@,
                Self::mantissa_bytes(),
                Self::mantissa_head(),
            ).1,
            match mantissa_draw(old(pool)@, Self::mantissa_bytes(), Self::mantissa_head()).0 {
                Some(value) => res matches Ok(drawn) && Self::bits_value(drawn) == value && value
                    < Self::mantissa_limit(),
                None => res matches Err(e) && e.variant == ErrorVariant::Entropy,
            },
    ;
}

impl SampleUniformMantissa for Binary64 {
    open spec fn mantissa_bytes() -> nat {
        7
    }

    open spec fn mantissa_head() -> nat {
        0x10
    }

    fn sample_uniform_mantissa(pool: &mut EntropyPool) -> (res: Fallible<u64>) {
        proof {
            reveal_with_fuel(radix, 9);
        }
        draw_mantissa(pool, 7, 0x0f)
    }
}

impl SampleUniformMantissa for Binary32 {
    open spec fn mantissa_bytes() -> nat {
        3
    }

    open spec fn mantissa_head() -> nat {
        0x80
    }

    fn sample_uniform_mantissa(pool: &mut EntropyPool) -> (res: Fallible<u32>) {
        proof {
            reveal_with_fuel(radix, 9);
        }
        match draw_mantissa(pool, 3, 0x7f) {
            Ok(value) => Ok(value as u32),
            Err(e) => Err(e),
        }
    }
}

/// The formats in which a number of the unit interval can be drawn.
pub trait SampleUniform: SampleUniformExponent + SampleUniformMantissa {
    /// Draws a number from the unit interval, zero included and one not,
    /// exactly as often as the real numbers that round to it are drawn: first
    /// the band between two powers of two, each half as often as the one
    /// above it, then the mantissa within the band.
    fn sample_standard_uniform(pool: &mut EntropyPool, constant_time: bool) -> (res: Fallible<
        UniformParts<Self::Bits>,
    >)
        ensures
            final(pool)@ == standard_uniform_draw(
                old(pool)@,
                Self::exponent_bias(),
                Self::mantissa_bytes(),
                Self::mantissa_head(),
                constant_time,
            ).1,
            match standard_uniform_draw(
                old(pool)@,
                Self::exponent_bias(),
                Self::mantissa_bytes(),
                Self::mantissa_head(),
                constant_time,
            ).0 {
                Some(parts) => res matches Ok(drawn) && {
                    &&& !drawn.negative
                    &&& drawn.exponent == parts.0
                    &&& -Self::exponent_bias() <= drawn.exponent <= -1
                    &&& Self::bits_value(drawn.mantissa) == parts.1
                    &&& parts.1 < Self::mantissa_limit()
                },
                None => res matches Err(e) && e.variant == ErrorVariant::Entropy,
            },
    ;
}

impl SampleUniform for Binary64 {
    fn sample_standard_uniform(pool: &mut EntropyPool, constant_time: bool) -> (res: Fallible<
        UniformParts<u64>,
    >) {
        proof {
            reveal_with_fuel(radix, 9);
        }
        match draw_standard_uniform::<128>(pool, constant_time, 7, 0x0f) {
            Ok((exponent, mantissa)) => Ok(UniformParts { negative: false, exponent, mantissa }),
            Err(e) => Err(e),
        }
    }
}

impl SampleUniform for Binary32 {
    fn sample_standard_uniform(pool: &mut EntropyPool, constant_time: bool) -> (res: Fallible<
        UniformParts<u32>,
    >) {
        proof {
            reveal_with_fuel(radix, 9);
        }
        match draw_standard_uniform::<16>(pool, constant_time, 3, 0x7f) {
            Ok((exponent, mantissa)) => Ok(
                UniformParts { negative: false, exponent, mantissa: mantissa as u32 },
            ),
            Err(e) => Err(e),
        }
    }
}

} // verus!

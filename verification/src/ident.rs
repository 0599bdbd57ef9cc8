//! The identifier of a trashed item as bytes: the nanoseconds between the
//! reference epoch and the deletion instant, in two's complement on 128 bits,
//! written big-endian without leading zero bytes.

use vstd::prelude::*;

verus! {

/// The number of bytes of a full-width identifier.
pub const ID_WIDTH: usize = 16;

/// 2 to the power 127.
pub const HALF_RANGE: u128 = 0x8000_0000_0000_0000_0000_0000_0000_0000;

/// 2 to the power 128, one more than the largest full-width identifier.
pub open spec fn full_range() -> int {
    0x1_0000_0000_0000_0000_0000_0000_0000_0000int
}

/// 256 to the power `n`.
pub open spec fn pow256(n: nat) -> nat
    decreases n,
{
    if n == 0 {
        1
    } else {
        256 * pow256((n - 1) as nat)
    }
}

/// The big-endian base-256 digits of `value`, without leading zeros: none for 0.
pub open spec fn be_digits(value: nat) -> Seq<u8>
    decreases value,
{
    if value == 0 {
        Seq::empty()
    } else {
        be_digits(value / 256).push((value % 256) as u8)
    }
}

/// The number that `bytes` writes big-endian in base 256.
pub open spec fn be_value(bytes: Seq<u8>) -> nat
    decreases bytes.len(),
{
    if bytes.len() == 0 {
        0
    } else {
        be_value(bytes.drop_last()) * 256 + bytes.last() as nat
    }
}

/// The image of a signed 128-bit number in two's complement.
pub open spec fn twos_complement(n: int) -> nat {
    if n < 0 {
        (n + full_range()) as nat
    } else {
        n as nat
    }
}

/// The signed number whose two's complement image on 128 bits is `value`.
pub open spec fn from_twos_complement(value: nat) -> int {
    if value >= HALF_RANGE {
        value - full_range()
    } else {
        value as int
    }
}

/// The identifier bytes of the instant `nanos` (nanoseconds since the reference
/// epoch): its two's complement image, big-endian, leading zero bytes stripped.
/// The instant 0 keeps all its sixteen zero bytes, so that no identifier is empty.
pub open spec fn id_bytes(nanos: int) -> Seq<u8> {
    if nanos == 0 {
        Seq::new(ID_WIDTH as nat, |i: int| 0u8)
    } else {
        be_digits(twos_complement(nanos))
    }
}

/// The instant that identifier bytes stand for: the bytes are extended with zero
/// bytes in front to full width and read as a signed big-endian number.
pub open spec fn instant_of_bytes(bytes: Seq<u8>) -> int {
    from_twos_complement(be_value(bytes))
}

/// Whether `bytes` has a length that an identifier can have.
pub open spec fn valid_id_length(bytes: Seq<u8>) -> bool {
    1 <= bytes.len() <= ID_WIDTH
}

/// The powers of 256 that bound an identifier: sixteen bytes reach up to 2 to the
/// power 128.
pub proof fn lemma_pow256_values()
    ensures
        pow256(0) == 1,
        pow256(1) == 0x100,
        pow256(15) == 0x1_0000_0000_0000_0000_0000_0000_0000_00,
        pow256(16) == full_range(),
{
    reveal_with_fuel(pow256, 17);
}

/// The powers of 256 grow with the exponent and are never 0.
pub proof fn lemma_pow256_monotonic(a: nat, b: nat)
    requires
        a <= b,
    ensures
        pow256(a) <= pow256(b),
        pow256(a) >= 1,
    decreases b,
{
    if a < b {
        lemma_pow256_monotonic(a, (b - 1) as nat);
    } else if a > 0 {
        lemma_pow256_monotonic((a - 1) as nat, (a - 1) as nat);
    }
}

/// The digits of a number write that number.
pub proof fn lemma_value_of_digits(value: nat)
    ensures
        be_value(be_digits(value)) == value,
    decreases value,
{
    if value != 0 {
        lemma_value_of_digits(value / 256);
        let digits = be_digits(value);
        assert(digits.drop_last() =~= be_digits(value / 256));
        assert(digits.last() == (value % 256) as u8);
    }
}

/// A number below 256 to the power `n` has at most `n` digits, and a number other
/// than 0 has at least one, the first of which is not 0.
pub proof fn lemma_digits_length(value: nat, n: nat)
    requires
        value < pow256(n),
    ensures
        be_digits(value).len() <= n,
        value > 0 ==> be_digits(value).len() >= 1 && be_digits(value)[0] != 0,
    decreases value,
{
    if value != 0 {
        if n == 0 {
            assert(false);
        } else {
            assert(value / 256 < pow256((n - 1) as nat)) by {
                assert(pow256(n) == 256 * pow256((n - 1) as nat));
            }
            lemma_digits_length(value / 256, (n - 1) as nat);
            if value / 256 == 0 {
                assert(be_digits(value / 256).len() == 0);
                assert(be_digits(value)[0] == (value % 256) as u8);
            } else {
                assert(be_digits(value)[0] == be_digits(value / 256)[0]);
            }
        }
    }
}

/// A byte string of length `n` writes a number below 256 to the power `n`.
pub proof fn lemma_value_bound(bytes: Seq<u8>)
    ensures
        be_value(bytes) < pow256(bytes.len()),
    decreases bytes.len(),
{
    if bytes.len() > 0 {
        lemma_value_bound(bytes.drop_last());
        let head = be_value(bytes.drop_last());
        let rest = pow256((bytes.len() - 1) as nat);
        assert(head * 256 + bytes.last() as nat <= (rest - 1) * 256 + 255) by (nonlinear_arith)
            requires
                head < rest,
                bytes.last() as nat <= 255,
        ;
    }
}

/// Zero bytes write the number 0.
pub proof fn lemma_value_of_zeros(n: nat)
    ensures
        be_value(Seq::new(n, |i: int| 0u8)) == 0,
    decreases n,
{
    if n > 0 {
        let zeros = Seq::new(n, |i: int| 0u8);
        assert(zeros.drop_last() =~= Seq::new((n - 1) as nat, |i: int| 0u8));
        lemma_value_of_zeros((n - 1) as nat);
    }
}

/// The identifier bytes of every 128-bit instant have a valid length and stand for
/// that instant again: nothing of the instant is lost in its identifier.
pub proof fn lemma_id_bytes_round_trip(nanos: i128)
    ensures
        valid_id_length(id_bytes(nanos as int)),
        instant_of_bytes(id_bytes(nanos as int)) == nanos,
{
    lemma_pow256_values();
    if nanos == 0 {
        lemma_value_of_zeros(ID_WIDTH as nat);
    } else {
        let image = twos_complement(nanos as int);
        lemma_value_of_digits(image);
        lemma_digits_length(image, 16);
    }
}

/// Two different instants never have the same identifier bytes.
pub proof fn lemma_id_bytes_distinct(first: i128, second: i128)
    requires
        first != second,
    ensures
        id_bytes(first as int) != id_bytes(second as int),
{
    lemma_id_bytes_round_trip(first);
    lemma_id_bytes_round_trip(second);
}

/// The identifier bytes of the instant `nanos`.
pub fn id_bytes_of(nanos: i128) -> (bytes: Vec<u8>)
    ensures
        bytes@ == id_bytes(nanos as int),
        valid_id_length(bytes@),
{
    proof {
        lemma_id_bytes_round_trip(nanos);
    }
    if nanos == 0 {
        let mut zeros: Vec<u8> = Vec::new();
        while zeros.len() < ID_WIDTH
            invariant
                zeros.len() <= ID_WIDTH,
                forall|i: int| 0 <= i < zeros.len() ==> zeros@[i] == 0u8,
            decreases ID_WIDTH - zeros.len(),
        {
            zeros.push(0u8);
        }
        assert(zeros@ =~= id_bytes(0));
        return zeros;
    }
    let image: u128 = if nanos >= 0 {
        nanos as u128
    } else {
        ((nanos + i128::MAX) + 1) as u128 + HALF_RANGE
    };
    assert(image as nat == twos_complement(nanos as int));
    // The digits come out lowest first.
    let mut lowest_first: Vec<u8> = Vec::new();
    let mut rest: u128 = image;
    while rest > 0
        invariant
            be_digits(image as nat) == be_digits(rest as nat) + lowest_first@.reverse(),
        decreases rest,
    {
        let digit: u8 = (rest % 256) as u8;
        proof {
            let before = lowest_first@;
            assert(before.push(digit).reverse() =~= seq![digit] + before.reverse());
            assert(be_digits(rest as nat) == be_digits(rest as nat / 256).push(digit));
            assert(be_digits(rest as nat / 256).push(digit) + before.reverse() =~= be_digits(
                rest as nat / 256,
            ) + (seq![digit] + before.reverse()));
        }
        lowest_first.push(digit);
        rest = rest / 256;
    }
    assert(be_digits(0) + lowest_first@.reverse() =~= lowest_first@.reverse());
    let mut bytes: Vec<u8> = Vec::new();
    let mut left: usize = lowest_first.len();
    while left > 0
        invariant
            left <= lowest_first.len(),
            bytes@ == lowest_first@.reverse().take(lowest_first.len() - left),
        decreases left,
    {
        left -= 1;
        bytes.push(lowest_first[left]);
        assert(bytes@ =~= lowest_first@.reverse().take(lowest_first.len() - left));
    }
    assert(lowest_first@.reverse().take(lowest_first.len() as int) =~= lowest_first@.reverse());
    bytes
}

/// The instant that the identifier bytes stand for.
pub fn instant_of(bytes: &Vec<u8>) -> (nanos: i128)
    requires
        valid_id_length(bytes@),
    ensures
        nanos == instant_of_bytes(bytes@),
{
    let mut value: u128 = 0;
    let mut i: usize = 0;
    while i < bytes.len()
        invariant
            i <= bytes.len() <= ID_WIDTH,
            value == be_value(bytes@.take(i as int)),
        decreases bytes.len() - i,
    {
        proof {
            let read = bytes@.take(i as int);
            lemma_value_bound(read);
            lemma_pow256_values();
            lemma_pow256_monotonic(i as nat, 15);
            assert(bytes@.take(i + 1).drop_last() =~= read);
            assert(bytes@.take(i + 1).last() == bytes@[i as int]);
        }
        value = value * 256 + bytes[i] as u128;
        i += 1;
    }
    assert(bytes@.take(i as int) =~= bytes@);
    if value >= HALF_RANGE {
        ((value - HALF_RANGE) as i128 + i128::MIN)
    } else {
        value as i128
    }
}

} // verus!

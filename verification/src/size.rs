//! Sizes in bytes as text for people: in binary units, with two decimals, as the
//! formatting of a 64-bit floating-point number gives them.

use vstd::arithmetic::div_mod::{
    lemma_div_is_ordered_by_denominator, lemma_div_nonincreasing, lemma_mod_bound,
};
use vstd::prelude::*;
use vstd::string::StringExecFns;

verus! {

/// The character of the decimal digit `d`.
pub open spec fn digit_char(d: nat) -> char {
    (48 + d) as u8 as char
}

/// The decimal digits of `n`, without leading zeros: "0" for 0.
pub open spec fn decimal(n: nat) -> Seq<char>
    decreases n,
{
    if n < 10 {
        seq![digit_char(n)]
    } else {
        decimal(n / 10).push(digit_char(n % 10))
    }
}

/// The unit in which a size is written: 0 for bytes, 1 for KiB, up to 6 for EiB.
/// A unit serves up to 1024 of itself, both ends included, so that 1024 bytes are
/// 1 KiB and 1048576 bytes are 1024 KiB.
pub open spec fn unit_of(bytes: u64) -> nat {
    if bytes < 0x400 {
        0
    } else if bytes <= 0x10_0000 {
        1
    } else if bytes <= 0x4000_0000 {
        2
    } else if bytes <= 0x100_0000_0000 {
        3
    } else if bytes <= 0x4_0000_0000_0000 {
        4
    } else if bytes <= 0x1000_0000_0000_0000 {
        5
    } else {
        6
    }
}

/// The number of bytes in one of the unit.
pub open spec fn unit_bytes(unit: nat) -> nat {
    if unit == 0 {
        1
    } else if unit == 1 {
        0x400
    } else if unit == 2 {
        0x10_0000
    } else if unit == 3 {
        0x4000_0000
    } else if unit == 4 {
        0x100_0000_0000
    } else if unit == 5 {
        0x4_0000_0000_0000
    } else {
        0x1000_0000_0000_0000
    }
}

/// The name of the unit.
pub open spec fn unit_name(unit: nat) -> Seq<char> {
    if unit == 0 {
        "B"@
    } else if unit == 1 {
        "KiB"@
    } else if unit == 2 {
        "MiB"@
    } else if unit == 3 {
        "GiB"@
    } else if unit == 4 {
        "TiB"@
    } else if unit == 5 {
        "PiB"@
    } else {
        "EiB"@
    }
}

/// The quotient of `n` by `d`, rounded to the nearest number, and to the even one
/// of the two where it lies halfway between them.
pub open spec fn rounded_quotient(n: nat, d: nat) -> nat {
    let q = n / d;
    let r = n % d;
    if 2 * r > d || (2 * r == d && q % 2 == 1) {
        q + 1
    } else {
        q
    }
}

/// The spacing of the numbers with 53 significant bits around `bytes`: 1 below
/// 2 to the power 53, and twice as much for every further bit.
pub open spec fn spacing(bytes: u64) -> nat {
    if bytes < 0x20_0000_0000_0000 {
        1
    } else if bytes < 0x40_0000_0000_0000 {
        2
    } else if bytes < 0x80_0000_0000_0000 {
        4
    } else if bytes < 0x100_0000_0000_0000 {
        8
    } else if bytes < 0x200_0000_0000_0000 {
        16
    } else if bytes < 0x400_0000_0000_0000 {
        32
    } else if bytes < 0x800_0000_0000_0000 {
        64
    } else if bytes < 0x1000_0000_0000_0000 {
        128
    } else if bytes < 0x2000_0000_0000_0000 {
        256
    } else if bytes < 0x4000_0000_0000_0000 {
        512
    } else if bytes < 0x8000_0000_0000_0000 {
        1024
    } else {
        2048
    }
}

/// The size as a 64-bit floating-point number holds it: rounded to 53 significant
/// bits, to the nearest such number and to the even one of two that are equally
/// near. Sizes below 2 to the power 53 are held exactly.
pub open spec fn in_floating_point(bytes: u64) -> nat {
    rounded_quotient(bytes as nat, spacing(bytes)) * spacing(bytes)
}

/// The size in hundredths of its unit, rounded: the size is first taken as a
/// floating-point number holds it, and the quotient by the unit, which is exact,
/// is then rounded to hundredths.
pub open spec fn hundredths(bytes: u64) -> nat {
    rounded_quotient(in_floating_point(bytes) * 100, unit_bytes(unit_of(bytes)))
}

/// A size as text: the bytes as they are below 1024, and otherwise the size in its
/// unit with two decimals.
pub open spec fn size_text(bytes: u64) -> Seq<char> {
    if bytes < 0x400 {
        decimal(bytes as nat) + " B"@
    } else {
        let h = hundredths(bytes);
        decimal(h / 100) + "."@ + seq![digit_char(h % 100 / 10), digit_char(h % 10)] + " "@
            + unit_name(unit_of(bytes))
    }
}

/// The character of the decimal digit `d`.
fn digit(d: u64) -> (c: char)
    requires
        d < 10,
    ensures
        c == digit_char(d as nat),
{
    (48u8 + d as u8) as char
}

/// Appends the decimal digits of `n` to `text`.
fn push_decimal(text: &mut String, n: u64)
    ensures
        final(text)@ == old(text)@ + decimal(n as nat),
{
    let mut lowest_first: Vec<char> = Vec::new();
    let mut rest: u64 = n;
    lowest_first.push(digit(rest % 10));
    rest = rest / 10;
    while rest > 0
        invariant
            decimal(n as nat) == if rest == 0 {
                lowest_first@.reverse()
            } else {
                decimal(rest as nat) + lowest_first@.reverse()
            },
        decreases rest,
    {
        let c = digit(rest % 10);
        proof {
            let before = lowest_first@;
            assert(before.push(c).reverse() =~= seq![c] + before.reverse());
            if rest < 10 {
                assert(decimal(rest as nat) + before.reverse() =~= seq![c] + before.reverse());
            } else {
                assert(decimal(rest as nat) + before.reverse() =~= decimal(rest as nat / 10) + (
                seq![c] + before.reverse()));
            }
        }
        lowest_first.push(c);
        rest = rest / 10;
    }
    let ghost start = text@;
    let mut left: usize = lowest_first.len();
    while left > 0
        invariant
            left <= lowest_first.len(),
            text@ == start + lowest_first@.reverse().take(lowest_first.len() - left),
        decreases left,
    {
        left -= 1;
        text.push(lowest_first[left]);
        assert(text@ =~= start + lowest_first@.reverse().take(lowest_first.len() - left));
    }
    assert(lowest_first@.reverse().take(lowest_first.len() as int) =~= lowest_first@.reverse());
}

/// The quotient of `n` by `d`, rounded to the nearest number and to the even one
/// of two that are equally near.
fn rounded_division(n: u128, d: u128) -> (q: u128)
    requires
        0 < d,
        n < u128::MAX,
    ensures
        q == rounded_quotient(n as nat, d as nat),
{
    let quotient: u128 = n / d;
    let remainder: u128 = n % d;
    proof {
        lemma_div_nonincreasing(n as int, d as int);
        lemma_mod_bound(n as int, d as int);
    }
    if remainder > d - remainder || (remainder == d - remainder && quotient % 2 == 1) {
        quotient + 1
    } else {
        quotient
    }
}

/// The size as a 64-bit floating-point number holds it.
fn held_in_floating_point(bytes: u64) -> (held: u128)
    ensures
        held == in_floating_point(bytes),
        held <= 0x1_0000_0000_0000_0000,
{
    let step: u128 = if bytes < 0x20_0000_0000_0000 {
        1
    } else if bytes < 0x40_0000_0000_0000 {
        2
    } else if bytes < 0x80_0000_0000_0000 {
        4
    } else if bytes < 0x100_0000_0000_0000 {
        8
    } else if bytes < 0x200_0000_0000_0000 {
        16
    } else if bytes < 0x400_0000_0000_0000 {
        32
    } else if bytes < 0x800_0000_0000_0000 {
        64
    } else if bytes < 0x1000_0000_0000_0000 {
        128
    } else if bytes < 0x2000_0000_0000_0000 {
        256
    } else if bytes < 0x4000_0000_0000_0000 {
        512
    } else if bytes < 0x8000_0000_0000_0000 {
        1024
    } else {
        2048
    };
    assert(step == spacing(bytes));
    let steps = rounded_division(bytes as u128, step);
    // No more steps than fit below 2 to the power 64, whatever the spacing.
    assert(steps * step <= 0x1_0000_0000_0000_0000) by {
        let size = bytes as int;
        if step == 1 {
            assert(steps <= size / 1 + 1 <= 0x10000000000000000);
            assert(steps * step <= 0x1_0000_0000_0000_0000) by (nonlinear_arith)
                requires
                    step == 1,
                    0 <= steps <= 0x10000000000000000,
            ;
        } else if step == 2 {
            assert(steps <= size / 2 + 1 <= 0x8000000000000000);
            assert(steps * step <= 0x1_0000_0000_0000_0000) by (nonlinear_arith)
                requires
                    step == 2,
                    0 <= steps <= 0x8000000000000000,
            ;
        } else if step == 4 {
            assert(steps <= size / 4 + 1 <= 0x4000000000000000);
            assert(steps * step <= 0x1_0000_0000_0000_0000) by (nonlinear_arith)
                requires
                    step == 4,
                    0 <= steps <= 0x4000000000000000,
            ;
        } else if step == 8 {
            assert(steps <= size / 8 + 1 <= 0x2000000000000000);
            assert(steps * step <= 0x1_0000_0000_0000_0000) by (nonlinear_arith)
                requires
                    step == 8,
                    0 <= steps <= 0x2000000000000000,
            ;
        } else if step == 16 {
            assert(steps <= size / 16 + 1 <= 0x1000000000000000);
            assert(steps * step <= 0x1_0000_0000_0000_0000) by (nonlinear_arith)
                requires
                    step == 16,
                    0 <= steps <= 0x1000000000000000,
            ;
        } else if step == 32 {
            assert(steps <= size / 32 + 1 <= 0x800000000000000);
            assert(steps * step <= 0x1_0000_0000_0000_0000) by (nonlinear_arith)
                requires
                    step == 32,
                    0 <= steps <= 0x800000000000000,
            ;
        } else if step == 64 {
            assert(steps <= size / 64 + 1 <= 0x400000000000000);
            assert(steps * step <= 0x1_0000_0000_0000_0000) by (nonlinear_arith)
                requires
                    step == 64,
                    0 <= steps <= 0x400000000000000,
            ;
        } else if step == 128 {
            assert(steps <= size / 128 + 1 <= 0x200000000000000);
            assert(steps * step <= 0x1_0000_0000_0000_0000) by (nonlinear_arith)
                requires
                    step == 128,
                    0 <= steps <= 0x200000000000000,
            ;
        } else if step == 256 {
            assert(steps <= size / 256 + 1 <= 0x100000000000000);
            assert(steps * step <= 0x1_0000_0000_0000_0000) by (nonlinear_arith)
                requires
                    step == 256,
                    0 <= steps <= 0x100000000000000,
            ;
        } else if step == 512 {
            assert(steps <= size / 512 + 1 <= 0x80000000000000);
            assert(steps * step <= 0x1_0000_0000_0000_0000) by (nonlinear_arith)
                requires
                    step == 512,
                    0 <= steps <= 0x80000000000000,
            ;
        } else if step == 1024 {
            assert(steps <= size / 1024 + 1 <= 0x40000000000000);
            assert(steps * step <= 0x1_0000_0000_0000_0000) by (nonlinear_arith)
                requires
                    step == 1024,
                    0 <= steps <= 0x40000000000000,
            ;
        } else {
            assert(steps <= size / 2048 + 1 <= 0x20000000000000);
            assert(steps * step <= 0x1_0000_0000_0000_0000) by (nonlinear_arith)
                requires
                    step == 2048,
                    0 <= steps <= 0x20000000000000,
            ;
        }
    }
    steps * step
}

/// Converts a size in bytes to a text for people: `"512 B"`, `"1.50 KiB"`,
/// `"1024.00 KiB"`.
pub fn human_readable_size(bytes: u64) -> (text: String)
    ensures
        text@ == size_text(bytes),
{
    let mut text = String::new();
    if bytes < 0x400 {
        push_decimal(&mut text, bytes);
        text.append(" B");
        assert(text@ =~= size_text(bytes));
        return text;
    }
    let (divisor, name): (u128, &str) = if bytes <= 0x10_0000 {
        (0x400, "KiB")
    } else if bytes <= 0x4000_0000 {
        (0x10_0000, "MiB")
    } else if bytes <= 0x100_0000_0000 {
        (0x4000_0000, "GiB")
    } else if bytes <= 0x4_0000_0000_0000 {
        (0x100_0000_0000, "TiB")
    } else if bytes <= 0x1000_0000_0000_0000 {
        (0x4_0000_0000_0000, "PiB")
    } else {
        (0x1000_0000_0000_0000, "EiB")
    };
    assert(divisor == unit_bytes(unit_of(bytes)));
    assert(name@ == unit_name(unit_of(bytes)));
    let held = held_in_floating_point(bytes);
    let scaled: u128 = held * 100;
    let rounded = rounded_division(scaled, divisor);
    assert(rounded == hundredths(bytes));
    assert(rounded <= scaled / 0x400 + 1) by {
        lemma_div_is_ordered_by_denominator(scaled as int, 0x400, divisor as int);
    }
    let whole: u64 = (rounded / 100) as u64;
    let cents: u64 = (rounded % 100) as u64;
    push_decimal(&mut text, whole);
    text.append(".");
    let ghost before = text@;
    text.push(digit(cents / 10));
    text.push(digit(cents % 10));
    assert(text@ =~= before + seq![digit_char(cents as nat / 10), digit_char(cents as nat % 10)]);
    text.append(" ");
    text.append(name);
    assert(text@ =~= size_text(bytes));
    text
}

} // verus!

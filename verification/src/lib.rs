//! Protocol layer of a client driver for a motor controller that speaks a
//! framed ASCII request/response protocol.
//!
//! The crate root holds the numeric codec: signed integers to and from their
//! decimal ASCII form. `controller::clear_core` holds the frame codec and
//! `controller::motor` the command set of a motor axis.
use vstd::prelude::*;

pub mod controller;

verus! {

/// Whether `b` is an ASCII decimal digit.
pub open spec fn is_digit(b: u8) -> bool {
    48 <= b && b <= 57
}

/// The decimal digits of `n` as ASCII bytes, most significant first, without
/// leading zeros (zero itself is the single digit `'0'`).
pub open spec fn digits_of(n: nat) -> Seq<u8>
    decreases n,
{
    if n < 10 {
        seq![(48 + n) as u8]
    } else {
        digits_of(n / 10).push((48 + n % 10) as u8)
    }
}

/// The wire form of a signed integer: `'-'` before the digits of a negative
/// value, the bare digits otherwise.
pub open spec fn encode_signed(v: int) -> Seq<u8> {
    if v < 0 {
        seq![45u8] + digits_of((-v) as nat)
    } else {
        digits_of(v as nat)
    }
}

/// The number that the ASCII digits among `bytes` spell in decimal, read in
/// order; every other byte is passed over.
pub open spec fn digits_value(bytes: Seq<u8>) -> nat
    decreases bytes.len(),
{
    if bytes.len() == 0 {
        0
    } else {
        let rest = digits_value(bytes.drop_last());
        if is_digit(bytes.last()) {
            rest * 10 + (bytes.last() - 48) as nat
        } else {
            rest
        }
    }
}

/// The signed integer that `bytes` carries: the value of its digits, negated
/// if and only if the very first byte is `'-'`.
pub open spec fn decode_signed(bytes: Seq<u8>) -> int {
    if bytes.len() > 0 && bytes[0] == 45 {
        -(digits_value(bytes) as int)
    } else {
        digits_value(bytes) as int
    }
}

/// Every byte of `digits_of(n)` is a digit, and there is at least one.
pub proof fn lemma_digits_of_are_digits(n: nat)
    ensures
        digits_of(n).len() >= 1,
        forall|i: int| 0 <= i < digits_of(n).len() ==> is_digit(#[trigger] digits_of(n)[i]),
    decreases n,
{
    if n >= 10 {
        lemma_digits_of_are_digits(n / 10);
    }
}

/// Reading back the digits of `n` gives `n`.
pub proof fn lemma_digits_value_of_digits(n: nat)
    ensures
        digits_value(digits_of(n)) == n,
    decreases n,
{
    if n < 10 {
        let s = digits_of(n);
        assert(s.drop_last() =~= Seq::<u8>::empty());
        assert(digits_value(s.drop_last()) == 0);
    } else {
        lemma_digits_value_of_digits(n / 10);
        let s = digits_of(n);
        assert(s.drop_last() =~= digits_of(n / 10));
    }
}

/// A byte that is no digit, put in front, does not change the value of the
/// digits.
pub proof fn lemma_digits_value_skips_front(b: u8, bytes: Seq<u8>)
    requires
        !is_digit(b),
    ensures
        digits_value(seq![b] + bytes) == digits_value(bytes),
    decreases bytes.len(),
{
    let whole = seq![b] + bytes;
    if bytes.len() == 0 {
        assert(whole.drop_last() =~= Seq::<u8>::empty());
        assert(whole.last() == b);
        assert(digits_value(whole.drop_last()) == 0);
    } else {
        lemma_digits_value_skips_front(b, bytes.drop_last());
        assert(whole.drop_last() =~= seq![b] + bytes.drop_last());
        assert(whole.last() == bytes.last());
    }
}

/// The digits of a prefix never spell more than the digits of the whole.
pub proof fn lemma_digits_value_prefix(bytes: Seq<u8>, k: int)
    requires
        0 <= k <= bytes.len(),
    ensures
        digits_value(bytes.take(k)) <= digits_value(bytes),
    decreases bytes.len(),
{
    if k == bytes.len() {
        assert(bytes.take(k) =~= bytes);
    } else {
        lemma_digits_value_prefix(bytes.drop_last(), k);
        assert(bytes.drop_last().take(k) =~= bytes.take(k));
    }
}

/// Decoding undoes encoding, for every integer: the magnitude comes back and
/// the sign is kept.
pub proof fn lemma_decode_encode(v: int)
    ensures
        decode_signed(encode_signed(v)) == v,
        digits_value(encode_signed(v)) == if v < 0 { -v } else { v },
{
    if v < 0 {
        let n = (-v) as nat;
        lemma_digits_value_of_digits(n);
        lemma_digits_value_skips_front(45u8, digits_of(n));
        assert(encode_signed(v)[0] == 45);
    } else {
        let n = v as nat;
        lemma_digits_value_of_digits(n);
        lemma_digits_of_are_digits(n);
        assert(is_digit(digits_of(n)[0]));
    }
}

/// Scaling by a positive factor survives the wire: a whole number of units,
/// multiplied by the scale, encoded, decoded and divided by the scale again,
/// is the number of units.
pub proof fn lemma_scaled_round_trip(units: int, scale: int)
    requires
        scale > 0,
    ensures
        decode_signed(encode_signed(units * scale)) / scale == units,
{
    lemma_decode_encode(units * scale);
    assert((units * scale) / scale == units) by (nonlinear_arith)
        requires
            scale > 0,
    ;
}

/// Division that cuts the fraction off, toward zero.
pub open spec fn trunc_div(a: int, b: int) -> int
    recommends
        b > 0,
{
    if a >= 0 {
        a / b
    } else {
        -((-a) / b)
    }
}

/// The counts that stand for the physical value `numerator / denominator`
/// at `scale` counts per unit: the product, with its fraction cut off.
pub open spec fn scaled_counts(numerator: int, denominator: int, scale: int) -> int
    recommends
        denominator > 0,
{
    trunc_div(numerator * scale, denominator)
}

/// `(n * scale / denominator) / scale` is `n / denominator`, for `n` that is
/// not negative, and the remainder of the first division is under
/// `denominator`.
proof fn lemma_scaled_quotient(n: int, denominator: int, scale: int)
    requires
        n >= 0,
        denominator > 0,
        scale > 0,
    ensures
        n * scale >= 0,
        (n * scale) / denominator >= 0,
        ((n * scale) / denominator) / scale == n / denominator,
        0 <= n * scale - ((n * scale) / denominator) * denominator < denominator,
{
    let x = n * scale;
    assert(x >= 0) by (nonlinear_arith)
        requires
            x == n * scale,
            n >= 0,
            scale > 0,
    ;
    vstd::arithmetic::div_mod::lemma_div_pos_is_pos(x, denominator);
    vstd::arithmetic::div_mod::lemma_div_denominator(x, denominator, scale);
    vstd::arithmetic::div_mod::lemma_div_multiples_vanish_quotient(scale, n, denominator);
    assert(scale * n == x && scale * denominator == denominator * scale) by (nonlinear_arith)
        requires
            x == n * scale,
    ;
    vstd::arithmetic::div_mod::lemma_fundamental_div_mod(x, denominator);
    vstd::arithmetic::div_mod::lemma_mod_bound(x, denominator);
    assert(denominator * (x / denominator) == (x / denominator) * denominator)
        by (nonlinear_arith);
}

/// Scaling round trip under the truncation policy. A physical value
/// `numerator / denominator` is scaled and cut to whole counts; the counts
/// come back from the wire unchanged; dividing them by the scale recovers
/// the whole units of the value; and what was cut off is less than one
/// count, toward zero.
pub proof fn lemma_scaling_recovers_whole_units(numerator: int, denominator: int, scale: int)
    requires
        denominator > 0,
        scale > 0,
    ensures
        ({
            let counts = scaled_counts(numerator, denominator, scale);
            let back = decode_signed(encode_signed(counts));
            &&& back == counts
            &&& trunc_div(back, scale) == trunc_div(numerator, denominator)
            &&& numerator >= 0 ==> 0 <= numerator * scale - back * denominator < denominator
            &&& numerator <= 0 ==> 0 <= back * denominator - numerator * scale < denominator
        }),
{
    let counts = scaled_counts(numerator, denominator, scale);
    lemma_decode_encode(counts);
    if numerator >= 0 {
        lemma_scaled_quotient(numerator, denominator, scale);
        if numerator == 0 {
            assert(numerator * scale == 0) by (nonlinear_arith)
                requires
                    numerator == 0,
            ;
            assert(counts * denominator == 0) by (nonlinear_arith)
                requires
                    0 <= 0 - counts * denominator,
                    counts >= 0,
                    denominator > 0,
            ;
        }
    } else {
        let n = -numerator;
        lemma_scaled_quotient(n, denominator, scale);
        assert(n * scale == -(numerator * scale) && numerator * scale < 0) by (nonlinear_arith)
            requires
                n == -numerator,
                numerator < 0,
                scale > 0,
        ;
        let c = (n * scale) / denominator;
        assert(counts == -c);
        assert((-c) * denominator == -(c * denominator)) by (nonlinear_arith);
        if c == 0 {
            assert(0int / scale == 0) by (nonlinear_arith)
                requires
                    scale > 0,
            ;
        }
    }
}

/// Appends the decimal digits of `n` to `out`.
fn push_digits(out: &mut Vec<u8>, n: usize)
    ensures
        final(out)@ == old(out)@ + digits_of(n as nat),
    decreases n,
{
    if n >= 10 {
        push_digits(out, n / 10);
    }
    let digit: u8 = (n % 10) as u8;
    out.push(48 + digit);
    assert(final(out)@ =~= old(out)@ + digits_of(n as nat));
}

/// Renders a signed integer in decimal ASCII: a leading `'-'` for a negative
/// value, no leading zeros.
pub fn num_to_bytes(number: isize) -> (bytes: Vec<u8>)
    ensures
        bytes@ == encode_signed(number as int),
{
    let mut bytes: Vec<u8> = Vec::new();
    if number < 0 {
        bytes.push(45);
        let magnitude: usize = (-(number + 1)) as usize + 1;
        push_digits(&mut bytes, magnitude);
        assert(bytes@ =~= encode_signed(number as int));
    } else {
        push_digits(&mut bytes, number as usize);
        assert(bytes@ =~= encode_signed(number as int));
    }
    bytes
}

/// The ASCII digit of a channel id.
pub fn int_to_byte(number: u8) -> (byte: u8)
    requires
        number <= 9,
    ensures
        byte == number + 48,
        is_digit(byte),
{
    number + 48
}

/// Reads a signed integer out of `bytes`: the digits are accumulated in
/// decimal, every other byte is skipped, and the result is negative exactly
/// when the first byte is `'-'`. The magnitude has to fit the machine word.
pub fn ascii_to_int(bytes: &[u8]) -> (value: isize)
    requires
        digits_value(bytes@) <= isize::MAX,
    ensures
        value == decode_signed(bytes@),
{
    let mut acc: isize = 0;
    let mut i: usize = 0;
    while i < bytes.len()
        invariant
            i <= bytes.len(),
            digits_value(bytes@) <= isize::MAX,
            acc == digits_value(bytes@.take(i as int)),
        decreases bytes.len() - i,
    {
        let b: u8 = bytes[i];
        proof {
            lemma_digits_value_prefix(bytes@, i + 1);
            assert(bytes@.take(i + 1).drop_last() =~= bytes@.take(i as int));
        }
        if 48 <= b && b <= 57 {
            acc = acc * 10 + (b - 48) as isize;
        }
        i += 1;
    }
    proof {
        assert(bytes@.take(i as int) =~= bytes@);
    }
    if bytes.len() > 0 && bytes[0] == 45 {
        -acc
    } else {
        acc
    }
}

/// As `ascii_to_int`, for any input: `None` exactly when the digits spell a
/// magnitude that does not fit the machine word.
pub fn try_ascii_to_int(bytes: &[u8]) -> (value: Option<isize>)
    ensures
        value is Some <==> digits_value(bytes@) <= isize::MAX,
        value matches Some(v) ==> v == decode_signed(bytes@),
{
    let limit: isize = isize::MAX;
    let mut acc: isize = 0;
    let mut i: usize = 0;
    while i < bytes.len()
        invariant
            i <= bytes.len(),
            limit == isize::MAX,
            0 <= acc,
            acc == digits_value(bytes@.take(i as int)),
        decreases bytes.len() - i,
    {
        let b: u8 = bytes[i];
        proof {
            lemma_digits_value_prefix(bytes@, i + 1);
            assert(bytes@.take(i + 1).drop_last() =~= bytes@.take(i as int));
        }
        if 48 <= b && b <= 57 {
            let digit: isize = (b - 48) as isize;
            if acc > (limit - digit) / 10 {
                return None;
            }
            acc = acc * 10 + digit;
        }
        i += 1;
    }
    proof {
        assert(bytes@.take(i as int) =~= bytes@);
    }
    if bytes.len() > 0 && bytes[0] == 45 {
        Some(-acc)
    } else {
        Some(acc)
    }
}

} // verus!

//! Numbers as decimal text: rounding a quotient to the nearest whole number,
//! and writing a count of hundredths with two decimal places.

use crate::signals::HUNDREDTHS_PER_UNIT;
use vstd::prelude::*;
use vstd::string::StringExecFns;

verus! {

/// The distance of `v` from zero.
pub open spec fn magnitude_of(v: int) -> nat {
    if v < 0 {
        (-v) as nat
    } else {
        v as nat
    }
}

/// Whether the quotient of two distances from zero, with the whole part
/// `whole` and `rest` left over the divisor `by`, is rounded up: where it
/// is past the half, or at the half with an odd whole part.
pub open spec fn rounds_up(whole: nat, rest: nat, by: nat) -> bool {
    2 * rest > by || (2 * rest == by && whole % 2 == 1)
}

/// The whole number nearest to `num / den`; a quotient halfway between two
/// whole numbers goes to the even one. `den` is not zero.
pub open spec fn nearest(num: int, den: int) -> int {
    let a = magnitude_of(num);
    let b = magnitude_of(den);
    let m = if rounds_up(a / b, a % b, b) {
        a / b + 1
    } else {
        a / b
    };
    if (num < 0) != (den < 0) {
        -m
    } else {
        m as int
    }
}

/// The nearest whole number is at most half a unit away from the quotient,
/// and has the sign of the quotient or is zero.
pub proof fn lemma_nearest_is_nearest(num: int, den: int)
    requires
        den != 0,
    ensures
        2 * magnitude_of(num - nearest(num, den) * den) <= magnitude_of(den),
        magnitude_of(nearest(num, den)) * magnitude_of(den) <= magnitude_of(num) + magnitude_of(
            den,
        ),
        num == 0 ==> nearest(num, den) == 0,
{
    let a = magnitude_of(num) as int;
    let b = magnitude_of(den) as int;
    let q = a / b;
    let r = a % b;
    let m = if rounds_up(q as nat, r as nat, b as nat) {
        q + 1
    } else {
        q
    };
    assert(a == b * q + r && 0 <= r < b) by {
        vstd::arithmetic::div_mod::lemma_fundamental_div_mod(a, b);
    }
    assert(q >= 0) by (nonlinear_arith)
        requires
            a == b * q + r,
            0 <= r < b,
            a >= 0,
    ;
    let v = nearest(num, den);
    assert(magnitude_of(v) == m);
    if (num < 0) != (den < 0) {
        assert(v == -m);
        if num < 0 {
            assert(num - v * den == -(a - m * b)) by (nonlinear_arith)
                requires
                    num == -a,
                    den == b,
                    v == -m,
            ;
        } else {
            assert(num - v * den == a - m * b) by (nonlinear_arith)
                requires
                    num == a,
                    den == -b,
                    v == -m,
            ;
        }
    } else {
        assert(v == m);
        if num < 0 {
            assert(num - v * den == -(a - m * b)) by (nonlinear_arith)
                requires
                    num == -a,
                    den == -b,
                    v == m,
            ;
        } else {
            assert(num - v * den == a - m * b) by (nonlinear_arith)
                requires
                    num == a,
                    den == b,
                    v == m,
            ;
        }
    }
    if rounds_up(q as nat, r as nat, b as nat) {
        assert(a - m * b == r - b) by (nonlinear_arith)
            requires
                a == b * q + r,
                m == q + 1,
        ;
    } else {
        assert(a - m * b == r) by (nonlinear_arith)
            requires
                a == b * q + r,
                m == q,
        ;
    }
    assert(m * b <= a + b) by (nonlinear_arith)
        requires
            a == b * q + r,
            0 <= r < b,
            m <= q + 1,
            b > 0,
    ;
    if num == 0 {
        assert(r == 0 && q == 0) by (nonlinear_arith)
            requires
                0 == b * q + r,
                0 <= r < b,
                q >= 0,
        ;
    }
}

/// Whether the quotient `num / den` takes a minus sign: where one of the
/// two is below zero and the other is not. A quotient so small that it
/// rounds to zero keeps its sign.
pub open spec fn quotient_negative(num: int, den: int) -> bool {
    (num < 0) != (den < 0)
}

/// The distance of `v` from zero.
pub fn magnitude(v: i128) -> (r: u128)
    ensures
        r == magnitude_of(v as int),
{
    if v >= 0 {
        v as u128
    } else if v == i128::MIN {
        0x8000_0000_0000_0000_0000_0000_0000_0000u128
    } else {
        (-v) as u128
    }
}

/// The whole number nearest to `num * scale / den`, as the sign of the
/// quotient `num / den` and the distance of that whole number from zero.
/// There is none where `den` is zero, nor where the distance of
/// `num * scale` from zero is beyond the range of the result.
pub fn rounded(num: i128, den: i128, scale: u128) -> (r: Option<(bool, u128)>)
    ensures
        r is Some <==> den != 0 && magnitude_of(num as int) * scale <= u128::MAX,
        r matches Some((negative, distance)) ==> {
            &&& negative == quotient_negative(num as int, den as int)
            &&& distance == magnitude_of(nearest(num * scale, den as int))
        },
{
    if den == 0 {
        return None;
    }
    let m: u128 = magnitude(num);
    if scale != 0 && m > u128::MAX / scale {
        proof {
            assert(m * scale > u128::MAX) by (nonlinear_arith)
                requires
                    scale > 0,
                    m > u128::MAX / scale,
            ;
        }
        return None;
    }
    proof {
        assert(m * scale <= u128::MAX) by (nonlinear_arith)
            requires
                scale == 0 || m <= u128::MAX / scale,
        ;
        assert(magnitude_of(num * scale) == m * scale) by (nonlinear_arith)
            requires
                m == magnitude_of(num as int),
                scale >= 0,
        ;
    }
    let a: u128 = m * scale;
    let b: u128 = magnitude(den);
    let q: u128 = a / b;
    let rest: u128 = a % b;
    let up: bool = rest > b - rest || (rest == b - rest && q % 2 == 1);
    proof {
        if up {
            assert(b >= 2);
            assert(a / b <= a / 2) by (nonlinear_arith)
                requires
                    b >= 2,
                    a >= 0,
            ;
        }
    }
    let distance: u128 = if up {
        q + 1
    } else {
        q
    };
    let negative: bool = (num < 0) != (den < 0);
    Some((negative, distance))
}

/// The character that writes the digit `d`.
pub open spec fn digit_char(d: nat) -> char {
    if d == 0 {
        '0'
    } else if d == 1 {
        '1'
    } else if d == 2 {
        '2'
    } else if d == 3 {
        '3'
    } else if d == 4 {
        '4'
    } else if d == 5 {
        '5'
    } else if d == 6 {
        '6'
    } else if d == 7 {
        '7'
    } else if d == 8 {
        '8'
    } else {
        '9'
    }
}

/// The decimal digits of `n`, without leading zeros; zero is written `0`.
pub open spec fn decimal_text(n: nat) -> Seq<char>
    decreases n,
{
    if n < 10 {
        seq![digit_char(n)]
    } else {
        decimal_text(n / 10).push(digit_char(n % 10))
    }
}

/// A count of hundredths written with two decimal places: a minus sign
/// where it is `negative`, the whole part of its distance from zero, a
/// point and two digits.
pub open spec fn hundredths_text_of(negative: bool, distance: nat) -> Seq<char> {
    let sign = if negative {
        seq!['-']
    } else {
        Seq::<char>::empty()
    };
    sign + decimal_text(distance / (HUNDREDTHS_PER_UNIT as nat)) + seq![
        '.',
        digit_char(distance / 10 % 10),
        digit_char(distance % 10),
    ]
}

/// A whole count of hundredths written with two decimal places, with a
/// minus sign where it is below zero.
pub open spec fn hundredths_text(v: int) -> Seq<char> {
    hundredths_text_of(v < 0, magnitude_of(v))
}

/// The quotient `num * scale / den`, a count of hundredths, rounded to the
/// nearest and written with two decimal places, with the sign of `num / den`.
pub open spec fn quotient_text(num: int, den: int, scale: nat) -> Seq<char> {
    hundredths_text_of(quotient_negative(num, den), magnitude_of(nearest(num * scale, den)))
}

/// The text of one digit.
fn digit_str(d: u128) -> (r: &'static str)
    requires
        d < 10,
    ensures
        r@ == seq![digit_char(d as nat)],
{
    proof {
        reveal_strlit("0");
        reveal_strlit("1");
        reveal_strlit("2");
        reveal_strlit("3");
        reveal_strlit("4");
        reveal_strlit("5");
        reveal_strlit("6");
        reveal_strlit("7");
        reveal_strlit("8");
        reveal_strlit("9");
    }
    let r = if d == 0 {
        "0"
    } else if d == 1 {
        "1"
    } else if d == 2 {
        "2"
    } else if d == 3 {
        "3"
    } else if d == 4 {
        "4"
    } else if d == 5 {
        "5"
    } else if d == 6 {
        "6"
    } else if d == 7 {
        "7"
    } else if d == 8 {
        "8"
    } else {
        "9"
    };
    assert(r@ =~= seq![digit_char(d as nat)]);
    r
}

/// Appends the decimal digits of `n` to `out`.
pub fn push_decimal(out: &mut String, n: u128)
    ensures
        final(out)@ == old(out)@ + decimal_text(n as nat),
    decreases n,
{
    if n >= 10 {
        push_decimal(out, n / 10);
    }
    out.append(digit_str(n % 10));
    assert(out@ =~= old(out)@ + decimal_text(n as nat));
}

/// Appends to `out` the count of hundredths with the given sign and
/// distance from zero, written with two decimal places.
pub fn push_hundredths(out: &mut String, negative: bool, distance: u128)
    ensures
        final(out)@ == old(out)@ + hundredths_text_of(negative, distance as nat),
{
    proof {
        reveal_strlit("-");
        reveal_strlit(".");
    }
    if negative {
        out.append("-");
    }
    push_decimal(out, distance / (HUNDREDTHS_PER_UNIT as u128));
    out.append(".");
    out.append(digit_str(distance / 10 % 10));
    out.append(digit_str(distance % 10));
    assert(out@ =~= old(out)@ + hundredths_text_of(negative, distance as nat));
}

} // verus!

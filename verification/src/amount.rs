//! Amounts of dollars as the relay sends them: finite doubles, held as their bits,
//! and what the dashboard computes from them in double precision.
use vstd::prelude::*;
use vstd::arithmetic::power2::{lemma2_to64, lemma2_to64_rest, pow2};
use crate::bigdecimal::push_scaled_decimal;
use crate::binary64::{
    at_least, lemma_pow2_52_53, nearest, nearest_double, one, quotient, quotient_exec, round_half_up,
    round_half_up_exec, round_to_even, round_to_even_exec, times, times_exec,
};
use crate::text::{decimal, digit, digit_char, push_char, push_decimal_wide};

verus! {

/// The exponent field of a double's bits.
pub open spec fn field_of(b: u64) -> nat {
    (b as nat / pow2(52)) % 2048
}

/// The fraction field of a double's bits.
pub open spec fn fraction_of(b: u64) -> nat {
    b as nat % pow2(52)
}

/// Whether a double's sign bit is set.
pub open spec fn negative_bits(b: u64) -> bool {
    b as nat >= pow2(63)
}

/// Whether a double is finite (not an infinity, not not-a-number).
pub open spec fn finite_bits(b: u64) -> bool {
    field_of(b) != 2047
}

/// The magnitude of a finite double as `(m, e)`, the value `m * 2^e` (subnormals
/// and zero included).
pub open spec fn magnitude_of(b: u64) -> (nat, int) {
    if field_of(b) == 0 {
        (fraction_of(b), -1074)
    } else {
        (pow2(52) + fraction_of(b), field_of(b) - 1075)
    }
}

/// An integer that orders finite doubles as their values do (both zeros alike).
pub open spec fn order_key(b: u64) -> int {
    if negative_bits(b) {
        -((b as nat % pow2(63)) as int)
    } else {
        b as int
    }
}

/// Whether a finite double is greater than zero.
pub open spec fn is_positive(b: u64) -> bool {
    order_key(b) > 0
}

/// A finite amount of dollars, held as the bits of a double.
#[derive(Debug, Clone, Copy, PartialEq, Eq)]
pub struct Dollars {
    bits: u64,
}

impl View for Dollars {
    type V = u64;

    closed spec fn view(&self) -> u64 {
        self.bits
    }
}

impl Dollars {
    #[verifier::type_invariant]
    closed spec fn inv(self) -> bool {
        finite_bits(self.bits)
    }

    /// The amount whose double has these bits, if it is finite.
    pub fn from_bits(bits: u64) -> (r: Option<Dollars>)
        ensures
            r is Some <==> finite_bits(bits),
            r matches Some(d) ==> d@ == bits,
    {
        let (_, field, _) = parts(bits);
        if field == 2047 {
            None
        } else {
            Some(Dollars { bits })
        }
    }

    /// Zero dollars.
    pub fn zero() -> (d: Dollars)
        ensures
            d@ == 0,
    {
        proof {
            lemma_pow2_52_53();
        }
        assert(field_of(0) == 0);
        Dollars { bits: 0 }
    }

    /// The bits of the amount's double, which is finite.
    pub fn bits(&self) -> (b: u64)
        ensures
            b == self@,
            finite_bits(b),
    {
        proof {
            use_type_invariant(self);
        }
        self.bits
    }
}

/// The amount whose double has the bits `b` (meaningful where they are finite).
pub closed spec fn dollars_of(b: u64) -> Dollars {
    Dollars { bits: b }
}

/// An amount is the one its bits give, and `dollars_of` gives back its bits.
pub proof fn lemma_dollars_of(d: Dollars, b: u64)
    ensures
        dollars_of(b)@ == b,
        d == dollars_of(d@),
{
}

/// The sign, exponent field and fraction field of a double's bits.
pub fn parts(b: u64) -> (r: (bool, u64, u64))
    ensures
        r.0 == negative_bits(b),
        r.1 == field_of(b),
        r.2 == fraction_of(b),
        r.1 < 2048,
        r.2 < pow2(52),
{
    proof {
        lemma_pow2_52_53();
        lemma2_to64_rest();
    }
    (b >= 0x8000_0000_0000_0000, (b / 0x10_0000_0000_0000) % 2048, b % 0x10_0000_0000_0000)
}

/// The magnitude `(m, e)` of a finite double.
fn magnitude(b: u64) -> (r: (u128, i32))
    requires
        finite_bits(b),
    ensures
        (r.0 as nat, r.1 as int) == magnitude_of(b),
        r.0 < pow2(53),
        -1074 <= r.1 <= 971,
        r.1 >= 0 ==> r.0 > 0,
{
    proof {
        lemma_pow2_52_53();
    }
    let (_, field, fraction) = parts(b);
    if field == 0 {
        (fraction as u128, -1074)
    } else {
        (0x10_0000_0000_0000 + fraction as u128, field as i32 - 1075)
    }
}

/// Whether the amount is greater than zero.
pub fn is_positive_exec(d: Dollars) -> (p: bool)
    ensures
        p == is_positive(d@),
{
    let b = d.bits();
    proof {
        lemma2_to64_rest();
    }
    b != 0 && b < 0x8000_0000_0000_0000
}

/// Whether `a` is less than `b`.
pub fn less(a: Dollars, b: Dollars) -> (r: bool)
    ensures
        r == (order_key(a@) < order_key(b@)),
{
    proof {
        lemma2_to64_rest();
    }
    let x = a.bits();
    let y = b.bits();
    let kx: i128 = if x >= 0x8000_0000_0000_0000 { -((x - 0x8000_0000_0000_0000) as i128) } else { x as i128 };
    let ky: i128 = if y >= 0x8000_0000_0000_0000 { -((y - 0x8000_0000_0000_0000) as i128) } else { y as i128 };
    kx < ky
}

/// What `{:.2}` prints of the double, behind a `$`: its sign where the sign bit
/// is set, then its exact value rounded to hundredths, ties to the even one.
pub open spec fn dollars_spec(d: u64) -> Seq<char> {
    let x = magnitude_of(d);
    let h = round_to_even((100 * x.0, x.1));
    seq!['$'] + (if negative_bits(d) {
        seq!['-']
    } else {
        Seq::empty()
    }) + decimal(h / 100) + seq!['.', digit_char((h % 100) / 10), digit_char(h % 10)]
}

/// The amount as dollars with two decimals (`$12.30`, `$-0.50`), as `{:.2}` prints it.
pub fn dollars(d: Dollars) -> (s: String)
    ensures
        s@ == dollars_spec(d@),
{
    let b = d.bits();
    let (negative, field, fraction) = parts(b);
    let (m, e) = magnitude(b);
    let mut s = String::new();
    push_char(&mut s, '$');
    if negative {
        push_char(&mut s, '-');
    }
    let ghost head = s@;
    proof {
        lemma_pow2_52_53();
    }
    if e >= 0 {
        push_scaled_decimal(&mut s, m as u64, e as u32);
        push_char(&mut s, '.');
        push_char(&mut s, '0');
        push_char(&mut s, '0');
        proof {
            let n = m as nat * pow2(e as nat);
            assert(100 * m as nat * pow2(e as nat) == 100 * n) by (nonlinear_arith)
                requires
                    n == m as nat * pow2(e as nat),
            ;
            assert((100 * n) / 100 == n && (100 * n) % 100 == 0);
            assert(digit_char(0) == '0');
        }
    } else {
        let h = round_to_even_exec(100 * m, e);
        push_decimal_wide(&mut s, h / 100);
        push_char(&mut s, '.');
        push_char(&mut s, digit(((h % 100) / 10) as u64));
        push_char(&mut s, digit((h % 10) as u64));
    }
    s
}

/// The cents the trend records for an amount: a positive amount times 100 (a
/// double product), rounded halves up, at most `u64::MAX`; zero for zero and
/// negative amounts and for those below the normal doubles.
pub open spec fn trend_cents(d: u64) -> u64 {
    if !is_positive(d) || field_of(d) == 0 {
        0
    } else {
        let p = times(magnitude_of(d), 100);
        let r: nat = if p.1 >= 12 {
            pow2(64)
        } else {
            round_half_up(p)
        };
        if r > u64::MAX {
            u64::MAX
        } else {
            r as u64
        }
    }
}

/// The cents the trend records for an amount.
pub fn trend_cents_exec(d: Dollars) -> (c: u64)
    ensures
        c == trend_cents(d@),
{
    let b = d.bits();
    let (_, field, _) = parts(b);
    if !is_positive_exec(d) || field == 0 {
        return 0;
    }
    let (m, e) = magnitude(b);
    proof {
        lemma_pow2_52_53();
    }
    let (pm, pe) = times_exec(m, e, 100);
    if pe >= 12 {
        proof {
            lemma2_to64();
        }
        return 0xffff_ffff_ffff_ffff;
    }
    let r = round_half_up_exec(pm, pe);
    if r > 0xffff_ffff_ffff_ffff {
        0xffff_ffff_ffff_ffff
    } else {
        r as u64
    }
}

/// The share of its limit that a cost is, for a positive cost and limit: the
/// double quotient of the two amounts.
pub open spec fn cost_ratio(current: u64, limit: u64) -> (nat, int) {
    quotient(magnitude_of(current), magnitude_of(limit))
}

/// Whether a cost has reached its limit: the share is at least `1.0` (a limit of
/// zero or less means unlimited; a cost of zero or less never reaches it).
pub open spec fn cost_over(current: u64, limit: u64) -> bool {
    is_positive(limit) && is_positive(current) && at_least(cost_ratio(current, limit), one())
}

/// Whether a cost has reached nine tenths of its limit: the share is at least the
/// double `0.9`.
pub open spec fn cost_near(current: u64, limit: u64) -> bool {
    is_positive(limit) && is_positive(current) && at_least(cost_ratio(current, limit), nearest(9, 10))
}

/// The share of its limit that a positive cost is.
pub fn cost_ratio_exec(current: Dollars, limit: Dollars) -> (r: (u128, i32))
    requires
        is_positive(current@),
        is_positive(limit@),
    ensures
        (r.0 as nat, r.1 as int) == cost_ratio(current@, limit@),
        pow2(52) <= r.0 < pow2(53),
        -2400 <= r.1 <= 2400,
{
    let (cm, ce) = magnitude(current.bits());
    let (lm, le) = magnitude(limit.bits());
    proof {
        lemma_pow2_52_53();
        lemma2_to64_rest();
        assert(cm > 0 && lm > 0);
    }
    quotient_exec(cm, ce, lm, le)
}

/// Whether a cost has reached its limit.
pub fn cost_is_over(current: Dollars, limit: Dollars) -> (b: bool)
    ensures
        b == cost_over(current@, limit@),
{
    if !is_positive_exec(limit) || !is_positive_exec(current) {
        return false;
    }
    let (m, e) = cost_ratio_exec(current, limit);
    proof {
        lemma_pow2_52_53();
    }
    e > -52 || (e == -52 && m >= 0x10_0000_0000_0000)
}

/// Whether a cost has reached nine tenths of its limit.
pub fn cost_is_near(current: Dollars, limit: Dollars) -> (b: bool)
    ensures
        b == cost_near(current@, limit@),
{
    if !is_positive_exec(limit) || !is_positive_exec(current) {
        return false;
    }
    let (m, e) = cost_ratio_exec(current, limit);
    let (nm, ne) = nearest_double(9, 10);
    e > ne || (e == ne && m >= nm)
}

/// Whether `m1 * 2^a <= m2 * 2^b`.
pub open spec fn scaled_at_most(m1: nat, a: int, m2: nat, b: int) -> bool {
    if a >= b {
        m1 * pow2((a - b) as nat) <= m2
    } else {
        m1 <= m2 * pow2((b - a) as nat)
    }
}

/// Whether the share of a cost in its limit is the double `-0.0`: the cost is a
/// negative zero, or it is negative and so small against the limit that the
/// quotient rounds to zero (at most `2^-1075` of the limit).
pub open spec fn share_is_negative_zero(current: u64, limit: u64) -> bool {
    let c = magnitude_of(current);
    let l = magnitude_of(limit);
    negative_bits(current) && is_positive(limit) && (c.0 == 0 || scaled_at_most(c.0, c.1 + 1075, l.0, l.1))
}

fn scaled_at_most_exec(m1: u128, a: i32, m2: u128, b: i32) -> (r: bool)
    requires
        0 < m1 < pow2(53),
        0 < m2 < pow2(53),
        -3000 <= a <= 3000,
        -3000 <= b <= 3000,
    ensures
        r == scaled_at_most(m1 as nat, a as int, m2 as nat, b as int),
{
    proof {
        lemma_pow2_52_53();
        lemma2_to64();
    }
    if a >= b {
        let d = a - b;
        if d >= 53 {
            proof {
                if d > 53 {
                    vstd::arithmetic::power2::lemma_pow2_strictly_increases(53, d as nat);
                }
                assert(m1 * pow2(d as nat) >= pow2(d as nat)) by (nonlinear_arith)
                    requires
                        m1 >= 1,
                ;
            }
            false
        } else {
            let f = crate::binary64::power_of_two(d as u32);
            proof {
                if d < 53 {
                    vstd::arithmetic::power2::lemma_pow2_strictly_increases(d as nat, 53);
                }
                assert(m1 * f <= 0x20_0000_0000_0000 * 0x20_0000_0000_0000) by (nonlinear_arith)
                    requires
                        m1 < 0x20_0000_0000_0000,
                        f < 0x20_0000_0000_0000,
                ;
            }
            m1 * f <= m2
        }
    } else {
        let d = b - a;
        if d >= 53 {
            proof {
                if d > 53 {
                    vstd::arithmetic::power2::lemma_pow2_strictly_increases(53, d as nat);
                }
                assert(m2 * pow2(d as nat) >= pow2(d as nat)) by (nonlinear_arith)
                    requires
                        m2 >= 1,
                ;
            }
            true
        } else {
            let f = crate::binary64::power_of_two(d as u32);
            proof {
                if d < 53 {
                    vstd::arithmetic::power2::lemma_pow2_strictly_increases(d as nat, 53);
                }
                assert(m2 * f <= 0x20_0000_0000_0000 * 0x20_0000_0000_0000) by (nonlinear_arith)
                    requires
                        m2 < 0x20_0000_0000_0000,
                        f < 0x20_0000_0000_0000,
                ;
            }
            m1 <= m2 * f
        }
    }
}

/// Whether the share of a cost in its limit is the double `-0.0`.
pub fn share_is_negative_zero_exec(current: Dollars, limit: Dollars) -> (z: bool)
    ensures
        z == share_is_negative_zero(current@, limit@),
{
    let cb = current.bits();
    let (negative, _, _) = parts(cb);
    if !negative || !is_positive_exec(limit) {
        return false;
    }
    let (cm, ce) = magnitude(cb);
    let lb = limit.bits();
    let (lm, le) = magnitude(lb);
    if cm == 0 {
        return true;
    }
    proof {
        lemma2_to64_rest();
        lemma_pow2_52_53();
        assert(0 < lb < 0x8000_0000_0000_0000);
        if field_of(lb) == 0 {
            let q = lb as nat / pow2(52);
            assert(q < 2048);
            assert(q % 2048 == q);
            assert(lb as nat % pow2(52) == lb as nat);
        }
        assert(lm > 0);
    }
    scaled_at_most_exec(cm, ce + 1075, lm, le)
}

} // verus!

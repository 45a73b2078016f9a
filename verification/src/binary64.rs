//! Round-to-nearest binary64 arithmetic on positive rationals, in integers: what
//! a quotient, a conversion or a product gives where the dashboard's figures are
//! computed in double precision. A positive double is a pair `(m, e)`, the value
//! `m * 2^e`, with `2^52 <= m < 2^53`.
use vstd::prelude::*;
use vstd::arithmetic::power2::{
    lemma2_to64, lemma2_to64_rest, lemma_pow2_adds, lemma_pow2_pos, lemma_pow2_strictly_increases,
    lemma_pow2_unfold, pow2,
};

verus! {

/// `x / y` rounded to the nearest integer, ties to the even one.
pub open spec fn round_half_even(x: nat, y: nat) -> nat {
    let q = x / y;
    let r = x % y;
    if 2 * r > y {
        q + 1
    } else if 2 * r < y {
        q
    } else if q % 2 == 0 {
        q
    } else {
        q + 1
    }
}

/// How often `b` doubles while it stays at most `a`: `floor(log2(a / b))` for `a >= b`.
pub open spec fn doublings_up(a: nat, b: nat) -> nat
    decreases a - b,
{
    if b == 0 || a < 2 * b {
        0
    } else {
        1 + doublings_up(a, 2 * b)
    }
}

/// How often `a < b` doubles until it reaches `b`: `-floor(log2(a / b))`.
pub open spec fn doublings_down(a: nat, b: nat) -> nat
    decreases (if a < b { b - a } else { 0 }),
{
    if a == 0 || a >= b {
        0
    } else {
        1 + doublings_down(2 * a, b)
    }
}

/// `floor(log2(a / b))`.
pub open spec fn binary_exponent(a: nat, b: nat) -> int {
    if a >= b {
        doublings_up(a, b) as int
    } else {
        -(doublings_down(a, b) as int)
    }
}

/// The double nearest to `a / b` (ties to the even mantissa), as `(m, e)`.
pub open spec fn nearest(a: nat, b: nat) -> (nat, int) {
    let x = binary_exponent(a, b);
    let m = if x >= 52 {
        round_half_even(a, b * pow2((x - 52) as nat))
    } else {
        round_half_even(a * pow2((52 - x) as nat), b)
    };
    if m == pow2(53) {
        (pow2(52), x - 51)
    } else {
        (m, x - 52)
    }
}

proof fn lemma_doublings_up(a: nat, b: nat)
    requires
        0 < b <= a,
    ensures
        b * pow2(doublings_up(a, b)) <= a < b * pow2(doublings_up(a, b) + 1),
    decreases a - b,
{
    lemma2_to64();
    let k = doublings_up(a, b);
    if a < 2 * b {
        assert(k == 0);
        assert(pow2(k) == 1 && pow2(k + 1) == 2);
        assert(b * pow2(k) == b && b * pow2(k + 1) == 2 * b) by (nonlinear_arith)
            requires
                pow2(k) == 1 && pow2(k + 1) == 2,
        ;
    } else {
        lemma_doublings_up(a, 2 * b);
        let j = doublings_up(a, 2 * b);
        assert(k == j + 1);
        lemma_pow2_unfold(j + 1);
        lemma_pow2_unfold(j + 2);
        assert(2 * b * pow2(j) <= a < 2 * b * pow2(j + 1));
        assert(2 * b * pow2(j) == b * pow2(j + 1)) by (nonlinear_arith)
            requires
                pow2(j + 1) == 2 * pow2(j),
        ;
        assert(2 * b * pow2(j + 1) == b * pow2(j + 2)) by (nonlinear_arith)
            requires
                pow2(j + 2) == 2 * pow2(j + 1),
        ;
        assert(b * pow2(k) <= a);
        assert(a < b * pow2(k + 1));
    }
}

proof fn lemma_doublings_down(a: nat, b: nat)
    requires
        0 < a < b,
    ensures
        doublings_down(a, b) >= 1,
        a * pow2(doublings_down(a, b)) >= b,
        a * pow2((doublings_down(a, b) - 1) as nat) < b,
    decreases b - a,
{
    lemma2_to64();
    let k = doublings_down(a, b);
    if 2 * a >= b {
        assert(doublings_down(2 * a, b) == 0);
        assert(k == 1);
        assert(pow2(1) == 2 && pow2(0) == 1);
        assert(a * pow2(1) == 2 * a && a * pow2(0) == a) by (nonlinear_arith)
            requires
                pow2(1) == 2 && pow2(0) == 1,
        ;
    } else {
        lemma_doublings_down(2 * a, b);
        let j = doublings_down(2 * a, b);
        assert(k == j + 1);
        lemma_pow2_unfold(j + 1);
        lemma_pow2_unfold(j);
        assert(a * pow2(j + 1) == 2 * a * pow2(j)) by (nonlinear_arith)
            requires
                pow2(j + 1) == 2 * pow2(j),
        ;
        assert(a * pow2(j) == 2 * a * pow2((j - 1) as nat)) by (nonlinear_arith)
            requires
                pow2(j) == 2 * pow2((j - 1) as nat),
        ;
        assert(a * pow2(k) >= b);
        assert((k - 1) as nat == j);
        assert(a * pow2((k - 1) as nat) < b);
    }
}

proof fn lemma_quotient_between(x: nat, y: nat, lo: nat, hi: nat)
    requires
        y > 0,
        y * lo <= x,
        x < y * hi,
    ensures
        lo <= x / y < hi,
{
    let q = x / y;
    let r = x % y;
    assert(x == y * q + r && 0 <= r < y) by {
        vstd::arithmetic::div_mod::lemma_fundamental_div_mod(x as int, y as int);
    }
    if q < lo {
        assert(y * q + r < y * lo) by (nonlinear_arith)
            requires
                q + 1 <= lo,
                r < y,
                y > 0,
        ;
    }
    if q >= hi {
        assert(y * q >= y * hi) by (nonlinear_arith)
            requires
                q >= hi,
                y > 0,
        ;
    }
}

proof fn lemma_round_between(x: nat, y: nat, lo: nat, hi: nat)
    requires
        y > 0,
        y * lo <= x,
        x < y * hi,
    ensures
        lo <= round_half_even(x, y) <= hi,
{
    lemma_quotient_between(x, y, lo, hi);
}

/// The value `2^52`.
pub proof fn lemma_pow2_52_53()
    ensures
        pow2(52) == 0x10_0000_0000_0000,
        pow2(53) == 0x20_0000_0000_0000,
{
    lemma2_to64_rest();
}

fn round_half_even_exec(x: u128, y: u128) -> (r: u128)
    requires
        y > 0,
    ensures
        r == round_half_even(x as nat, y as nat),
{
    let q = x / y;
    let r = x % y;
    if r > y - r {
        assert(y >= 2 && q <= x / 2) by {
            vstd::arithmetic::div_mod::lemma_div_is_ordered_by_denominator(x as int, 2, y as int);
        }
        q + 1
    } else if r < y - r {
        q
    } else if q % 2 == 0 {
        q
    } else {
        assert(y >= 2 && q <= x / 2) by {
            vstd::arithmetic::div_mod::lemma_div_is_ordered_by_denominator(x as int, 2, y as int);
        }
        q + 1
    }
}

/// `2^k`.
pub(crate) fn power_of_two(k: u32) -> (p: u128)
    requires
        k < 127,
    ensures
        p == pow2(k as nat),
{
    proof {
        lemma2_to64();
    }
    let mut p: u128 = 1;
    let mut i: u32 = 0;
    while i < k
        invariant
            i <= k < 127,
            p == pow2(i as nat),
        decreases k - i,
    {
        proof {
            lemma_pow2_unfold((i + 1) as nat);
            lemma_pow2_strictly_increases((i + 1) as nat, 127);
            lemma_pow2_adds(64, 63);
            lemma2_to64_rest();
        }
        p = 2 * p;
        i = i + 1;
    }
    p
}

/// The double nearest to `a / b`, as `(m, e)` with `2^52 <= m < 2^53`.
pub fn nearest_double(a: u128, b: u128) -> (r: (u128, i32))
    requires
        0 < a <= 0x10_0000_0000_0000_0000_0000_0000,
        0 < b <= 0x1000_0000_0000_0000,
    ensures
        r.0 as nat == nearest(a as nat, b as nat).0,
        r.1 as int == nearest(a as nat, b as nat).1,
        pow2(52) <= r.0 < pow2(53),
        -113 <= r.1 <= 49,
{
    proof {
        lemma2_to64();
        lemma2_to64_rest();
        lemma_pow2_adds(64, 36);
        lemma_pow2_adds(64, 49);
        lemma_pow2_adds(64, 32);
    }
    let ghost big: nat = pow2(100);
    assert(big == 0x10_0000_0000_0000_0000_0000_0000);
    let m: u128;
    let x: i32;
    if a >= b {
        let mut p: u128 = b;
        let mut k: u32 = 0;
        while p <= a / 2
            invariant
                0 < b <= p <= a <= big,
                big == 0x10_0000_0000_0000_0000_0000_0000,
                big == pow2(100),
                k <= 100,
                p == b * pow2(k as nat),
                doublings_up(a as nat, b as nat) == k + doublings_up(a as nat, p as nat),
            decreases a - p,
        {
            proof {
                lemma_pow2_unfold((k + 1) as nat);
                assert(2 * p == b * pow2((k + 1) as nat)) by (nonlinear_arith)
                    requires
                        p == b * pow2(k as nat),
                        pow2((k + 1) as nat) == 2 * pow2(k as nat),
                ;
                if k + 1 > 100 {
                    lemma_pow2_strictly_increases(100, (k + 1) as nat);
                    assert(b * pow2((k + 1) as nat) >= pow2((k + 1) as nat)) by (nonlinear_arith)
                        requires
                            b >= 1,
                    ;
                }
            }
            p = 2 * p;
            k = k + 1;
        }
        proof {
            lemma_doublings_up(a as nat, b as nat);
        }
        x = k as i32;
        if k >= 52 {
            let f = power_of_two(k - 52);
            proof {
                lemma_pow2_adds((k - 52) as nat, 52);
                lemma_pow2_adds((k - 52) as nat, 53);
                lemma_pow2_pos((k - 52) as nat);
                assert(b * f <= p) by (nonlinear_arith)
                    requires
                        p == b * (f * pow2(52)),
                        pow2(52) >= 1,
                        b >= 1,
                        f >= 1,
                ;
            }
            let d = b * f;
            proof {
                assert(d * pow2(52) <= a < d * pow2(53)) by (nonlinear_arith)
                    requires
                        d == b * f,
                        b * pow2(k as nat) <= a < b * pow2((k + 1) as nat),
                        pow2(k as nat) == f * pow2(52),
                        pow2((k + 1) as nat) == f * pow2(53),
                ;
                lemma_round_between(a as nat, d as nat, pow2(52), pow2(53));
            }
            m = round_half_even_exec(a, d);
        } else {
            let f = power_of_two(52 - k);
            proof {
                lemma_pow2_adds((52 - k) as nat, k as nat);
                lemma_pow2_adds((52 - k) as nat, (k + 1) as nat);
                assert(b * pow2(52) <= a * f < b * pow2(53)) by (nonlinear_arith)
                    requires
                        b * pow2(k as nat) <= a < b * pow2((k + 1) as nat),
                        pow2(52) == f * pow2(k as nat),
                        pow2(53) == f * pow2((k + 1) as nat),
                        f >= 1,
                ;
                assert(b * pow2(53) <= 0x1000_0000_0000_0000 * 0x20_0000_0000_0000) by (nonlinear_arith)
                    requires
                        b <= 0x1000_0000_0000_0000,
                        pow2(53) == 0x20_0000_0000_0000,
                ;
                lemma_round_between((a * f) as nat, b as nat, pow2(52), pow2(53));
            }
            m = round_half_even_exec(a * f, b);
        }
    } else {
        let mut q: u128 = a;
        let mut k: u32 = 0;
        while q < b
            invariant
                0 < a <= q,
                a < b <= 0x1000_0000_0000_0000,
                k <= 61,
                q == a * pow2(k as nat),
                k > 0 ==> a * pow2((k - 1) as nat) < b,
                doublings_down(a as nat, b as nat) == k + doublings_down(q as nat, b as nat),
            decreases 61 - k,
        {
            proof {
                lemma2_to64_rest();
                lemma_pow2_unfold((k + 1) as nat);
                assert(2 * q == a * pow2((k + 1) as nat)) by (nonlinear_arith)
                    requires
                        q == a * pow2(k as nat),
                        pow2((k + 1) as nat) == 2 * pow2(k as nat),
                ;
                if k + 1 > 61 {
                    lemma_pow2_strictly_increases(60, k as nat);
                    assert(a * pow2(k as nat) >= pow2(k as nat)) by (nonlinear_arith)
                        requires
                            a >= 1,
                    ;
                }
            }
            q = 2 * q;
            k = k + 1;
        }
        proof {
            lemma_doublings_down(a as nat, b as nat);
            assert(doublings_down(q as nat, b as nat) == 0);
            assert(k >= 1);
        }
        x = -(k as i32);
        let f = power_of_two(52 + k);
        proof {
            lemma_pow2_adds(52, k as nat);
            lemma_pow2_adds(53, (k - 1) as nat);
            assert(f == pow2(52) * pow2(k as nat));
            assert(f == pow2(53) * pow2((k - 1) as nat));
            assert(a * pow2(k as nat) >= b);
            let pk = pow2(k as nat);
            let pk1 = pow2((k - 1) as nat);
            assert(a * f == (a * pk) * pow2(52)) by (nonlinear_arith)
                requires
                    f == pow2(52) * pk,
            ;
            assert(a * f == (a * pk1) * pow2(53)) by (nonlinear_arith)
                requires
                    f == pow2(53) * pk1,
            ;
            assert(b * pow2(52) <= (a * pk) * pow2(52)) by (nonlinear_arith)
                requires
                    a * pk >= b,
            ;
            assert((a * pk1) * pow2(53) < b * pow2(53)) by (nonlinear_arith)
                requires
                    a * pk1 < b,
                    pow2(53) > 0,
            ;
            assert(b * pow2(53) <= 0x1000_0000_0000_0000 * 0x20_0000_0000_0000) by (nonlinear_arith)
                requires
                    b <= 0x1000_0000_0000_0000,
                    pow2(53) == 0x20_0000_0000_0000,
            ;
            lemma_round_between((a * f) as nat, b as nat, pow2(52), pow2(53));
        }
        m = round_half_even_exec(a * f, b);
    }
    if m == 0x20_0000_0000_0000 {
        (0x10_0000_0000_0000, x + 1 - 52)
    } else {
        (m, x - 52)
    }
}

/// `floor(log2(a / b))` for `a >= b > 0`: `b * 2^x <= a < b * 2^(x + 1)`.
pub proof fn lemma_binary_exponent(a: nat, b: nat)
    requires
        0 < b <= a,
    ensures
        binary_exponent(a, b) >= 0,
        b * pow2(binary_exponent(a, b) as nat) <= a < b * pow2((binary_exponent(a, b) + 1) as nat),
{
    lemma_doublings_up(a, b);
}

/// The double `1.0`.
pub open spec fn one() -> (nat, int) {
    (pow2(52), -52)
}

/// Whether the double `x` is at least the double `y`.
pub open spec fn at_least(x: (nat, int), y: (nat, int)) -> bool {
    x.1 > y.1 || (x.1 == y.1 && x.0 >= y.0)
}

/// The double quotient `x / y` of two doubles.
pub open spec fn quotient(x: (nat, int), y: (nat, int)) -> (nat, int) {
    let q = nearest(x.0, y.0);
    (q.0, q.1 + x.1 - y.1)
}

/// The double product `k * x` of a double and a small integer.
pub open spec fn times(x: (nat, int), k: nat) -> (nat, int) {
    let p = nearest(k * x.0, 1);
    (p.0, p.1 + x.1)
}

/// The value `m * 2^e` rounded to an integer, ties to the even one (what `{:.0}`
/// prints).
pub open spec fn round_to_even(x: (nat, int)) -> nat {
    if x.1 >= 0 {
        x.0 * pow2(x.1 as nat)
    } else {
        round_half_even(x.0, pow2((-x.1) as nat))
    }
}

/// The value `m * 2^e` rounded to an integer, halves up (what `f64::round` gives
/// for a positive value).
pub open spec fn round_half_up(x: (nat, int)) -> nat {
    if x.1 >= 0 {
        x.0 * pow2(x.1 as nat)
    } else {
        (2 * x.0 + pow2((-x.1) as nat)) / (2 * pow2((-x.1) as nat))
    }
}

proof fn lemma_small_rounds_to_zero(m: nat, g: nat)
    requires
        g > 61,
        m < 0x1000_0000_0000_0000,
    ensures
        round_half_even(m, pow2(g)) == 0,
        (2 * m + pow2(g)) / (2 * pow2(g)) == 0,
{
    lemma2_to64_rest();
    lemma_pow2_strictly_increases(61, g);
    lemma_pow2_unfold(61);
    assert(m % pow2(g) == m) by {
        vstd::arithmetic::div_mod::lemma_small_mod(m, pow2(g));
    }
    assert(m / pow2(g) == 0) by {
        vstd::arithmetic::div_mod::lemma_basic_div(m as int, pow2(g) as int);
    }
    assert((2 * m + pow2(g)) / (2 * pow2(g)) == 0) by {
        vstd::arithmetic::div_mod::lemma_basic_div((2 * m + pow2(g)) as int, (2 * pow2(g)) as int);
    }
}

/// `m * 2^e` rounded to an integer, ties to the even one.
pub fn round_to_even_exec(m: u128, e: i32) -> (r: u128)
    requires
        m < 0x1000_0000_0000_0000,
        -3000 <= e <= 49,
    ensures
        r == round_to_even((m as nat, e as int)),
{
    if e >= 0 {
        let f = power_of_two(e as u32);
        proof {
            lemma2_to64();
            lemma_pow2_strictly_increases(e as nat, 50);
            lemma_pow2_adds(50, 60);
            lemma2_to64_rest();
            assert(m * f <= 0x1000_0000_0000_0000 * pow2(50)) by (nonlinear_arith)
                requires
                    m < 0x1000_0000_0000_0000,
                    f < pow2(50),
            ;
        }
        m * f
    } else if e >= -120 {
        let f = power_of_two((-e) as u32);
        proof {
            lemma_pow2_pos((-e) as nat);
        }
        round_half_even_exec(m, f)
    } else {
        proof {
            lemma_small_rounds_to_zero(m as nat, (-e) as nat);
        }
        0
    }
}

/// `m * 2^e` rounded to an integer, halves up.
pub fn round_half_up_exec(m: u128, e: i32) -> (r: u128)
    requires
        m < 0x1000_0000_0000_0000,
        -3000 <= e <= 49,
    ensures
        r == round_half_up((m as nat, e as int)),
{
    if e >= 0 {
        let f = power_of_two(e as u32);
        proof {
            lemma2_to64();
            lemma_pow2_strictly_increases(e as nat, 50);
            lemma_pow2_adds(50, 60);
            lemma2_to64_rest();
            assert(m * f <= 0x1000_0000_0000_0000 * pow2(50)) by (nonlinear_arith)
                requires
                    m < 0x1000_0000_0000_0000,
                    f < pow2(50),
            ;
        }
        m * f
    } else if e >= -120 {
        let f = power_of_two((-e) as u32);
        proof {
            lemma2_to64();
            lemma_pow2_pos((-e) as nat);
            lemma_pow2_strictly_increases((-e) as nat, 121);
            lemma_pow2_adds(64, 57);
            lemma2_to64_rest();
        }
        (2 * m + f) / (2 * f)
    } else {
        proof {
            lemma_small_rounds_to_zero(m as nat, (-e) as nat);
        }
        0
    }
}

/// The double quotient of two doubles.
pub fn quotient_exec(xm: u128, xe: i32, ym: u128, ye: i32) -> (r: (u128, i32))
    requires
        0 < xm < pow2(53),
        0 < ym < pow2(53),
        -1100 <= xe <= 1100,
        -1100 <= ye <= 1100,
    ensures
        (r.0 as nat, r.1 as int) == quotient((xm as nat, xe as int), (ym as nat, ye as int)),
        pow2(52) <= r.0 < pow2(53),
        -2400 <= r.1 <= 2400,
{
    proof {
        lemma_pow2_52_53();
    }
    let (qm, qe) = nearest_double(xm, ym);
    (qm, qe + xe - ye)
}

/// The double product of a double and a small integer.
pub fn times_exec(xm: u128, xe: i32, k: u128) -> (r: (u128, i32))
    requires
        pow2(52) <= xm < pow2(53),
        0 < k <= 1000,
        -3000 <= xe <= 3000,
    ensures
        (r.0 as nat, r.1 as int) == times((xm as nat, xe as int), k as nat),
        pow2(52) <= r.0 < pow2(53),
        r.1 <= xe + 49,
        r.1 >= xe - 113,
{
    proof {
        lemma_pow2_52_53();
        assert(k * xm <= 1000 * 0x20_0000_0000_0000) by (nonlinear_arith)
            requires
                k <= 1000,
                xm < 0x20_0000_0000_0000,
        ;
        assert(k * xm > 0) by (nonlinear_arith)
            requires
                k > 0,
                xm > 0,
        ;
    }
    let (pm, pe) = nearest_double(k * xm, 1);
    (pm, pe + xe)
}

/// `n as f64` for an integer `n`: `n` itself below `2^53`, else the nearest double.
pub open spec fn int_as_double(n: nat) -> nat {
    if n < pow2(53) {
        n
    } else {
        nearest(n, 1).0 * pow2(nearest(n, 1).1 as nat)
    }
}

/// `n as f64`, an integer.
pub fn int_as_double_exec(n: u64) -> (r: u128)
    ensures
        r == int_as_double(n as nat),
        r <= 0x4_0000_0000_0000_0000,
        0 < n ==> 0 < r,
{
    proof {
        lemma_pow2_52_53();
    }
    if n < 0x20_0000_0000_0000 {
        n as u128
    } else {
        let (m, e) = nearest_double(n as u128, 1);
        proof {
            lemma_binary_exponent(n as nat, 1);
            let x = binary_exponent(n as nat, 1);
            lemma2_to64();
            if x + 1 <= 53 {
                if x + 1 < 53 {
                    lemma_pow2_strictly_increases((x + 1) as nat, 53);
                }
            }
            if x >= 64 {
                if x > 64 {
                    lemma_pow2_strictly_increases(64, x as nat);
                }
            }
            assert(53 <= x <= 63);
        }
        let f = power_of_two(e as u32);
        proof {
            lemma_pow2_strictly_increases(e as nat, 13);
            lemma2_to64();
            assert(m * f <= 0x20_0000_0000_0000 * 0x2000) by (nonlinear_arith)
                requires
                    m < 0x20_0000_0000_0000,
                    f < 0x2000,
            ;
            lemma_pow2_pos(e as nat);
            assert(m * f > 0) by (nonlinear_arith)
                requires
                    m > 0,
                    f > 0,
            ;
        }
        m * f
    }
}

/// The hundredths that `{:.2}` prints for the double nearest to `a / 100`: that
/// double's exact value rounded to hundredths, ties to the even one.
pub open spec fn hundredths(a: nat) -> nat {
    if a == 0 {
        0
    } else {
        let d = nearest(a, 100);
        round_to_even((100 * d.0, d.1))
    }
}

/// The hundredths `{:.2}` prints for the double nearest to `a / 100`.
pub fn hundredths_exec(a: u128) -> (h: u128)
    requires
        a <= 0x10_0000_0000_0000_0000_0000_0000,
    ensures
        h == hundredths(a as nat),
{
    if a == 0 {
        return 0;
    }
    let (m, e) = nearest_double(a, 100);
    proof {
        lemma_pow2_52_53();
    }
    round_to_even_exec(100 * m, e)
}

} // verus!

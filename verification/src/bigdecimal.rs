//! Decimal digits of numbers beyond 128 bits: a positive integer times a power of
//! two, written out in full (what `{:.2}` prints of a large double).
use vstd::prelude::*;
use vstd::arithmetic::power2::{lemma_pow2_unfold, pow2};
use crate::text::{decimal, digit, digit_char, push_char};

verus! {

/// The value of decimal digits, least significant first.
pub open spec fn digits_value(ds: Seq<u8>) -> nat
    decreases ds.len(),
{
    if ds.len() == 0 {
        0
    } else {
        ds[0] as nat + 10 * digits_value(ds.drop_first())
    }
}

/// The digits written out, most significant first.
pub open spec fn digits_text(ds: Seq<u8>) -> Seq<char>
    decreases ds.len(),
{
    if ds.len() == 0 {
        Seq::empty()
    } else {
        digits_text(ds.drop_first()).push(digit_char(ds[0] as nat))
    }
}

/// Decimal digits of a positive number: each below ten, the most significant not zero.
pub open spec fn well_formed(ds: Seq<u8>) -> bool {
    &&& ds.len() >= 1
    &&& forall|i: int| 0 <= i < ds.len() ==> #[trigger] ds[i] < 10
    &&& ds.last() != 0
}

/// `10^k`.
pub open spec fn pow10(k: nat) -> nat
    decreases k,
{
    if k == 0 {
        1
    } else {
        10 * pow10((k - 1) as nat)
    }
}

proof fn lemma_value_push(ds: Seq<u8>, d: u8)
    ensures
        digits_value(ds.push(d)) == digits_value(ds) + d * pow10(ds.len()),
    decreases ds.len(),
{
    if ds.len() == 0 {
        assert(ds.push(d).drop_first() =~= Seq::<u8>::empty());
        assert(digits_value(Seq::<u8>::empty()) == 0);
        assert(pow10(0) == 1);
        assert(digits_value(ds.push(d)) == d + 10 * digits_value(ds.push(d).drop_first()));
    } else {
        lemma_value_push(ds.drop_first(), d);
        assert(ds.push(d).drop_first() =~= ds.drop_first().push(d));
        assert(ds.push(d)[0] == ds[0]);
        assert(digits_value(ds.push(d)) == ds[0] + 10 * digits_value(ds.drop_first().push(d)));
        assert(10 * (d * pow10((ds.len() - 1) as nat)) == d * pow10(ds.len())) by (nonlinear_arith)
            requires
                pow10(ds.len()) == 10 * pow10((ds.len() - 1) as nat),
        ;
    }
}

proof fn lemma_value_positive(ds: Seq<u8>)
    requires
        well_formed(ds),
    ensures
        digits_value(ds) >= 1,
    decreases ds.len(),
{
    if ds.len() > 1 {
        let rest = ds.drop_first();
        assert(rest.last() == ds.last());
        assert forall|i: int| 0 <= i < rest.len() implies #[trigger] rest[i] < 10 by {
            assert(rest[i] == ds[i + 1]);
        }
        lemma_value_positive(rest);
    }
}

/// Well-formed digits read as the decimal representation of their value.
proof fn lemma_text_is_decimal(ds: Seq<u8>)
    requires
        well_formed(ds),
    ensures
        digits_text(ds) == decimal(digits_value(ds)),
    decreases ds.len(),
{
    if ds.len() == 1 {
        assert(ds.drop_first() =~= Seq::<u8>::empty());
        assert(digits_text(ds.drop_first()) == Seq::<char>::empty());
        assert(digits_value(ds.drop_first()) == 0);
        assert(digits_value(ds) == ds[0]);
        assert(ds[0] == ds.last());
        assert(digits_text(ds) =~= seq![digit_char(ds[0] as nat)]);
    } else {
        let rest = ds.drop_first();
        assert(rest.last() == ds.last());
        assert forall|i: int| 0 <= i < rest.len() implies #[trigger] rest[i] < 10 by {
            assert(rest[i] == ds[i + 1]);
        }
        lemma_text_is_decimal(rest);
        lemma_value_positive(rest);
        assert(ds[0] < 10);
        let n = digits_value(ds);
        assert(n / 10 == digits_value(rest) && n % 10 == ds[0]) by (nonlinear_arith)
            requires
                n == ds[0] + 10 * digits_value(rest),
                ds[0] < 10,
        ;
        assert(n >= 10);
        assert(decimal(n) == decimal(n / 10).push(digit_char(n % 10)));
    }
}

/// The digits of a positive `n`.
fn digits_of(n: u64) -> (ds: Vec<u8>)
    requires
        n > 0,
    ensures
        well_formed(ds@),
        digits_value(ds@) == n,
{
    let mut ds: Vec<u8> = Vec::new();
    let mut rest: u64 = n;
    assert(pow10(0) == 1);
    assert(digits_value(ds@) == 0);
    while rest > 0
        invariant
            digits_value(ds@) + pow10(ds@.len()) * rest == n,
            forall|i: int| 0 <= i < ds@.len() ==> #[trigger] ds@[i] < 10,
            ds@.len() == 0 ==> rest == n,
            rest == 0 ==> ds@.len() >= 1 && ds@.last() != 0,
            n > 0,
        decreases rest,
    {
        let d = (rest % 10) as u8;
        proof {
            lemma_value_push(ds@, d);
            assert(pow10(ds@.len()) * rest == d * pow10(ds@.len()) + pow10(ds@.len() + 1) * (rest / 10))
                by (nonlinear_arith)
                requires
                    pow10(ds@.len() + 1) == 10 * pow10(ds@.len()),
                    d == rest % 10,
            ;
        }
        ds.push(d);
        rest = rest / 10;
    }
    ds
}

/// Doubles the number that the digits hold.
fn double_digits(ds: &mut Vec<u8>)
    requires
        well_formed(old(ds)@),
    ensures
        well_formed(final(ds)@),
        digits_value(final(ds)@) == 2 * digits_value(old(ds)@),
{
    let ghost orig = ds@;
    let n = ds.len();
    let mut carry: u8 = 0;
    let mut i: usize = 0;
    assert(orig.take(0) =~= Seq::<u8>::empty());
    assert(ds@.take(0) =~= Seq::<u8>::empty());
    while i < n
        invariant
            n == orig.len() == ds@.len(),
            well_formed(orig),
            0 <= i <= n,
            carry <= 1,
            digits_value(ds@.take(i as int)) + carry * pow10(i as nat) == 2 * digits_value(orig.take(i as int)),
            ds@.skip(i as int) == orig.skip(i as int),
            forall|k: int| 0 <= k < i ==> #[trigger] ds@[k] < 10,
            i == n && carry == 0 ==> ds@[n - 1] != 0,
        decreases n - i,
    {
        let o = ds[i];
        assert(o == orig[i as int]) by {
            assert(ds@.skip(i as int)[0] == orig.skip(i as int)[0]);
        }
        let t: u8 = 2 * o + carry;
        let d: u8 = t % 10;
        let c: u8 = t / 10;
        proof {
            lemma_value_push(ds@.take(i as int), d);
            lemma_value_push(orig.take(i as int), o);
            assert(orig.take(i as int).push(o) =~= orig.take(i + 1));
            assert(d * pow10(i as nat) + c * pow10((i + 1) as nat) == (2 * o + carry) * pow10(i as nat))
                by (nonlinear_arith)
                requires
                    pow10((i + 1) as nat) == 10 * pow10(i as nat),
                    t == 2 * o + carry,
                    d == t % 10,
                    c == t / 10,
            ;
            assert((2 * o + carry) * pow10(i as nat) == 2 * (o * pow10(i as nat)) + carry * pow10(i as nat))
                by (nonlinear_arith);
        }
        let ghost pre = ds@;
        ds.set(i, d);
        proof {
            assert(ds@ == pre.update(i as int, d));
            assert(pre.skip(i + 1) =~= pre.skip(i as int).drop_first());
            assert(orig.skip(i + 1) =~= orig.skip(i as int).drop_first());
            assert(ds@.skip(i + 1) =~= pre.skip(i + 1));
            assert(ds@.skip(i + 1) =~= orig.skip(i + 1));
            assert(ds@.take(i + 1) =~= pre.take(i as int).push(d));
            if i + 1 == n && c == 0 {
                assert(orig.last() == o);
            }
        }
        carry = c;
        i = i + 1;
    }
    assert(ds@.take(n as int) =~= ds@);
    assert(orig.take(n as int) =~= orig);
    if carry > 0 {
        proof {
            lemma_value_push(ds@, carry);
        }
        ds.push(carry);
    }
}

/// Appends the decimal representation of `m * 2^e`.
pub fn push_scaled_decimal(out: &mut String, m: u64, e: u32)
    requires
        m > 0,
    ensures
        final(out)@ == old(out)@ + decimal(m as nat * pow2(e as nat)),
{
    let mut ds = digits_of(m);
    let mut k: u32 = 0;
    assert(pow2(0) == 1) by {
        vstd::arithmetic::power2::lemma2_to64();
    }
    while k < e
        invariant
            k <= e,
            well_formed(ds@),
            digits_value(ds@) == m * pow2(k as nat),
        decreases e - k,
    {
        double_digits(&mut ds);
        proof {
            lemma_pow2_unfold((k + 1) as nat);
            assert(2 * (m * pow2(k as nat)) == m * pow2((k + 1) as nat)) by (nonlinear_arith)
                requires
                    pow2((k + 1) as nat) == 2 * pow2(k as nat),
            ;
        }
        k = k + 1;
    }
    let ghost before = out@;
    let mut i: usize = ds.len();
    assert(ds@.skip(ds@.len() as int) =~= Seq::<u8>::empty());
    while i > 0
        invariant
            0 <= i <= ds@.len(),
            well_formed(ds@),
            out@ == before + digits_text(ds@.skip(i as int)),
        decreases i,
    {
        proof {
            assert(ds@.skip(i - 1).drop_first() =~= ds@.skip(i as int));
            assert(ds@.skip(i - 1)[0] == ds@[i - 1]);
        }
        push_char(out, digit(ds[i - 1] as u64));
        i = i - 1;
    }
    proof {
        assert(ds@.skip(0) =~= ds@);
        lemma_text_is_decimal(ds@);
    }
}

} // verus!

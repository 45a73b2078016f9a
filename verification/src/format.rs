use vstd::prelude::*;
use crate::amount::{dollars, dollars_spec, less, order_key, Dollars};
use crate::model::ModelStat;
use crate::binary64::{
    int_as_double, int_as_double_exec, lemma_pow2_52_53, nearest, nearest_double, round_to_even,
    round_to_even_exec,
};
use crate::text::{decimal, decimal_string, digit, digit_char, push_char, push_decimal, push_decimal_wide};

verus! {

/// The tenths of `n / unit` that `{:.1}` prints for the double quotient of
/// `n as f64` and `unit`: the quotient is the double nearest to the exact one, and
/// its exact value is rounded to tenths, ties to the even tenth. Where the exact
/// quotient ends in a five that is no binary fraction (`1150 / 1000`), the tenth
/// is the one on the side where the double lies.
pub open spec fn float_tenths(n: nat, unit: nat) -> nat {
    let q = nearest(int_as_double(n), unit);
    round_to_even((10 * q.0, q.1))
}

/// `n / unit` written with one decimal place, as `{:.1}` prints the double quotient.
pub open spec fn one_decimal(n: nat, unit: nat) -> Seq<char> {
    let t = float_tenths(n, unit);
    decimal(t / 10) + seq!['.', digit_char(t % 10)]
}

/// The short form of a count: `1.2K`, `3.4M`, `5.6B`, or the plain number below 1000.
/// The tenth is that of the double quotient (`float_tenths`): `1150` reads `1.1K`
/// because the double nearest to 1.15 lies below it, `1250` reads `1.2K` (a tie
/// between tenths goes to the even one).
pub open spec fn compact_spec(n: nat) -> Seq<char> {
    if n >= 1_000_000_000 {
        one_decimal(n, 1_000_000_000) + seq!['B']
    } else if n >= 1_000_000 {
        one_decimal(n, 1_000_000) + seq!['M']
    } else if n >= 1_000 {
        one_decimal(n, 1_000) + seq!['K']
    } else {
        decimal(n)
    }
}

/// The three digits of `m < 1000`, with leading zeros.
pub open spec fn three_digits(m: nat) -> Seq<char> {
    seq![digit_char(m / 100), digit_char((m / 10) % 10), digit_char(m % 10)]
}

/// `n` in decimal with a comma between each group of three digits.
pub open spec fn comma_spec(n: nat) -> Seq<char>
    decreases n,
{
    if n < 1000 {
        decimal(n)
    } else {
        comma_spec(n / 1000) + seq![','] + three_digits(n % 1000)
    }
}

/// The cost as the service formatted it, else the amount as dollars.
pub open spec fn display_cost_spec(cost: u64, formatted: Option<String>) -> Seq<char> {
    match formatted {
        Some(s) => s@,
        None => dollars_spec(cost),
    }
}

/// The order key of a row's cost.
pub open spec fn cost_key(m: ModelStat) -> int {
    order_key(m.cost@)
}

/// The short form of a count (`1.2K`, `1.2M`, `1.2B`, or the number itself below 1000).
pub fn compact_number(value: u64) -> (s: String)
    ensures
        s@ == compact_spec(value as nat),
{
    if value >= 1_000_000_000 {
        let mut s = one_decimal_string(value, 1_000_000_000);
        push_char(&mut s, 'B');
        s
    } else if value >= 1_000_000 {
        let mut s = one_decimal_string(value, 1_000_000);
        push_char(&mut s, 'M');
        s
    } else if value >= 1_000 {
        let mut s = one_decimal_string(value, 1_000);
        push_char(&mut s, 'K');
        s
    } else {
        decimal_string(value)
    }
}

fn one_decimal_string(value: u64, unit: u64) -> (s: String)
    requires
        1 <= unit <= 1_000_000_000,
        value >= 1,
    ensures
        s@ == one_decimal(value as nat, unit as nat),
{
    let m = int_as_double_exec(value);
    let (qm, qe) = nearest_double(m, unit as u128);
    proof {
        lemma_pow2_52_53();
    }
    let t = round_to_even_exec(10 * qm, qe);
    let mut s = String::new();
    push_decimal_wide(&mut s, t / 10);
    push_char(&mut s, '.');
    push_char(&mut s, digit((t % 10) as u64));
    s
}

fn push_three_digits(out: &mut String, m: u64)
    requires
        m < 1000,
    ensures
        final(out)@ == old(out)@ + three_digits(m as nat),
{
    push_char(out, digit(m / 100));
    push_char(out, digit((m / 10) % 10));
    push_char(out, digit(m % 10));
}

fn push_comma(out: &mut String, n: u64)
    ensures
        final(out)@ == old(out)@ + comma_spec(n as nat),
    decreases n,
{
    if n < 1000 {
        push_decimal(out, n);
    } else {
        push_comma(out, n / 1000);
        push_char(out, ',');
        push_three_digits(out, n % 1000);
    }
}

/// `value` in decimal with thousands separated by commas (`1,234,567`).
pub fn comma(value: u64) -> (s: String)
    ensures
        s@ == comma_spec(value as nat),
{
    let mut s = String::new();
    push_comma(&mut s, value);
    s
}

/// The service's own rendering of a cost where it sent one, else the amount as dollars.
pub fn display_cost(cost: Dollars, formatted: &Option<String>) -> (s: String)
    ensures
        s@ == display_cost_spec(cost@, *formatted),
{
    match formatted {
        Some(f) => f.clone(),
        None => dollars(cost),
    }
}

/// Inserts `x` into `s` after every element whose cost is at least that of `x`.
pub open spec fn insert_by_cost(s: Seq<ModelStat>, x: ModelStat) -> Seq<ModelStat>
    decreases s.len(),
{
    if s.len() == 0 {
        seq![x]
    } else if cost_key(s[0]) < cost_key(x) {
        seq![x] + s
    } else {
        seq![s[0]] + insert_by_cost(s.drop_first(), x)
    }
}

/// The rows ordered by cost, highest first; rows of equal cost keep their order.
pub open spec fn sort_by_cost(s: Seq<ModelStat>) -> Seq<ModelStat>
    decreases s.len(),
{
    if s.len() == 0 {
        Seq::empty()
    } else {
        insert_by_cost(sort_by_cost(s.drop_last()), s.last())
    }
}

/// Whether the rows are ordered by cost, highest first.
pub open spec fn cost_descending(s: Seq<ModelStat>) -> bool {
    forall|i: int, j: int| 0 <= i <= j < s.len() ==> cost_key(s[i]) >= cost_key(s[j])
}

proof fn lemma_insert_by_cost_split(s: Seq<ModelStat>, x: ModelStat, i: int)
    requires
        0 <= i <= s.len(),
        forall|k: int| 0 <= k < i ==> cost_key(s[k]) >= cost_key(x),
    ensures
        insert_by_cost(s, x) == s.take(i) + insert_by_cost(s.skip(i), x),
    decreases i,
{
    if i > 0 {
        lemma_insert_by_cost_split(s.drop_first(), x, i - 1);
        assert(s.drop_first().take(i - 1) == s.take(i).drop_first());
        assert(s.drop_first().skip(i - 1) == s.skip(i));
        assert(seq![s[0]] + s.take(i).drop_first() == s.take(i));
    } else {
        assert(s.take(0) == Seq::<ModelStat>::empty());
        assert(s.skip(0) == s);
    }
}

/// Where `insert_by_cost` puts `x`: after the rows that cost at least as much,
/// before the first that costs less.
proof fn lemma_insert_by_cost_position(s: Seq<ModelStat>, x: ModelStat) -> (i: int)
    ensures
        0 <= i <= s.len(),
        insert_by_cost(s, x) == s.insert(i, x),
        forall|k: int| 0 <= k < i ==> #[trigger] cost_key(s[k]) >= cost_key(x),
        i < s.len() ==> cost_key(s[i]) < cost_key(x),
    decreases s.len(),
{
    if s.len() == 0 {
        assert(seq![x] =~= s.insert(0, x));
        0
    } else if cost_key(s[0]) < cost_key(x) {
        assert(seq![x] + s =~= s.insert(0, x));
        0
    } else {
        let j = lemma_insert_by_cost_position(s.drop_first(), x);
        assert(seq![s[0]] + s.drop_first().insert(j, x) =~= s.insert(j + 1, x));
        assert forall|k: int| 0 <= k < j + 1 implies #[trigger] cost_key(s[k]) >= cost_key(x) by {
            if k > 0 {
                assert(s[k] == s.drop_first()[k - 1]);
            }
        }
        j + 1
    }
}

/// Sorting keeps every row, each as often as it came, and puts them in order of
/// cost, highest first.
pub proof fn law_sorted_models_is_ordered_permutation(rows: Seq<ModelStat>)
    ensures
        cost_descending(sort_by_cost(rows)),
        sort_by_cost(rows).to_multiset() == rows.to_multiset(),
    decreases rows.len(),
{
    broadcast use vstd::seq_lib::group_to_multiset_ensures;

    if rows.len() > 0 {
        let front = rows.drop_last();
        let x = rows.last();
        law_sorted_models_is_ordered_permutation(front);
        let s = sort_by_cost(front);
        let i = lemma_insert_by_cost_position(s, x);
        let r = s.insert(i, x);
        assert(front.push(x) =~= rows);
        assert(r.to_multiset() == s.to_multiset().insert(x));
        assert(rows.to_multiset() == front.to_multiset().insert(x));
        assert forall|a: int, b: int| 0 <= a <= b < r.len() implies #[trigger] cost_key(r[a])
            >= #[trigger] cost_key(r[b]) by {
            if a < i {
                if b < i {
                    assert(r[a] == s[a] && r[b] == s[b]);
                } else if b == i {
                    assert(r[a] == s[a]);
                } else {
                    assert(r[a] == s[a] && r[b] == s[b - 1]);
                }
            } else if a == i {
                if b > i {
                    assert(r[b] == s[b - 1]);
                    assert(cost_key(s[i]) >= cost_key(s[b - 1]));
                }
            } else {
                assert(r[a] == s[a - 1] && r[b] == s[b - 1]);
            }
        }
    }
}

fn insert_row(rows: &mut Vec<ModelStat>, x: ModelStat)
    ensures
        final(rows)@ == insert_by_cost(old(rows)@, x),
{
    let mut i: usize = 0;
    while i < rows.len() && !less(rows[i].cost, x.cost)
        invariant
            0 <= i <= rows.len(),
            forall|k: int| 0 <= k < i ==> cost_key(rows@[k]) >= cost_key(x),
        decreases rows.len() - i,
    {
        i = i + 1;
    }
    proof {
        lemma_insert_by_cost_split(rows@, x, i as int);
        if i < rows.len() {
            assert(rows@.skip(i as int)[0] == rows@[i as int]);
        } else {
            assert(rows@.skip(i as int).len() == 0);
        }
    }
    let ghost before = rows@;
    rows.insert(i, x);
    assert(rows@ == before.take(i as int) + insert_by_cost(before.skip(i as int), x));
}

/// The rows ordered by cost, highest first; rows of equal cost keep their order.
pub fn sorted_models(rows: &[ModelStat]) -> (r: Vec<ModelStat>)
    ensures
        r@ == sort_by_cost(rows@),
{
    let mut out: Vec<ModelStat> = Vec::new();
    let mut i: usize = 0;
    while i < rows.len()
        invariant
            0 <= i <= rows.len(),
            out@ == sort_by_cost(rows@.take(i as int)),
        decreases rows.len() - i,
    {
        let row = rows[i].duplicate();
        insert_row(&mut out, row);
        assert(rows@.take(i + 1).drop_last() == rows@.take(i as int));
        i = i + 1;
    }
    assert(rows@.take(rows.len() as int) == rows@);
    out
}

} // verus!

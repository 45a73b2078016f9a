use std::collections::VecDeque;
use vstd::prelude::*;
use crate::amount::{trend_cents, trend_cents_exec, Dollars};
use crate::model::Snapshot;

verus! {

/// One refresh as the trend keeps it. `fetched_at` is in nanoseconds since an
/// origin that the caller chooses and keeps; `cost_cents` is never negative.
#[derive(Debug, Clone, Copy, PartialEq, Eq)]
pub struct TrendSample {
    pub fetched_at: u64,
    pub requests: u64,
    pub all_tokens: u64,
    pub cost_cents: u64,
}

/// The counter that a trend follows.
#[derive(Debug, Clone, Copy, PartialEq, Eq)]
pub enum Metric {
    Requests,
    Tokens,
    CostCents,
}

/// The value of `metric` in `sample`.
pub open spec fn metric_value(sample: TrendSample, metric: Metric) -> u64 {
    match metric {
        Metric::Requests => sample.requests,
        Metric::Tokens => sample.all_tokens,
        Metric::CostCents => sample.cost_cents,
    }
}

/// `a - b`, or zero where `b` is larger (a counter that was reset gives no growth).
pub open spec fn growth(a: u64, b: u64) -> u64 {
    if a >= b {
        (a - b) as u64
    } else {
        0
    }
}

/// The growth of `metric` from each sample to the next.
pub open spec fn deltas_spec(samples: Seq<TrendSample>, metric: Metric) -> Seq<u64> {
    Seq::new(
        if samples.len() == 0 { 0 } else { (samples.len() - 1) as nat },
        |i: int| growth(metric_value(samples[i + 1], metric), metric_value(samples[i], metric)),
    )
}

/// The sum of a sequence of counts.
pub open spec fn seq_sum(s: Seq<u64>) -> nat
    decreases s.len(),
{
    if s.len() == 0 {
        0
    } else {
        seq_sum(s.drop_last()) + s.last() as nat
    }
}

/// The growth of `metric` between the two most recent samples, if there are two.
pub open spec fn latest_delta_spec(samples: Seq<TrendSample>, metric: Metric) -> Option<u64> {
    if samples.len() < 2 {
        None
    } else {
        Some(
            growth(
                metric_value(samples.last(), metric),
                metric_value(samples[samples.len() - 2], metric),
            ),
        )
    }
}

/// The samples that a history of capacity `max` keeps of `s`: the last `max` of them.
pub open spec fn keep_last(s: Seq<TrendSample>, max: nat) -> Seq<TrendSample> {
    if s.len() > max {
        s.skip(s.len() - max)
    } else {
        s
    }
}

/// The samples that a history of capacity `cap` holds when `samples` were pushed
/// into it one after the other, starting empty.
pub open spec fn after_pushes(samples: Seq<TrendSample>, cap: nat) -> Seq<TrendSample>
    decreases samples.len(),
{
    if samples.len() == 0 {
        Seq::empty()
    } else {
        keep_last(after_pushes(samples.drop_last(), cap).push(samples.last()), cap)
    }
}

/// A history that starts empty holds, after any pushes, the last samples pushed,
/// in order: as many as were pushed while fewer than its capacity, and exactly its
/// capacity from then on.
pub proof fn law_pushes_keep_the_latest(samples: Seq<TrendSample>, cap: nat)
    requires
        cap >= 2,
    ensures
        after_pushes(samples, cap) == keep_last(samples, cap),
        after_pushes(samples, cap).len() == if samples.len() < cap { samples.len() } else { cap },
    decreases samples.len(),
{
    if samples.len() > 0 {
        let d = samples.drop_last();
        let x = samples.last();
        law_pushes_keep_the_latest(d, cap);
        assert(d.push(x) =~= samples);
        if d.len() >= cap {
            let k = d.skip(d.len() - cap);
            assert(k.push(x).skip(1) =~= samples.skip(samples.len() - cap));
        }
    }
}

/// The cents a sample records for a cost: a positive amount times 100 (as a
/// double), rounded halves up, at most `u64::MAX`; zero otherwise.
pub open spec fn cents_of(cost: Dollars) -> u64 {
    trend_cents(cost@)
}

/// The sample that a snapshot taken at `fetched_at` gives.
pub open spec fn sample_of(snapshot: Snapshot, fetched_at: u64) -> TrendSample {
    TrendSample {
        fetched_at,
        requests: snapshot.user.total.requests,
        all_tokens: snapshot.user.total.all_tokens,
        cost_cents: cents_of(snapshot.user.total.cost),
    }
}

/// `s` split into consecutive chunks of `c` values (the last may be shorter), each
/// replaced by its sum.
pub open spec fn chunk_sums(s: Seq<u64>, c: nat) -> Seq<u64>
    decreases s.len(),
{
    if s.len() == 0 || c == 0 {
        Seq::empty()
    } else if s.len() <= c {
        seq![seq_sum(s) as u64]
    } else {
        seq![seq_sum(s.take(c as int)) as u64] + chunk_sums(s.skip(c as int), c)
    }
}

/// `ceil(n / d)` for `d > 0`.
pub open spec fn ceil_div(n: nat, d: nat) -> nat {
    if n % d == 0 {
        n / d
    } else {
        n / d + 1
    }
}

/// Values squeezed into at most `max_bars` bars: unchanged where they fit, else
/// summed in chunks of `ceil(len / max_bars)`.
pub open spec fn bucket_values_spec(values: Seq<u64>, max_bars: nat) -> Seq<u64> {
    if max_bars == 0 || values.len() == 0 {
        Seq::empty()
    } else if values.len() <= max_bars {
        values
    } else {
        chunk_sums(values, ceil_div(values.len(), max_bars))
    }
}

/// How many whole buckets of `bucket` nanoseconds have passed from the oldest
/// sample to the latest one.
pub open spec fn complete_buckets(samples: Seq<TrendSample>, bucket: nat) -> nat {
    growth(samples.last().fetched_at, samples[0].fetched_at) as nat / bucket
}

/// The first complete bucket that is shown: the last `max_bars` complete buckets are.
pub open spec fn first_shown(samples: Seq<TrendSample>, max_bars: nat, bucket: nat) -> nat {
    let done = complete_buckets(samples, bucket);
    if done > max_bars {
        (done - max_bars) as nat
    } else {
        0
    }
}

/// How many bars are shown: the complete buckets, at most `max_bars` of them.
pub open spec fn shown_bars(samples: Seq<TrendSample>, max_bars: nat, bucket: nat) -> nat {
    (complete_buckets(samples, bucket) - first_shown(samples, max_bars, bucket)) as nat
}

/// The bar in which the growth up to sample `i` is shown, if it is shown. Buckets
/// are fixed: bucket `k` holds the samples taken `k` whole buckets after the oldest
/// sample; only complete buckets (ended by the latest sample) are shown, the last
/// `max_bars` of them, oldest first.
pub open spec fn bar_of(samples: Seq<TrendSample>, i: int, max_bars: nat, bucket: nat) -> Option<nat> {
    let k = growth(samples[i].fetched_at, samples[0].fetched_at) as nat / bucket;
    let start = first_shown(samples, max_bars, bucket);
    if start <= k && k < complete_buckets(samples, bucket) {
        Some((k - start) as nat)
    } else {
        None
    }
}

/// The growth of `metric` that the first `n` samples put into bar `bar`: the growth
/// up to each sample `i` in `1..n` counts towards the bar in which sample `i` falls.
pub open spec fn bar_total(
    samples: Seq<TrendSample>,
    metric: Metric,
    max_bars: nat,
    bucket: nat,
    bar: nat,
    n: int,
) -> nat
    decreases n,
{
    if n <= 1 {
        0
    } else {
        bar_total(samples, metric, max_bars, bucket, bar, n - 1) + (if bar_of(samples, n - 1, max_bars, bucket)
            == Some(bar) {
            growth(metric_value(samples[n - 1], metric), metric_value(samples[n - 2], metric)) as nat
        } else {
            0
        })
    }
}

/// The totals of the shown bars of `metric`, oldest bar first.
pub open spec fn raw_bars(samples: Seq<TrendSample>, metric: Metric, max_bars: nat, bucket: nat) -> Seq<u64> {
    Seq::new(
        shown_bars(samples, max_bars, bucket),
        |bar: int| bar_total(samples, metric, max_bars, bucket, bar as nat, samples.len() as int) as u64,
    )
}

/// `s` without its leading zeros.
pub open spec fn drop_leading_zeros(s: Seq<u64>) -> Seq<u64>
    decreases s.len(),
{
    if s.len() > 0 && s[0] == 0 {
        drop_leading_zeros(s.drop_first())
    } else {
        s
    }
}

/// `s` without its trailing zeros.
pub open spec fn drop_trailing_zeros(s: Seq<u64>) -> Seq<u64>
    decreases s.len(),
{
    if s.len() > 0 && s.last() == 0 {
        drop_trailing_zeros(s.drop_last())
    } else {
        s
    }
}

/// The bars from the first to the last that is not idle; `[0]` where all are idle.
pub open spec fn trim_idle(s: Seq<u64>) -> Seq<u64> {
    let t = drop_trailing_zeros(drop_leading_zeros(s));
    if t.len() == 0 {
        seq![0]
    } else {
        t
    }
}

/// Whether the growth of every shown bucket fits in a `u64` (where it does not,
/// adding it up overflows).
pub open spec fn bars_fit(samples: Seq<TrendSample>, metric: Metric, max_bars: nat, bucket: nat) -> bool {
    max_bars == 0 || bucket == 0 || samples.len() < 2 || forall|b: nat|
        b < shown_bars(samples, max_bars, bucket) ==> #[trigger] bar_total(
            samples,
            metric,
            max_bars,
            bucket,
            b,
            samples.len() as int,
        ) <= u64::MAX
}

proof fn lemma_bar_total_grows(
    samples: Seq<TrendSample>,
    metric: Metric,
    max_bars: nat,
    bucket: nat,
    bar: nat,
    i: int,
    j: int,
)
    requires
        i <= j,
    ensures
        bar_total(samples, metric, max_bars, bucket, bar, i) <= bar_total(samples, metric, max_bars, bucket, bar, j),
    decreases j - i,
{
    if i < j {
        lemma_bar_total_grows(samples, metric, max_bars, bucket, bar, i, j - 1);
    }
}

/// The bars of the live trend: growth per complete time bucket (at most
/// `max_bars` of the latest), idle bars before the first and after the last
/// growth dropped.
pub open spec fn time_buckets_spec(samples: Seq<TrendSample>, metric: Metric, max_bars: nat, bucket: nat) -> Seq<u64> {
    if max_bars == 0 || bucket == 0 || samples.len() < 2 {
        Seq::empty()
    } else {
        trim_idle(raw_bars(samples, metric, max_bars, bucket))
    }
}

/// The sum of a concatenation is the sum of the sums.
pub proof fn lemma_seq_sum_concat(a: Seq<u64>, b: Seq<u64>)
    ensures
        seq_sum(a + b) == seq_sum(a) + seq_sum(b),
    decreases b.len(),
{
    if b.len() == 0 {
        assert(a + b =~= a);
    } else {
        lemma_seq_sum_concat(a, b.drop_last());
        assert((a + b).drop_last() =~= a + b.drop_last());
    }
}

/// A stretch of a sequence sums to no more than the whole.
pub proof fn lemma_seq_sum_subrange(s: Seq<u64>, i: int, j: int)
    requires
        0 <= i <= j <= s.len(),
    ensures
        seq_sum(s.subrange(i, j)) <= seq_sum(s),
{
    lemma_seq_sum_concat(s.take(i), s.subrange(i, j));
    lemma_seq_sum_concat(s.take(i) + s.subrange(i, j), s.skip(j));
    assert(s.take(i) + s.subrange(i, j) + s.skip(j) =~= s);
}

proof fn lemma_seq_sum_take_step(s: Seq<u64>, i: int)
    requires
        0 <= i < s.len(),
    ensures
        seq_sum(s.take(i + 1)) == seq_sum(s.take(i)) + s[i],
{
    assert(s.take(i + 1).drop_last() =~= s.take(i));
}

proof fn lemma_bar_total_bound(samples: Seq<TrendSample>, metric: Metric, max_bars: nat, bucket: nat, bar: nat, n: int)
    requires
        1 <= n <= samples.len(),
    ensures
        bar_total(samples, metric, max_bars, bucket, bar, n) <= seq_sum(deltas_spec(samples, metric).take(n - 1)),
    decreases n,
{
    let d = deltas_spec(samples, metric);
    if n > 1 {
        lemma_bar_total_bound(samples, metric, max_bars, bucket, bar, n - 1);
        lemma_seq_sum_take_step(d, n - 2);
    } else {
        assert(d.take(0) =~= Seq::<u64>::empty());
    }
}

proof fn lemma_seq_sum_single(x: u64)
    ensures
        seq_sum(seq![x]) == x,
{
    assert(seq![x].drop_last() =~= Seq::<u64>::empty());
    assert(seq_sum(Seq::<u64>::empty()) == 0);
    assert(seq![x].last() == x);
}

proof fn lemma_chunk_sums_total(s: Seq<u64>, c: nat)
    requires
        c > 0,
        seq_sum(s) <= u64::MAX,
    ensures
        seq_sum(chunk_sums(s, c)) == seq_sum(s),
    decreases s.len(),
{
    if s.len() == 0 {
    } else if s.len() <= c {
        lemma_seq_sum_single(seq_sum(s) as u64);
    } else {
        let head = seq![seq_sum(s.take(c as int)) as u64];
        lemma_seq_sum_single(seq_sum(s.take(c as int)) as u64);
        lemma_seq_sum_subrange(s, 0, c as int);
        assert(s.subrange(0, c as int) =~= s.take(c as int));
        lemma_seq_sum_subrange(s, c as int, s.len() as int);
        assert(s.subrange(c as int, s.len() as int) =~= s.skip(c as int));
        lemma_chunk_sums_total(s.skip(c as int), c);
        lemma_seq_sum_concat(head, chunk_sums(s.skip(c as int), c));
        assert(head.drop_last() =~= Seq::<u64>::empty());
        lemma_seq_sum_concat(s.take(c as int), s.skip(c as int));
        assert(s.take(c as int) + s.skip(c as int) =~= s);
    }
}

proof fn lemma_chunk_sums_len(s: Seq<u64>, c: nat, k: nat)
    requires
        c > 0,
        s.len() <= k * c,
    ensures
        chunk_sums(s, c).len() <= k,
    decreases s.len(),
{
    if s.len() == 0 {
    } else if s.len() <= c {
        assert(k >= 1) by (nonlinear_arith)
            requires
                s.len() > 0,
                s.len() <= k * c,
        {
        }
    } else {
        assert(k >= 1 && s.skip(c as int).len() <= (k - 1) * c) by (nonlinear_arith)
            requires
                s.len() > c,
                s.len() <= k * c,
                s.skip(c as int).len() == s.len() - c,
        {
        }
        lemma_chunk_sums_len(s.skip(c as int), c, (k - 1) as nat);
    }
}

/// Squeezing values into bars loses nothing: the bars sum to the values' total
/// (the window growth), and there are never more bars than asked for.
pub proof fn law_bucket_values_keep_total(values: Seq<u64>, max_bars: nat)
    requires
        max_bars > 0,
        seq_sum(values) <= u64::MAX,
    ensures
        seq_sum(bucket_values_spec(values, max_bars)) == seq_sum(values),
        bucket_values_spec(values, max_bars).len() <= max_bars,
{
    if values.len() > max_bars {
        let n = values.len();
        let c = ceil_div(n, max_bars);
        assert(c > 0 && n <= max_bars * c) by (nonlinear_arith)
            requires
                c == (if n % max_bars == 0 { n / max_bars } else { n / max_bars + 1 }),
                max_bars > 0,
                n > max_bars,
        {
            vstd::arithmetic::div_mod::lemma_fundamental_div_mod(n as int, max_bars as int);
        }
        lemma_chunk_sums_total(values, c);
        lemma_chunk_sums_len(values, c, max_bars);
    }
}

/// The end of the chunk of `c` values that starts at `start`, cut at `n`.
pub open spec fn chunk_end(start: int, c: nat, n: nat) -> int {
    if start + c <= n {
        start + c
    } else {
        n as int
    }
}

proof fn lemma_chunk_sums_elements(s: Seq<u64>, c: nat)
    requires
        c > 0,
    ensures
        chunk_sums(s, c).len() == 0 <==> s.len() == 0,
        s.len() > 0 ==> (chunk_sums(s, c).len() - 1) * c < s.len() <= chunk_sums(s, c).len() * c,
        forall|i: int|
            0 <= i < chunk_sums(s, c).len() ==> #[trigger] chunk_sums(s, c)[i] == seq_sum(
                s.subrange(i * c, chunk_end(i * c, c, s.len())),
            ) as u64,
    decreases s.len(),
{
    let cs = chunk_sums(s, c);
    let n = s.len();
    if n == 0 {
    } else if n <= c {
        assert(s.subrange(0, n as int) =~= s);
        assert forall|i: int| 0 <= i < cs.len() implies #[trigger] cs[i] == seq_sum(
            s.subrange(i * c, chunk_end(i * c, c, n)),
        ) as u64 by {
            assert(i == 0);
            assert(i * c == 0) by (nonlinear_arith)
                requires
                    i == 0,
            {
            }
        }
    } else {
        let t = s.skip(c as int);
        let rest = chunk_sums(t, c);
        lemma_chunk_sums_elements(t, c);
        assert(cs =~= seq![seq_sum(s.take(c as int)) as u64] + rest);
        let k = rest.len();
        assert((cs.len() - 1) * c < n <= cs.len() * c) by (nonlinear_arith)
            requires
                cs.len() == k + 1,
                (k - 1) * c < n - c <= k * c,
        {
        }
        assert forall|i: int| 0 <= i < cs.len() implies #[trigger] cs[i] == seq_sum(
            s.subrange(i * c, chunk_end(i * c, c, n)),
        ) as u64 by {
            if i == 0 {
                assert(i * c == 0) by (nonlinear_arith)
                    requires
                        i == 0,
                {
                }
                assert(s.subrange(0, c as int) =~= s.take(c as int));
            } else {
                let j = i - 1;
                assert(cs[i] == rest[j]);
                assert(i * c == j * c + c) by (nonlinear_arith)
                    requires
                        j == i - 1,
                {
                }
                assert(rest[j] == seq_sum(t.subrange(j * c, chunk_end(j * c, c, t.len()))) as u64);
                assert(0 <= j * c <= (k - 1) * c) by (nonlinear_arith)
                    requires
                        0 <= j < k,
                {
                }
                assert(t.len() == n - c);
                assert(chunk_end(j * c, c, t.len()) + c == chunk_end(i * c, c, n));
                assert(t.subrange(j * c, chunk_end(j * c, c, t.len())) =~= s.subrange(
                    i * c,
                    chunk_end(i * c, c, n),
                ));
            }
        }
    }
}

/// Where more values come than `max_bars` bars can show, they are summed in
/// chunks of the least size `c` with `values.len() <= max_bars * c`: each bar but
/// the last is the sum of exactly `c` consecutive values, the last bar sums the
/// rest, and there are as many bars as it takes chunks of `c` to cover the values.
pub proof fn law_bucket_chunks_are_least_size(values: Seq<u64>, max_bars: nat, c: nat)
    requires
        max_bars > 0,
        values.len() > max_bars,
        values.len() <= max_bars * c,
        max_bars * (c - 1) < values.len(),
        seq_sum(values) <= u64::MAX,
    ensures
        c >= 2,
        (bucket_values_spec(values, max_bars).len() - 1) * c < values.len()
            <= bucket_values_spec(values, max_bars).len() * c,
        forall|i: int|
            0 <= i < bucket_values_spec(values, max_bars).len() - 1 ==> #[trigger] bucket_values_spec(
                values,
                max_bars,
            )[i] == seq_sum(values.subrange(i * c, i * c + c)),
        bucket_values_spec(values, max_bars).last() == seq_sum(
            values.subrange((bucket_values_spec(values, max_bars).len() - 1) * c, values.len() as int),
        ),
{
    let n = values.len();
    let q = n / max_bars;
    let r = n % max_bars;
    vstd::arithmetic::div_mod::lemma_fundamental_div_mod(n as int, max_bars as int);
    assert(ceil_div(n, max_bars) == c && c >= 2) by (nonlinear_arith)
        requires
            n == max_bars * q + r,
            0 <= r < max_bars,
            n > max_bars,
            n <= max_bars * c,
            max_bars * (c - 1) < n,
            ceil_div(n, max_bars) == (if r == 0 { q } else { q + 1 }),
    {
    }
    let bars = bucket_values_spec(values, max_bars);
    assert(bars == chunk_sums(values, c));
    lemma_chunk_sums_elements(values, c);
    let k = bars.len();
    assert forall|i: int| 0 <= i < k - 1 implies #[trigger] bars[i] == seq_sum(
        values.subrange(i * c, i * c + c),
    ) by {
        assert(i * c + c <= (k - 1) * c) by (nonlinear_arith)
            requires
                0 <= i < k - 1,
        {
        }
        assert(chunk_end(i * c, c, n) == i * c + c);
        assert(i * c >= 0) by (nonlinear_arith)
            requires
                i >= 0,
        {
        }
        lemma_seq_sum_subrange(values, i * c, i * c + c);
    }
    assert(bars.last() == bars[k - 1]);
    assert((k - 1) * c + c == k * c) by (nonlinear_arith);
    assert(chunk_end((k - 1) * c, c, n) == n);
    assert((k - 1) * c >= 0) by (nonlinear_arith)
        requires
            k >= 1,
    {
    }
    lemma_seq_sum_subrange(values, (k - 1) * c, n as int);
}

/// The growth over the window is the sum of the per-refresh deltas, and for a
/// counter that never went back it is the latest value minus the oldest one.
pub proof fn law_monotone_window_telescopes(samples: Seq<TrendSample>, metric: Metric)
    requires
        samples.len() >= 1,
        forall|i: int, j: int|
            0 <= i <= j < samples.len() ==> metric_value(samples[i], metric) <= metric_value(samples[j], metric),
    ensures
        seq_sum(deltas_spec(samples, metric)) == metric_value(samples.last(), metric) - metric_value(samples[0], metric),
    decreases samples.len(),
{
    let d = deltas_spec(samples, metric);
    if samples.len() > 1 {
        let shorter = samples.drop_last();
        law_monotone_window_telescopes(shorter, metric);
        assert(deltas_spec(shorter, metric) =~= d.drop_last());
    } else {
        assert(d.len() == 0);
    }
}

/// The latest delta is the last of the per-refresh deltas.
pub proof fn law_latest_delta_is_last(samples: Seq<TrendSample>, metric: Metric)
    ensures
        latest_delta_spec(samples, metric) == (if samples.len() < 2 {
            None
        } else {
            Some(deltas_spec(samples, metric).last())
        }),
{
}

/// After a push the newest sample is last, the samples before it are the most
/// recent ones held before, in order, and at most `capacity` are kept.
pub proof fn law_push_keeps_newest(old_samples: Seq<TrendSample>, sample: TrendSample, capacity: nat)
    requires
        capacity >= 2,
        old_samples.len() <= capacity,
    ensures
        keep_last(old_samples.push(sample), capacity).last() == sample,
        keep_last(old_samples.push(sample), capacity).len() == if old_samples.len() < capacity {
            old_samples.len() + 1
        } else {
            capacity
        },
        keep_last(old_samples.push(sample), capacity).drop_last() == keep_last(old_samples, (capacity - 1) as nat),
{
    let pushed = old_samples.push(sample);
    if pushed.len() > capacity {
        assert(pushed.skip(pushed.len() - capacity).drop_last() =~= old_samples.skip(old_samples.len() - (capacity - 1)));
    } else {
        assert(pushed.drop_last() =~= old_samples);
    }
}

proof fn lemma_seq_sum_update(s: Seq<u64>, k: int, v: u64)
    requires
        0 <= k < s.len(),
    ensures
        seq_sum(s.update(k, v)) + s[k] == seq_sum(s) + v,
{
    let t = s.update(k, v);
    assert(s =~= s.take(k) + seq![s[k]] + s.skip(k + 1));
    assert(t =~= s.take(k) + seq![v] + s.skip(k + 1));
    lemma_seq_sum_concat(s.take(k) + seq![s[k]], s.skip(k + 1));
    lemma_seq_sum_concat(s.take(k), seq![s[k]]);
    lemma_seq_sum_concat(s.take(k) + seq![v], s.skip(k + 1));
    lemma_seq_sum_concat(s.take(k), seq![v]);
    assert(seq![s[k]].drop_last() =~= Seq::<u64>::empty());
    assert(seq![v].drop_last() =~= Seq::<u64>::empty());
}

/// The bar totals after the first `n` samples.
pub open spec fn bars_after(samples: Seq<TrendSample>, metric: Metric, max_bars: nat, bucket: nat, n: int) -> Seq<u64> {
    Seq::new(shown_bars(samples, max_bars, bucket), |bar: int| bar_total(samples, metric, max_bars, bucket, bar as nat, n) as u64)
}

proof fn lemma_bars_after_sum(samples: Seq<TrendSample>, metric: Metric, max_bars: nat, bucket: nat, n: int)
    requires
        1 <= n <= samples.len(),
        bucket > 0,
        seq_sum(deltas_spec(samples, metric)) <= u64::MAX,
    ensures
        seq_sum(bars_after(samples, metric, max_bars, bucket, n)) <= seq_sum(deltas_spec(samples, metric).take(n - 1)),
    decreases n,
{
    let d = deltas_spec(samples, metric);
    let cur = bars_after(samples, metric, max_bars, bucket, n);
    if n == 1 {
        assert(cur =~= Seq::new(shown_bars(samples, max_bars, bucket), |bar: int| 0u64));
        lemma_zero_sum(shown_bars(samples, max_bars, bucket));
    } else {
        lemma_bars_after_sum(samples, metric, max_bars, bucket, n - 1);
        let prev = bars_after(samples, metric, max_bars, bucket, n - 1);
        lemma_seq_sum_take_step(d, n - 2);
        lemma_seq_sum_subrange(d, 0, n - 1);
        assert(d.subrange(0, n - 1) =~= d.take(n - 1));
        match bar_of(samples, n - 1, max_bars, bucket) {
            Some(k) => {
                lemma_bar_total_bound(samples, metric, max_bars, bucket, k, n);
                assert(cur =~= prev.update(k as int, (prev[k as int] + d[n - 2]) as u64));
                lemma_seq_sum_update(prev, k as int, (prev[k as int] + d[n - 2]) as u64);
            },
            None => {
                assert(cur =~= prev);
            },
        }
    }
}

proof fn lemma_zero_sum(k: nat)
    ensures
        seq_sum(Seq::new(k, |bar: int| 0u64)) == 0,
    decreases k,
{
    if k > 0 {
        lemma_zero_sum((k - 1) as nat);
        assert(Seq::new(k, |bar: int| 0u64).drop_last() =~= Seq::new((k - 1) as nat, |bar: int| 0u64));
    }
}

proof fn lemma_drop_leading_zeros(s: Seq<u64>)
    ensures
        seq_sum(drop_leading_zeros(s)) == seq_sum(s),
        drop_leading_zeros(s).len() <= s.len(),
        drop_leading_zeros(s).len() > 0 ==> drop_leading_zeros(s)[0] != 0,
    decreases s.len(),
{
    if s.len() > 0 && s[0] == 0 {
        lemma_drop_leading_zeros(s.drop_first());
        lemma_seq_sum_concat(seq![s[0]], s.drop_first());
        assert(seq![s[0]] + s.drop_first() =~= s);
        lemma_seq_sum_single(s[0]);
    }
}

proof fn lemma_drop_trailing_zeros(s: Seq<u64>)
    ensures
        seq_sum(drop_trailing_zeros(s)) == seq_sum(s),
        drop_trailing_zeros(s).len() <= s.len(),
        drop_trailing_zeros(s).len() > 0 ==> drop_trailing_zeros(s).last() != 0,
        drop_trailing_zeros(s).len() > 0 ==> drop_trailing_zeros(s)[0] == s[0],
    decreases s.len(),
{
    if s.len() > 0 && s.last() == 0 {
        lemma_drop_trailing_zeros(s.drop_last());
    }
}

proof fn lemma_trim_idle(s: Seq<u64>)
    ensures
        seq_sum(trim_idle(s)) == seq_sum(s),
        trim_idle(s).len() >= 1,
        trim_idle(s).len() <= s.len() || trim_idle(s) == seq![0u64],
        trim_idle(s) == seq![0u64] || (trim_idle(s)[0] != 0 && trim_idle(s).last() != 0),
{
    lemma_drop_leading_zeros(s);
    lemma_drop_trailing_zeros(drop_leading_zeros(s));
    lemma_seq_sum_single(0u64);
}

/// The live trend shows at most `max_bars` bars, the first and the last of them
/// non-zero unless the trend is the single bar `[0]`, and never more growth than
/// the history holds.
pub proof fn law_time_bars_within_history(samples: Seq<TrendSample>, metric: Metric, max_bars: nat, bucket: nat)
    requires
        seq_sum(deltas_spec(samples, metric)) <= u64::MAX,
    ensures
        time_buckets_spec(samples, metric, max_bars, bucket).len() <= max_bars,
        seq_sum(time_buckets_spec(samples, metric, max_bars, bucket)) <= seq_sum(deltas_spec(samples, metric)),
        time_buckets_spec(samples, metric, max_bars, bucket).len() > 0 ==> (time_buckets_spec(
            samples,
            metric,
            max_bars,
            bucket,
        ) == seq![0u64] || (time_buckets_spec(samples, metric, max_bars, bucket)[0] != 0 && time_buckets_spec(
            samples,
            metric,
            max_bars,
            bucket,
        ).last() != 0)),
{
    if !(max_bars == 0 || bucket == 0 || samples.len() < 2) {
        let raw = raw_bars(samples, metric, max_bars, bucket);
        let n = samples.len() as int;
        lemma_bars_after_sum(samples, metric, max_bars, bucket, n);
        assert(raw =~= bars_after(samples, metric, max_bars, bucket, n));
        assert(deltas_spec(samples, metric).take(n - 1) =~= deltas_spec(samples, metric));
        lemma_trim_idle(raw);
    }
}

/// A bounded history of refreshes, oldest first, from which the live trend is drawn.
#[derive(Debug)]
pub struct TrendHistory {
    max_samples: usize,
    samples: VecDeque<TrendSample>,
}

impl View for TrendHistory {
    type V = Seq<TrendSample>;

    closed spec fn view(&self) -> Seq<TrendSample> {
        self.samples@
    }
}

impl Clone for TrendHistory {
    fn clone(&self) -> (h: Self)
        ensures
            h@ == self@,
            h.capacity() == self.capacity(),
    {
        proof {
            use_type_invariant(self);
        }
        let samples = self.samples.clone();
        assert(samples@ =~= self.samples@);
        TrendHistory { max_samples: self.max_samples, samples }
    }
}

impl TrendHistory {
    /// How many samples the history keeps at most.
    pub closed spec fn capacity(&self) -> nat {
        self.max_samples as nat
    }

    #[verifier::type_invariant]
    closed spec fn inv(&self) -> bool {
        &&& self.max_samples >= 2
        &&& self.samples@.len() <= self.max_samples
    }

    /// An empty history that keeps the last `max(max_samples, 2)` samples.
    pub fn new(max_samples: usize) -> (h: Self)
        ensures
            h@ == Seq::<TrendSample>::empty(),
            h.capacity() == if max_samples < 2 { 2 } else { max_samples as nat },
    {
        let max_samples: usize = if max_samples < 2 { 2 } else { max_samples };
        TrendHistory { max_samples, samples: VecDeque::new() }
    }

    /// The number of samples held.
    pub fn len(&self) -> (n: usize)
        ensures
            n == self@.len(),
            n <= self.capacity(),
            self.capacity() >= 2,
    {
        proof {
            use_type_invariant(self);
        }
        self.samples.len()
    }

    /// Whether no sample is held.
    pub fn is_empty(&self) -> (b: bool)
        ensures
            b == (self@.len() == 0),
    {
        self.samples.len() == 0
    }

    /// Records a snapshot taken at `fetched_at` (nanoseconds since the caller's
    /// origin), dropping the oldest samples beyond the capacity.
    pub fn push_snapshot(&mut self, snapshot: &Snapshot, fetched_at: u64)
        ensures
            final(self)@ == keep_last(old(self)@.push(sample_of(*snapshot, fetched_at)), old(self).capacity()),
            final(self).capacity() == old(self).capacity(),
            final(self)@.len() <= final(self).capacity(),
    {
        proof {
            use_type_invariant(&*self);
        }
        let sample = TrendSample {
            fetched_at,
            requests: snapshot.user.total.requests,
            all_tokens: snapshot.user.total.all_tokens,
            cost_cents: trend_cents_exec(snapshot.user.total.cost),
        };
        let mut samples: VecDeque<TrendSample> = VecDeque::new();
        std::mem::swap(&mut samples, &mut self.samples);
        let ghost pushed = samples@.push(sample);
        samples.push_back(sample);
        while samples.len() > self.max_samples
            invariant
                samples@.len() <= self.max_samples + 1,
                pushed.len() <= self.max_samples + 1,
                samples@.len() <= pushed.len(),
                samples@ == pushed.skip(pushed.len() - samples@.len()),
                pushed.len() > self.max_samples ==> samples@.len() >= self.max_samples,
                pushed.len() <= self.max_samples ==> samples@.len() == pushed.len(),
            decreases samples@.len(),
        {
            let ghost before = samples@;
            samples.pop_front();
            assert(samples@ =~= pushed.skip(pushed.len() - samples@.len()));
        }
        assert(pushed.skip(0) =~= pushed);
        assert(samples@ =~= keep_last(pushed, self.max_samples as nat));
        self.samples = samples;
    }

    fn value(sample: &TrendSample, metric: Metric) -> (v: u64)
        ensures
            v == metric_value(*sample, metric),
    {
        match metric {
            Metric::Requests => sample.requests,
            Metric::Tokens => sample.all_tokens,
            Metric::CostCents => sample.cost_cents,
        }
    }

    fn deltas(&self, metric: Metric) -> (d: Vec<u64>)
        ensures
            d@ == deltas_spec(self@, metric),
    {
        let mut out: Vec<u64> = Vec::new();
        let n = self.samples.len();
        let mut i: usize = 1;
        while i < n
            invariant
                n == self@.len(),
                1 <= i <= if n == 0 { 1 } else { n },
                out@.len() == i - 1,
                forall|k: int| 0 <= k < i - 1 ==> out@[k] == deltas_spec(self@, metric)[k],
            decreases n - i,
        {
            let previous = Self::value(&self.samples[i - 1], metric);
            let current = Self::value(&self.samples[i], metric);
            let d: u64 = if current >= previous { current - previous } else { 0 };
            out.push(d);
            i = i + 1;
        }
        assert(out@ == deltas_spec(self@, metric));
        out
    }

    fn latest_delta(&self, metric: Metric) -> (d: Option<u64>)
        ensures
            d == latest_delta_spec(self@, metric),
    {
        let n = self.samples.len();
        if n < 2 {
            None
        } else {
            let latest = Self::value(&self.samples[n - 1], metric);
            let previous = Self::value(&self.samples[n - 2], metric);
            Some(if latest >= previous { latest - previous } else { 0 })
        }
    }

    /// Request growth between successive samples.
    pub fn request_deltas(&self) -> (d: Vec<u64>)
        ensures
            d@ == deltas_spec(self@, Metric::Requests),
    {
        self.deltas(Metric::Requests)
    }

    /// Token growth between successive samples.
    pub fn token_deltas(&self) -> (d: Vec<u64>)
        ensures
            d@ == deltas_spec(self@, Metric::Tokens),
    {
        self.deltas(Metric::Tokens)
    }

    /// Cost growth, in cents, between successive samples.
    pub fn cost_deltas(&self) -> (d: Vec<u64>)
        ensures
            d@ == deltas_spec(self@, Metric::CostCents),
    {
        self.deltas(Metric::CostCents)
    }

    /// Request growth between the two most recent samples.
    pub fn latest_request_delta(&self) -> (d: Option<u64>)
        ensures
            d == latest_delta_spec(self@, Metric::Requests),
    {
        self.latest_delta(Metric::Requests)
    }

    /// Token growth between the two most recent samples.
    pub fn latest_token_delta(&self) -> (d: Option<u64>)
        ensures
            d == latest_delta_spec(self@, Metric::Tokens),
    {
        self.latest_delta(Metric::Tokens)
    }

    /// Cost growth, in cents, between the two most recent samples.
    pub fn latest_cost_delta_cents(&self) -> (d: Option<u64>)
        ensures
            d == latest_delta_spec(self@, Metric::CostCents),
    {
        self.latest_delta(Metric::CostCents)
    }

    /// Nanoseconds between the two most recent samples (zero if the clock went back).
    pub fn latest_interval(&self) -> (d: Option<u64>)
        ensures
            d == (if self@.len() < 2 {
                None
            } else {
                Some(growth(self@.last().fetched_at, self@[self@.len() - 2].fetched_at))
            }),
    {
        let n = self.samples.len();
        if n < 2 {
            None
        } else {
            let latest = self.samples[n - 1].fetched_at;
            let previous = self.samples[n - 2].fetched_at;
            Some(if latest >= previous { latest - previous } else { 0 })
        }
    }
    /// The sum of the values, or nothing where it does not fit in a `u64`.
    pub fn checked_sum(values: &Vec<u64>) -> (r: Option<u64>)
        ensures
            r is Some <==> seq_sum(values@) <= u64::MAX,
            r matches Some(t) ==> t == seq_sum(values@),
    {
        let mut total: u64 = 0;
        let mut i: usize = 0;
        while i < values.len()
            invariant
                0 <= i <= values.len(),
                total == seq_sum(values@.take(i as int)),
            decreases values.len() - i,
        {
            proof {
                lemma_seq_sum_take_step(values@, i as int);
            }
            if total > u64::MAX - values[i] {
                proof {
                    lemma_seq_sum_subrange(values@, 0, i + 1);
                    assert(values@.subrange(0, i + 1) =~= values@.take(i + 1));
                }
                return None;
            }
            total = total + values[i];
            i = i + 1;
        }
        assert(values@.take(values.len() as int) =~= values@);
        Some(total)
    }

    pub(crate) fn sum_values(values: &Vec<u64>) -> (total: u64)
        requires
            seq_sum(values@) <= u64::MAX,
        ensures
            total == seq_sum(values@),
    {
        let mut total: u64 = 0;
        let mut i: usize = 0;
        while i < values.len()
            invariant
                0 <= i <= values.len(),
                seq_sum(values@) <= u64::MAX,
                total == seq_sum(values@.take(i as int)),
            decreases values.len() - i,
        {
            proof {
                lemma_seq_sum_take_step(values@, i as int);
                lemma_seq_sum_subrange(values@, 0, i + 1);
                assert(values@.subrange(0, i + 1) =~= values@.take(i + 1));
            }
            total = total + values[i];
            i = i + 1;
        }
        assert(values@.take(values.len() as int) =~= values@);
        total
    }

    fn bucket_values(values: Vec<u64>, max_bars: usize) -> (r: Vec<u64>)
        requires
            seq_sum(values@) <= u64::MAX,
        ensures
            r@ == bucket_values_spec(values@, max_bars as nat),
    {
        let len = values.len();
        if max_bars == 0 || len == 0 {
            return Vec::new();
        }
        if len <= max_bars {
            return values;
        }
        proof {
            if max_bars >= 2 {
                vstd::arithmetic::div_mod::lemma_div_is_ordered_by_denominator(len as int, 2, max_bars as int);
            }
        }
        let c: usize = if len % max_bars == 0 { len / max_bars } else { len / max_bars + 1 };
        assert(c > 0) by (nonlinear_arith)
            requires
                len > max_bars,
                max_bars > 0,
                c >= len / max_bars,
        {
        }
        let mut out: Vec<u64> = Vec::new();
        let mut start: usize = 0;
        assert(values@.subrange(0, len as int) =~= values@);
        assert(out@ + chunk_sums(values@, c as nat) =~= chunk_sums(values@, c as nat));
        while start < len
            invariant
                len == values@.len(),
                c > 0,
                0 <= start <= len,
                seq_sum(values@) <= u64::MAX,
                out@ + chunk_sums(values@.subrange(start as int, len as int), c as nat) == chunk_sums(values@, c as nat),
            decreases len - start,
        {
            let end: usize = if len - start <= c { len } else { start + c };
            let mut acc: u64 = 0;
            let mut j: usize = start;
            while j < end
                invariant
                    len == values@.len(),
                    0 <= start <= j <= end <= len,
                    seq_sum(values@) <= u64::MAX,
                    acc == seq_sum(values@.subrange(start as int, j as int)),
                decreases end - j,
            {
                proof {
                    assert(values@.subrange(start as int, j + 1).drop_last() =~= values@.subrange(start as int, j as int));
                    lemma_seq_sum_subrange(values@, start as int, j + 1);
                }
                acc = acc + values[j];
                j = j + 1;
            }
            proof {
                let rest = values@.subrange(start as int, len as int);
                if rest.len() <= c {
                    assert(rest =~= values@.subrange(start as int, end as int));
                    assert(values@.subrange(end as int, len as int) =~= Seq::<u64>::empty());
                } else {
                    assert(rest.take(c as int) =~= values@.subrange(start as int, end as int));
                    assert(rest.skip(c as int) =~= values@.subrange(end as int, len as int));
                }
                assert(out@.push(acc) + chunk_sums(values@.subrange(end as int, len as int), c as nat)
                    =~= out@ + chunk_sums(rest, c as nat));
            }
            out.push(acc);
            start = end;
        }
        proof {
            assert(values@.subrange(len as int, len as int) =~= Seq::<u64>::empty());
            assert(out@ + Seq::<u64>::empty() =~= out@);
        }
        out
    }

    fn trim_idle_bars(bars: Vec<u64>) -> (r: Vec<u64>)
        ensures
            r@ == trim_idle(bars@),
    {
        let n = bars.len();
        let mut p: usize = 0;
        assert(bars@.skip(0) =~= bars@);
        while p < n && bars[p] == 0
            invariant
                n == bars@.len(),
                0 <= p <= n,
                drop_leading_zeros(bars@) == drop_leading_zeros(bars@.skip(p as int)),
            decreases n - p,
        {
            assert(bars@.skip(p as int).drop_first() =~= bars@.skip(p + 1));
            p = p + 1;
        }
        assert(drop_leading_zeros(bars@) == bars@.skip(p as int));
        let mut q: usize = n;
        assert(bars@.subrange(p as int, n as int) =~= bars@.skip(p as int));
        while q > p && bars[q - 1] == 0
            invariant
                n == bars@.len(),
                p <= q <= n,
                drop_trailing_zeros(bars@.skip(p as int)) == drop_trailing_zeros(bars@.subrange(p as int, q as int)),
            decreases q,
        {
            assert(bars@.subrange(p as int, q as int).drop_last() =~= bars@.subrange(p as int, q - 1));
            q = q - 1;
        }
        assert(drop_trailing_zeros(bars@.skip(p as int)) == bars@.subrange(p as int, q as int));
        let mut r: Vec<u64> = Vec::new();
        if p == q {
            r.push(0);
            assert(r@ =~= seq![0u64]);
            return r;
        }
        let mut k: usize = p;
        while k < q
            invariant
                p <= k <= q <= bars@.len(),
                r@ =~= bars@.subrange(p as int, k as int),
            decreases q - k,
        {
            r.push(bars[k]);
            k = k + 1;
        }
        r
    }

    /// The growth of `metric` per complete bucket of `bucket` nanoseconds (see
    /// `bar_of`), or nothing where the growth of a bucket does not fit in a `u64`.
    pub fn checked_time_buckets(&self, metric: Metric, max_bars: usize, bucket: u64) -> (r: Option<Vec<u64>>)
        ensures
            r is Some <==> bars_fit(self@, metric, max_bars as nat, bucket as nat),
            r matches Some(v) ==> v@ == time_buckets_spec(self@, metric, max_bars as nat, bucket as nat),
    {
        let n = self.samples.len();
        if max_bars == 0 || bucket == 0 || n < 2 {
            return Some(Vec::new());
        }
        let ghost samples = self@;
        let origin = self.samples[0].fetched_at;
        let latest = self.samples[n - 1].fetched_at;
        let span: u64 = if latest >= origin { latest - origin } else { 0 };
        let done: u64 = span / bucket;
        let start: u64 = if done > max_bars as u64 { done - max_bars as u64 } else { 0 };
        let shown: usize = (done - start) as usize;
        assert(shown == shown_bars(samples, max_bars as nat, bucket as nat));
        let mut bars: Vec<u64> = vec![0; shown];
        let mut i: usize = 1;
        while i < n
            invariant
                n == samples.len(),
                samples == self@,
                origin == samples[0].fetched_at,
                latest == samples.last().fetched_at,
                done == complete_buckets(samples, bucket as nat),
                start == first_shown(samples, max_bars as nat, bucket as nat),
                shown == shown_bars(samples, max_bars as nat, bucket as nat),
                1 <= i <= n,
                bucket > 0,
                bars@.len() == shown,
                forall|b: int|
                    0 <= b < shown ==> bars@[b] == bar_total(
                        samples,
                        metric,
                        max_bars as nat,
                        bucket as nat,
                        b as nat,
                        i as int,
                    ),
            decreases n - i,
        {
            let t = self.samples[i].fetched_at;
            let since: u64 = if t >= origin { t - origin } else { 0 };
            let k: u64 = since / bucket;
            let previous = Self::value(&self.samples[i - 1], metric);
            let current = Self::value(&self.samples[i], metric);
            let growth_now: u64 = if current >= previous { current - previous } else { 0 };
            if start <= k && k < done {
                let index: usize = (k - start) as usize;
                if bars[index] > u64::MAX - growth_now {
                    proof {
                        lemma_bar_total_grows(
                            samples,
                            metric,
                            max_bars as nat,
                            bucket as nat,
                            index as nat,
                            i + 1,
                            n as int,
                        );
                        assert(bar_total(samples, metric, max_bars as nat, bucket as nat, index as nat, i + 1)
                            > u64::MAX);
                    }
                    return None;
                }
                let updated = bars[index] + growth_now;
                bars[index] = updated;
            }
            i = i + 1;
        }
        assert(bars@ =~= raw_bars(samples, metric, max_bars as nat, bucket as nat));
        assert forall|b: nat| b < shown implies #[trigger] bar_total(
            samples,
            metric,
            max_bars as nat,
            bucket as nat,
            b,
            n as int,
        ) <= u64::MAX by {
            assert(bars@[b as int] == bar_total(samples, metric, max_bars as nat, bucket as nat, b, n as int));
        }
        Some(Self::trim_idle_bars(bars))
    }

    /// Request growth squeezed into at most `max_bars` bars.
    pub fn request_buckets(&self, max_bars: usize) -> (r: Vec<u64>)
        requires
            seq_sum(deltas_spec(self@, Metric::Requests)) <= u64::MAX,
        ensures
            r@ == bucket_values_spec(deltas_spec(self@, Metric::Requests), max_bars as nat),
    {
        Self::bucket_values(self.request_deltas(), max_bars)
    }

    /// Token growth squeezed into at most `max_bars` bars.
    pub fn token_buckets(&self, max_bars: usize) -> (r: Vec<u64>)
        requires
            seq_sum(deltas_spec(self@, Metric::Tokens)) <= u64::MAX,
        ensures
            r@ == bucket_values_spec(deltas_spec(self@, Metric::Tokens), max_bars as nat),
    {
        Self::bucket_values(self.token_deltas(), max_bars)
    }

    /// Cost growth, in cents, squeezed into at most `max_bars` bars.
    pub fn cost_buckets(&self, max_bars: usize) -> (r: Vec<u64>)
        requires
            seq_sum(deltas_spec(self@, Metric::CostCents)) <= u64::MAX,
        ensures
            r@ == bucket_values_spec(deltas_spec(self@, Metric::CostCents), max_bars as nat),
    {
        Self::bucket_values(self.cost_deltas(), max_bars)
    }

    /// Request growth over the whole history.
    pub fn window_request_delta(&self) -> (total: u64)
        requires
            seq_sum(deltas_spec(self@, Metric::Requests)) <= u64::MAX,
        ensures
            total == seq_sum(deltas_spec(self@, Metric::Requests)),
    {
        Self::sum_values(&self.request_deltas())
    }

    /// Token growth over the whole history.
    pub fn window_token_delta(&self) -> (total: u64)
        requires
            seq_sum(deltas_spec(self@, Metric::Tokens)) <= u64::MAX,
        ensures
            total == seq_sum(deltas_spec(self@, Metric::Tokens)),
    {
        Self::sum_values(&self.token_deltas())
    }

    /// Cost growth, in cents, over the whole history.
    pub fn window_cost_delta_cents(&self) -> (total: u64)
        requires
            seq_sum(deltas_spec(self@, Metric::CostCents)) <= u64::MAX,
        ensures
            total == seq_sum(deltas_spec(self@, Metric::CostCents)),
    {
        Self::sum_values(&self.cost_deltas())
    }

    /// Request growth per complete bucket of `bucket` nanoseconds (see `bar_of`).
    pub fn request_time_buckets(&self, max_bars: usize, bucket: u64) -> (r: Vec<u64>)
        requires
            bars_fit(self@, Metric::Requests, max_bars as nat, bucket as nat),
        ensures
            r@ == time_buckets_spec(self@, Metric::Requests, max_bars as nat, bucket as nat),
    {
        match self.checked_time_buckets(Metric::Requests, max_bars, bucket) {
            Some(v) => v,
            None => Vec::new(),
        }
    }

    /// Token growth per complete bucket of `bucket` nanoseconds (see `bar_of`).
    pub fn token_time_buckets(&self, max_bars: usize, bucket: u64) -> (r: Vec<u64>)
        requires
            bars_fit(self@, Metric::Tokens, max_bars as nat, bucket as nat),
        ensures
            r@ == time_buckets_spec(self@, Metric::Tokens, max_bars as nat, bucket as nat),
    {
        match self.checked_time_buckets(Metric::Tokens, max_bars, bucket) {
            Some(v) => v,
            None => Vec::new(),
        }
    }

    /// Cost growth, in cents, per complete bucket of `bucket` nanoseconds (see `bar_of`).
    pub fn cost_time_buckets(&self, max_bars: usize, bucket: u64) -> (r: Vec<u64>)
        requires
            bars_fit(self@, Metric::CostCents, max_bars as nat, bucket as nat),
        ensures
            r@ == time_buckets_spec(self@, Metric::CostCents, max_bars as nat, bucket as nat),
    {
        match self.checked_time_buckets(Metric::CostCents, max_bars, bucket) {
            Some(v) => v,
            None => Vec::new(),
        }
    }
}

} // verus!

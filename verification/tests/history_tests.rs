use crstop::history::TrendHistory;
use crstop::model::{Health, Limits, ModelStat, Snapshot, UsageTotal, UserStats};
use crstop::amount::Dollars;

fn value(d: Dollars) -> f64 {
    f64::from_bits(d.bits())
}

fn amount(x: f64) -> Dollars {
    Dollars::from_bits(x.to_bits()).unwrap()
}

fn usd(cents: i64) -> Dollars {
    let sign = if cents < 0 { "-" } else { "" };
    let value: f64 = format!("{sign}{}.{:02}", cents.abs() / 100, cents.abs() % 100).parse().unwrap();
    Dollars::from_bits(value.to_bits()).unwrap()
}


const SECOND: u64 = 1_000_000_000;

fn sample_snapshot() -> Snapshot {
    Snapshot {
        health: Health {
            status: "healthy".into(),
            service: Some("relay-service".into()),
            version: Some("1.1.303".into()),
            redis_status: Some("healthy".into()),
        },
        user: UserStats {
            name: Some("demo-user".into()),
            is_active: true,
            is_activated: true,
            expires_at: None,
            permissions: vec!["openai".into()],
            total: UsageTotal {
                requests: 1_234,
                input_tokens: 500_000,
                output_tokens: 60_000,
                cache_read_tokens: 400_000,
                all_tokens: 960_000,
                cost: usd(4_210),
                formatted_cost: Some("$42.10".into()),
            },
            limits: Limits {
                daily_cost_limit: usd(0),
                total_cost_limit: usd(0),
                current_daily_cost: usd(250),
                current_total_cost: usd(4_210),
                concurrency_limit: 0,
                rate_limit_window: 0,
                rate_limit_requests: 0,
                rate_limit_cost: usd(0),
            },
        },
        daily: vec![ModelStat {
            model: "gpt-5.5".into(),
            requests: 12,
            input_tokens: 12_000,
            output_tokens: 3_000,
            cache_read_tokens: 8_000,
            all_tokens: 23_000,
            cost: usd(310),
            formatted_cost: Some("$3.10".into()),
        }],
        monthly: vec![],
        pool_visible: false,
        last_error: None,
        fetched_at: "unix:1700000000".into(),
    }
}

#[test]
fn first_sample_has_no_per_refresh_delta() {
    let mut history = TrendHistory::new(4);
    history.push_snapshot(&sample_snapshot(), 0);

    assert_eq!(history.len(), 1);
    assert!(history.request_deltas().is_empty());
    assert!(history.token_deltas().is_empty());
    assert!(history.cost_deltas().is_empty());
}

#[test]
fn computes_deltas_between_successive_snapshots() {
    let mut history = TrendHistory::new(4);
    let start = 0;
    let mut first = sample_snapshot();
    let mut second = first.clone();
    second.user.total.requests += 7;
    second.user.total.all_tokens += 12_345;
    second.user.total.cost = amount(value(second.user.total.cost) + 1.25);

    history.push_snapshot(&first, start);
    history.push_snapshot(&second, start + 5 * SECOND);

    assert_eq!(history.request_deltas(), vec![7]);
    assert_eq!(history.token_deltas(), vec![12_345]);
    assert_eq!(history.cost_deltas(), vec![125]);
    assert_eq!(history.latest_request_delta(), Some(7));
    assert_eq!(history.latest_token_delta(), Some(12_345));
    assert_eq!(history.latest_cost_delta_cents(), Some(125));

    first.user.total.requests += 100;
    assert_eq!(history.request_deltas(), vec![7]);
}

#[test]
fn clamps_counter_resets_to_zero_deltas() {
    let mut history = TrendHistory::new(4);
    let start = 0;
    let first = sample_snapshot();
    let mut second = first.clone();
    second.user.total.requests = first.user.total.requests.saturating_sub(10);
    second.user.total.all_tokens = first.user.total.all_tokens.saturating_sub(10);
    second.user.total.cost = amount((value(first.user.total.cost) - 1.0).max(0.0));

    history.push_snapshot(&first, start);
    history.push_snapshot(&second, start + 5 * SECOND);

    assert_eq!(history.request_deltas(), vec![0]);
    assert_eq!(history.token_deltas(), vec![0]);
    assert_eq!(history.cost_deltas(), vec![0]);
}

#[test]
fn keeps_only_configured_number_of_samples() {
    let mut history = TrendHistory::new(3);
    let start = 0;

    for i in 0..5u64 {
        let mut snapshot = sample_snapshot();
        snapshot.user.total.requests += i;
        snapshot.user.total.all_tokens += i * 10;
        snapshot.user.total.cost = amount(value(snapshot.user.total.cost) + i as f64);
        history.push_snapshot(&snapshot, start + i * SECOND);
    }

    assert_eq!(history.len(), 3);
    assert_eq!(history.request_deltas(), vec![1, 1]);
    assert_eq!(history.token_deltas(), vec![10, 10]);
    assert_eq!(history.cost_deltas(), vec![100, 100]);
}

#[test]
fn buckets_long_history_into_visible_window_totals() {
    let mut history = TrendHistory::new(8);
    let start = 0;
    let mut snapshot = sample_snapshot();
    history.push_snapshot(&snapshot, start);

    for i in 1..=6u64 {
        snapshot.user.total.requests += i;
        snapshot.user.total.all_tokens += i * 10;
        snapshot.user.total.cost = amount(value(snapshot.user.total.cost) + i as f64 / 100.0);
        history.push_snapshot(&snapshot, start + i * SECOND);
    }

    assert_eq!(history.request_buckets(3), vec![3, 7, 11]);
    assert_eq!(history.token_buckets(3), vec![30, 70, 110]);
    assert_eq!(history.cost_buckets(3), vec![3, 7, 11]);
    assert_eq!(history.window_request_delta(), 21);
    assert_eq!(history.window_token_delta(), 210);
    assert_eq!(history.window_cost_delta_cents(), 21);
}

#[test]
fn time_buckets_wait_until_bucket_is_complete() {
    let mut history = TrendHistory::new(8);
    let start = 0;
    let mut snapshot = sample_snapshot();
    history.push_snapshot(&snapshot, start);

    snapshot.user.total.requests += 4;
    snapshot.user.total.all_tokens += 40;
    snapshot.user.total.cost = amount(value(snapshot.user.total.cost) + 0.04);
    history.push_snapshot(&snapshot, start + 2 * SECOND);

    let idle = snapshot.clone();
    history.push_snapshot(&idle, start + 29 * SECOND);

    assert_eq!(history.request_time_buckets(4, 30 * SECOND), vec![0]);

    history.push_snapshot(&idle, start + 31 * SECOND);

    assert_eq!(history.request_time_buckets(4, 30 * SECOND), vec![4]);
    assert_eq!(history.token_time_buckets(4, 30 * SECOND), vec![40]);
    assert_eq!(history.cost_time_buckets(4, 30 * SECOND), vec![4]);
}

#[test]
fn time_buckets_do_not_add_trailing_idle_columns() {
    let mut history = TrendHistory::new(8);
    let start = 0;
    let mut snapshot = sample_snapshot();
    history.push_snapshot(&snapshot, start);

    snapshot.user.total.requests += 4;
    history.push_snapshot(&snapshot, start + 2 * SECOND);
    history.push_snapshot(&snapshot, start + 62 * SECOND);

    assert_eq!(history.request_time_buckets(4, 30 * SECOND), vec![4]);
}

#[test]
fn time_buckets_keep_fixed_bucket_membership_during_idle_refreshes() {
    let mut history = TrendHistory::new(8);
    let start = 0;
    let mut snapshot = sample_snapshot();
    history.push_snapshot(&snapshot, start);

    snapshot.user.total.requests += 4;
    history.push_snapshot(&snapshot, start + 2 * SECOND);
    snapshot.user.total.requests += 3;
    history.push_snapshot(&snapshot, start + 25 * SECOND);
    history.push_snapshot(&snapshot, start + 33 * SECOND);

    assert_eq!(history.request_time_buckets(4, 30 * SECOND), vec![7]);
}

#[test]
fn time_buckets_exclude_current_incomplete_bucket() {
    let mut history = TrendHistory::new(8);
    let start = 0;
    let mut snapshot = sample_snapshot();
    history.push_snapshot(&snapshot, start);

    snapshot.user.total.requests += 4;
    history.push_snapshot(&snapshot, start + 2 * SECOND);
    snapshot.user.total.requests += 3;
    history.push_snapshot(&snapshot, start + 32 * SECOND);
    history.push_snapshot(&snapshot, start + 40 * SECOND);

    assert_eq!(history.request_time_buckets(4, 30 * SECOND), vec![4]);
}

#[test]
fn capacity_is_at_least_two() {
    let mut history = TrendHistory::new(0);
    let mut snapshot = sample_snapshot();
    for i in 0..5u64 {
        snapshot.user.total.requests += 1;
        history.push_snapshot(&snapshot, i * SECOND);
    }
    assert_eq!(history.len(), 2);
    assert_eq!(history.request_deltas(), vec![1]);
    assert!(!history.is_empty());
    assert!(TrendHistory::new(5).is_empty());
}

#[test]
fn latest_interval_is_time_between_last_two_samples() {
    let mut history = TrendHistory::new(4);
    let snapshot = sample_snapshot();
    assert_eq!(history.latest_interval(), None);
    history.push_snapshot(&snapshot, 10 * SECOND);
    assert_eq!(history.latest_interval(), None);
    assert_eq!(history.latest_request_delta(), None);
    history.push_snapshot(&snapshot, 13 * SECOND);
    assert_eq!(history.latest_interval(), Some(3 * SECOND));
    history.push_snapshot(&snapshot, 12 * SECOND);
    assert_eq!(history.latest_interval(), Some(0));
}

#[test]
fn buckets_with_room_or_no_bars() {
    let mut history = TrendHistory::new(8);
    let mut snapshot = sample_snapshot();
    history.push_snapshot(&snapshot, 0);
    snapshot.user.total.requests += 5;
    history.push_snapshot(&snapshot, SECOND);
    snapshot.user.total.requests += 6;
    history.push_snapshot(&snapshot, 2 * SECOND);
    assert_eq!(history.request_buckets(10), vec![5, 6]);
    assert_eq!(history.request_buckets(0), Vec::<u64>::new());
    assert_eq!(history.request_buckets(1), vec![11]);
    assert_eq!(history.request_time_buckets(0, 30 * SECOND), Vec::<u64>::new());
    assert_eq!(history.request_time_buckets(4, 0), Vec::<u64>::new());
}

#[test]
fn window_total_telescopes_for_growing_counters() {
    let mut history = TrendHistory::new(16);
    let mut snapshot = sample_snapshot();
    let first = snapshot.user.total.requests;
    for i in 0..10u64 {
        snapshot.user.total.requests += i * 3;
        history.push_snapshot(&snapshot, i * SECOND);
    }
    assert_eq!(history.window_request_delta(), snapshot.user.total.requests - first);
    let total: u64 = history.request_buckets(4).iter().sum();
    assert_eq!(total, history.window_request_delta());
    assert!(history.request_buckets(4).len() <= 4);
}

#[test]
fn time_buckets_spread_growth_over_bars() {
    let mut history = TrendHistory::new(16);
    let mut snapshot = sample_snapshot();
    history.push_snapshot(&snapshot, 0);
    snapshot.user.total.requests += 2;
    history.push_snapshot(&snapshot, 5 * SECOND);
    snapshot.user.total.requests += 3;
    history.push_snapshot(&snapshot, 40 * SECOND);
    snapshot.user.total.requests += 9;
    history.push_snapshot(&snapshot, 95 * SECOND);
    // Three 30 s buckets have passed since the first sample; the growth at 95 s
    // falls in the fourth, which is not complete yet.
    assert_eq!(history.request_time_buckets(4, 30 * SECOND), vec![2, 3]);
    assert_eq!(history.request_time_buckets(2, 30 * SECOND), vec![3]);
    snapshot.user.total.requests += 1;
    history.push_snapshot(&snapshot, 121 * SECOND);
    assert_eq!(history.request_time_buckets(4, 30 * SECOND), vec![2, 3, 0, 9]);
}

#[test]
fn histories_grow_to_their_capacity_and_stay_there() {
    for capacity in [0usize, 1, 2, 3] {
        let mut history = TrendHistory::new(capacity);
        assert!(history.is_empty());
        let keep = capacity.max(2);
        for pushed in 1..=5u64 {
            let mut s = sample_snapshot();
            s.user.total.requests = pushed;
            history.push_snapshot(&s, pushed * SECOND);
            assert_eq!(history.len(), (pushed as usize).min(keep));
        }
        assert_eq!(history.request_deltas(), vec![1; keep - 1]);
    }
}

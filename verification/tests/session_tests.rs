use crstop::model::{Health, Limits, Snapshot, UsageTotal, UserStats};
use crstop::session::{merge_refresh, Action, Dashboard, Key, KeyPress, ViewToggles};
use crstop::amount::Dollars;

fn usd(cents: i64) -> Dollars {
    let sign = if cents < 0 { "-" } else { "" };
    let value: f64 = format!("{sign}{}.{:02}", cents.abs() / 100, cents.abs() % 100).parse().unwrap();
    Dollars::from_bits(value.to_bits()).unwrap()
}


fn press(key: Key, control: bool) -> KeyPress {
    KeyPress { key, control }
}

fn snapshot() -> Snapshot {
    Snapshot {
        health: Health { status: "healthy".into(), service: None, version: None, redis_status: None },
        user: UserStats {
            name: None,
            is_active: true,
            is_activated: true,
            expires_at: None,
            permissions: vec![],
            total: UsageTotal {
                requests: 1,
                input_tokens: 0,
                output_tokens: 0,
                cache_read_tokens: 0,
                all_tokens: 0,
                cost: usd(0),
                formatted_cost: None,
            },
            limits: Limits {
                daily_cost_limit: usd(0),
                total_cost_limit: usd(0),
                current_daily_cost: usd(0),
                current_total_cost: usd(0),
                concurrency_limit: 0,
                rate_limit_window: 0,
                rate_limit_requests: 0,
                rate_limit_cost: usd(0),
            },
        },
        daily: vec![],
        monthly: vec![],
        pool_visible: false,
        last_error: None,
        fetched_at: "unix:1".into(),
    }
}

#[test]
fn keys_quit_refresh_and_toggle_tables() {
    let mut view = ViewToggles::new();

    assert!(view.detailed_daily);
    assert!(!view.detailed_monthly);
    assert_eq!(view.handle_key(press(Key::Char('q'), false)), Action::Quit);
    assert_eq!(view.handle_key(press(Key::Esc, false)), Action::Quit);
    assert_eq!(view.handle_key(press(Key::Char('c'), true)), Action::Quit);
    assert_eq!(view.handle_key(press(Key::Char('c'), false)), Action::Continue);
    assert_eq!(view.handle_key(press(Key::Char('r'), false)), Action::Refresh);
    assert_eq!(view.handle_key(press(Key::Char('d'), false)), Action::Continue);
    assert!(!view.detailed_daily);
    assert_eq!(view.handle_key(press(Key::Char('m'), false)), Action::Continue);
    assert!(view.detailed_monthly);
    assert_eq!(view.handle_key(press(Key::Other, false)), Action::Continue);
    assert!(!view.detailed_daily && view.detailed_monthly);
}

#[test]
fn pressing_a_key_twice_restores_the_view() {
    let mut view = ViewToggles::new();
    let start = view;
    for key in [Key::Char('d'), Key::Char('m'), Key::Char('x'), Key::Char('r'), Key::Other] {
        view.handle_key(press(key, false));
        view.handle_key(press(key, false));
        assert_eq!(view, start);
    }
    view.handle_key(press(Key::Char('d'), true));
    assert!(!view.detailed_daily);
}

#[test]
fn failed_refresh_keeps_previous_snapshot_with_error() {
    let (kept, fresh) = merge_refresh(Some(snapshot()), Err("timeout".to_string()));
    assert!(!fresh);
    assert_eq!(kept.unwrap().last_error.as_deref(), Some("timeout"));
    let (none, fresh) = merge_refresh(None, Err("timeout".to_string()));
    assert!(none.is_none() && !fresh);
    let mut next = snapshot();
    next.user.total.requests = 2;
    let (got, fresh) = merge_refresh(Some(snapshot()), Ok(next.clone()));
    assert!(fresh);
    assert_eq!(got, Some(next));
}

#[test]
fn refreshes_are_due_on_r_or_after_the_interval() {
    assert!(crstop::session::refresh_due(true, 0, 1_000));
    assert!(crstop::session::refresh_due(false, 1_000, 1_000));
    assert!(!crstop::session::refresh_due(false, 999, 1_000));
}

#[test]
fn a_dashboard_pushes_one_sample_per_fresh_snapshot() {
    let mut d = Dashboard::start(Some(snapshot()), 5);
    assert_eq!(d.trend.len(), 1);
    assert!(d.view.detailed_daily && !d.view.detailed_monthly);
    assert_eq!(d.on_key(press(Key::Char('d'), false)), Action::Continue);
    assert!(!d.view.detailed_daily);
    assert_eq!(d.on_key(press(Key::Char('q'), false)), Action::Quit);
    let mut next = snapshot();
    next.user.total.requests += 4;
    d.on_refresh(Ok(next), 10);
    assert_eq!(d.trend.len(), 2);
    assert_eq!(d.trend.request_deltas(), vec![4]);
    d.on_refresh(Err("offline".into()), 20);
    assert_eq!(d.trend.len(), 2);
    assert_eq!(d.snapshot.as_ref().unwrap().last_error.as_deref(), Some("offline"));
    let mut empty = Dashboard::start(None, 0);
    assert!(empty.trend.is_empty());
    empty.on_refresh(Err("offline".into()), 1);
    assert!(empty.snapshot.is_none() && empty.trend.is_empty());
}

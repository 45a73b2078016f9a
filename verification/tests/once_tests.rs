use crstop::model::{Health, Limits, ModelStat, Snapshot, UsageTotal, UserStats};
use crstop::ui::{
    ansi_status_color, limit_cost, limit_u64, plain_usage_bar, render_once_text, signed_cents, signed_compact,
    signed_count, sparkline_width, trend_height, trend_window_label, truncate, usage_bar, TREND_BUCKET_NANOS,
};
use crstop::amount::Dollars;

fn usd(cents: i64) -> Dollars {
    let sign = if cents < 0 { "-" } else { "" };
    let value: f64 = format!("{sign}{}.{:02}", cents.abs() / 100, cents.abs() % 100).parse().unwrap();
    Dollars::from_bits(value.to_bits()).unwrap()
}


fn sample_snapshot() -> Snapshot {
    Snapshot {
        health: Health {
            status: "healthy".into(),
            service: Some("relay-service".into()),
            version: Some("1.1.303".into()),
            redis_status: Some("healthy".into()),
        },
        user: UserStats {
            name: Some("demo-user".into()),
            is_active: true,
            is_activated: true,
            expires_at: None,
            permissions: vec!["openai".into()],
            total: UsageTotal {
                requests: 1_234,
                input_tokens: 500_000,
                output_tokens: 60_000,
                cache_read_tokens: 400_000,
                all_tokens: 960_000,
                cost: usd(4_210),
                formatted_cost: Some("$42.10".into()),
            },
            limits: Limits {
                daily_cost_limit: usd(2_000),
                total_cost_limit: usd(0),
                current_daily_cost: usd(250),
                current_total_cost: usd(4_210),
                concurrency_limit: 4,
                rate_limit_window: 0,
                rate_limit_requests: 0,
                rate_limit_cost: usd(0),
            },
        },
        daily: vec![
            ModelStat {
                model: "gpt-5.5".into(),
                requests: 12,
                input_tokens: 12_000,
                output_tokens: 3_000,
                cache_read_tokens: 8_000,
                all_tokens: 23_000,
                cost: usd(310),
                formatted_cost: Some("$3.10".into()),
            },
            ModelStat {
                model: "gpt-5.5-codex-with-a-very-long-name".into(),
                requests: 3,
                input_tokens: 1_500,
                output_tokens: 200,
                cache_read_tokens: 0,
                all_tokens: 1_700,
                cost: usd(45),
                formatted_cost: None,
            },
        ],
        monthly: vec![],
        pool_visible: false,
        last_error: None,
        fetched_at: "unix:1700000000".into(),
    }
}

#[test]
fn once_text_contains_btop_like_sections() {
    let snapshot = sample_snapshot();
    let text = render_once_text(&snapshot, "5", 100);

    assert!(text.contains("crstop"));
    assert!(text.contains("TOTAL"));
    assert!(text.contains("LIMITS"));
    assert!(text.contains("TODAY BY MODEL"));
    assert!(text.contains("MONTH BY MODEL"));
    assert!(text.contains("pool limits: not visible without admin token"));
    assert!(text.contains("gpt-5.5"));
    assert!(!text.contains("LIVE TREND"));
}

#[test]
fn once_text_uses_colored_dashboard_accents() {
    let snapshot = sample_snapshot();
    let text = render_once_text(&snapshot, "5", 100);

    assert!(text.contains("\u{1b}[38;5;45m"));
    assert!(text.contains("\u{1b}[38;5;82mOK"));
    assert!(text.contains("╭"));
    assert!(text.contains("╰"));
    assert!(text.contains("▰"));
}

#[test]
fn once_text_lines_are_laid_out_exactly() {
    let snapshot = sample_snapshot();
    let text = render_once_text(&snapshot, "0.5", 20);
    let lines: Vec<&str> = text.split('\n').collect();
    assert_eq!(
        lines[0],
        "\u{1b}[38;5;45m\u{1b}[1m╭─ crstop\u{1b}[0m  \u{1b}[38;5;82m▰ OK\u{1b}[0m  \u{1b}[38;5;244mCRS\u{1b}[0m: healthy  \u{1b}[38;5;244mv\u{1b}[0m1.1.303  \u{1b}[38;5;244mRedis\u{1b}[0m: healthy  \u{1b}[38;5;244mRefresh\u{1b}[0m: 0.5s  \u{1b}[38;5;244mLast\u{1b}[0m: unix:1700000000"
    );
    assert_eq!(lines[1], format!("\u{1b}[38;5;45m{}\u{1b}[0m", "─".repeat(60)));
    assert!(text.contains("  \u{1b}[38;5;244mRequests\u{1b}[0m      \u{1b}[38;5;39m1,234\u{1b}[0m\n"));
    assert!(text.contains(
        "  \u{1b}[38;5;244mDaily Cost\u{1b}[0m    $2.50 / $20.00  \u{1b}[38;5;45m▰▱▱▱▱▱▱▱  12%\u{1b}[0m\n"
    ));
    assert!(text.contains(
        "  \u{1b}[38;5;244mTotal Cost\u{1b}[0m    $42.10 / unlimited  \u{1b}[38;5;45m▰▰▰▰▰▰▰▰ unlimited\u{1b}[0m\n"
    ));
    assert!(text.contains("  \u{1b}[38;5;244mConcurrency\u{1b}[0m   4\n"));
    assert!(text.contains("  \u{1b}[38;5;244mRate Limit\u{1b}[0m    unlimited\n"));
    assert!(text.contains(
        "  \u{1b}[38;5;45mgpt-5.5   \u{1b}[0m    12    12.0K     3.0K       8.0K    23.0K \u{1b}[38;5;82m     $3.10\u{1b}[0m\n"
    ));
    assert!(text.contains(
        "  \u{1b}[38;5;45mgpt-5.5-c…\u{1b}[0m     3     1.5K      200          0     1.7K \u{1b}[38;5;82m     $0.45\u{1b}[0m\n"
    ));
    assert!(text.contains("  \u{1b}[38;5;244mno usage records\u{1b}[0m\n"));
    assert!(text.ends_with("  \u{1b}[38;5;244m•\u{1b}[0m pool limits: not visible without admin token\n"));
}

#[test]
fn usage_bar_rounds_to_eighths_and_percent() {
    assert_eq!(plain_usage_bar(usd(250), usd(2_000)), "▰▱▱▱▱▱▱▱  12%");
    assert_eq!(plain_usage_bar(usd(0), usd(2_000)), "▱▱▱▱▱▱▱▱   0%");
    assert_eq!(plain_usage_bar(usd(5_000), usd(2_000)), "▰▰▰▰▰▰▰▰ 100%");
    assert_eq!(plain_usage_bar(usd(-5), usd(2_000)), "▱▱▱▱▱▱▱▱   0%");
    assert_eq!(plain_usage_bar(usd(1_000), usd(2_000)), "▰▰▰▰▱▱▱▱  50%");
    assert_eq!(plain_usage_bar(usd(5), usd(0)), "▰▰▰▰▰▰▰▰ unlimited");
    assert_eq!(usage_bar(usd(950), usd(1_000)), "\u{1b}[38;5;220m▰▰▰▰▰▰▰▰  95%\u{1b}[0m");
    assert_eq!(usage_bar(usd(100), usd(1_000)), "\u{1b}[38;5;45m▰▱▱▱▱▱▱▱  10%\u{1b}[0m");
}

#[test]
fn usage_bar_rounds_the_double_share() {
    // $0.11 of $0.40: the double share lies just below 0.275.
    assert_eq!(plain_usage_bar(usd(11), usd(40)), "▰▰▱▱▱▱▱▱  27%");
    // $0.15 of $0.80: the double share lies just below 0.1875, so 1.5 cells round down.
    assert_eq!(plain_usage_bar(usd(15), usd(80)), "▰▱▱▱▱▱▱▱  19%");
    // $0.09 of $0.10: the double share lies below the double 0.9.
    assert_eq!(usage_bar(usd(9), usd(10)), "\u{1b}[38;5;45m▰▰▰▰▰▰▰▱  90%\u{1b}[0m");
    assert_eq!(usage_bar(usd(90), usd(100)), "\u{1b}[38;5;220m▰▰▰▰▰▰▰▱  90%\u{1b}[0m");
}

#[test]
fn trend_labels_and_sizes() {
    assert_eq!(trend_height(29), None);
    assert_eq!(trend_height(32), Some(7));
    assert_eq!(trend_height(60), Some(12));
    assert_eq!(trend_height(200), Some(18));
    assert_eq!(sparkline_width(40), 38);
    assert_eq!(sparkline_width(2), 1);
    assert_eq!(signed_count(Some(1_234)), "+1,234");
    assert_eq!(signed_count(None), "collecting");
    assert_eq!(signed_compact(Some(16_000)), "+16.0K");
    assert_eq!(signed_cents(Some(42)), "+$0.42");
    assert_eq!(signed_cents(Some(12_345)), "+$123.45");
    assert_eq!(signed_cents(Some(u64::MAX)), "+$184467440737095520.00");
    assert_eq!(signed_cents(None), "collecting");
    assert_eq!(trend_window_label(TREND_BUCKET_NANOS), "30s/b");
    assert_eq!(trend_window_label(120_000_000_000), "2m/b");
    assert_eq!(trend_window_label(1), "1s/b");
    assert_eq!(truncate("abcdef", 4), "abc…");
    assert_eq!(truncate("abc", 4), "abc");
    assert_eq!(truncate("abc", 0), "…");
    assert_eq!(limit_cost(usd(0)), "unlimited");
    assert_eq!(limit_cost(usd(1_999)), "$19.99");
    assert_eq!(limit_u64(0), "unlimited");
    assert_eq!(limit_u64(60), "60");
    assert_eq!(ansi_status_color("WARN"), "\u{1b}[38;5;220m");
    assert_eq!(ansi_status_color("FAIL"), "\u{1b}[38;5;196m");
}

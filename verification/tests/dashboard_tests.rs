use crstop::dashboard::{
    column_widths, level_tone, limits_panel, sparkline_window, status_line, table_layout,
    table_rows, table_titles, tone_rgb, total_panel, trend_column, PanelLine, Rgb, TableLayout,
    Tone,
};
use crstop::history::{Metric, TrendHistory};
use crstop::model::{Health, Limits, ModelStat, Snapshot, UsageTotal, UserStats};
use crstop::amount::Dollars;

fn usd(cents: i64) -> Dollars {
    let sign = if cents < 0 { "-" } else { "" };
    let value: f64 = format!("{sign}{}.{:02}", cents.abs() / 100, cents.abs() % 100).parse().unwrap();
    Dollars::from_bits(value.to_bits()).unwrap()
}


const SECOND: u64 = 1_000_000_000;

fn snapshot() -> Snapshot {
    Snapshot {
        health: Health {
            status: "healthy".into(),
            service: Some("relay-service".into()),
            version: Some("1.1.303".into()),
            redis_status: None,
        },
        user: UserStats {
            name: Some("demo-user".into()),
            is_active: true,
            is_activated: true,
            expires_at: None,
            permissions: vec!["openai".into()],
            total: UsageTotal {
                requests: 12345,
                input_tokens: 20,
                output_tokens: 30,
                cache_read_tokens: 40,
                all_tokens: 1_500_000,
                cost: usd(125),
                formatted_cost: None,
            },
            limits: Limits {
                daily_cost_limit: usd(1000),
                total_cost_limit: usd(0),
                current_daily_cost: usd(250),
                current_total_cost: usd(950),
                concurrency_limit: 3,
                rate_limit_window: 0,
                rate_limit_requests: 0,
                rate_limit_cost: usd(0),
            },
        },
        daily: vec![],
        monthly: vec![],
        pool_visible: false,
        last_error: None,
        fetched_at: "unix:7".into(),
    }
}

fn row(model: &str, cost: i64) -> ModelStat {
    ModelStat {
        model: model.into(),
        requests: 1200,
        input_tokens: 1,
        output_tokens: 2,
        cache_read_tokens: 3,
        all_tokens: 16_000,
        cost: usd(cost),
        formatted_cost: None,
    }
}

fn shown(lines: Vec<PanelLine>) -> Vec<(String, String, Tone)> {
    lines.into_iter().map(|l| (l.label, l.value, l.tone)).collect()
}

#[test]
fn tones_have_fixed_colors() {
    assert_eq!(tone_rgb(Tone::Green), Rgb { r: 0, g: 255, b: 135 });
    assert_eq!(tone_rgb(Tone::Red), Rgb { r: 255, g: 70, b: 70 });
    assert_eq!(tone_rgb(Tone::Label), Rgb { r: 145, g: 155, b: 170 });
    assert_eq!(level_tone("OK"), Tone::Green);
    assert_eq!(level_tone("WARN"), Tone::Yellow);
    assert_eq!(level_tone("FAIL"), Tone::Red);
}

#[test]
fn status_line_names_every_field() {
    assert_eq!(
        status_line(&snapshot(), "cr_abcd...wxyz", "0.5"),
        "CRS=healthy v1.1.303 Redis=- Key=cr_abcd...wxyz Refresh=0.5s Last=unix:7"
    );
}

#[test]
fn total_panel_lists_usage() {
    let lines = shown(total_panel(&snapshot()));
    assert_eq!(lines.len(), 6);
    assert_eq!(lines[0], ("Requests    ".to_string(), "12,345".to_string(), Tone::Blue));
    assert_eq!(lines[1], ("All Tokens  ".to_string(), "1,500,000".to_string(), Tone::Cyan));
    assert_eq!(lines[5], ("Cost        ".to_string(), "$1.25".to_string(), Tone::Green));
}

#[test]
fn limits_panel_shows_costs_against_limits() {
    let lines = shown(limits_panel(&snapshot()));
    assert_eq!(lines.len(), 5);
    assert_eq!(lines[0].0, "Daily Cost  ");
    assert_eq!(lines[0].1, "$2.50 / $10.00  ▰▰▱▱▱▱▱▱  25%");
    assert_eq!(lines[1].1, "$9.50 / unlimited  ▰▰▰▰▰▰▰▰ unlimited");
    assert_eq!(lines[2].1, "3");
    assert_eq!(lines[3].1, "unlimited");
    assert_eq!(
        lines[4],
        (
            "Pool Limits ".to_string(),
            "not visible without admin token".to_string(),
            Tone::Yellow
        )
    );
}

#[test]
fn model_table_keeps_the_twelve_costliest() {
    assert_eq!(table_titles(TableLayout::Brief), vec!["MODEL", "REQ", "ALL", "COST"]);
    assert_eq!(table_titles(TableLayout::Full).len(), 7);
    let rows: Vec<ModelStat> = (0..14).map(|i| row(&format!("m{i}"), i)).collect();
    let table = table_rows(&rows, TableLayout::Brief);
    assert_eq!(table.len(), 12);
    assert_eq!(table[0], vec!["m13", "1,200", "16.0K", "$0.13"]);
    assert_eq!(table[11][0], "m2");
    let detailed = table_rows(&vec![row("solo", 5)], TableLayout::Full);
    assert_eq!(detailed, vec![vec!["solo", "1,200", "1", "2", "3", "16.0K", "$0.05"]]);
    let medium = table_rows(&vec![row("solo", 5)], TableLayout::WithoutCache);
    assert_eq!(medium, vec![vec!["solo", "1,200", "1", "2", "16.0K", "$0.05"]]);
    assert!(table_rows(&vec![], TableLayout::Full).is_empty());
}

#[test]
fn detailed_tables_drop_cache_first_then_token_kinds() {
    // Inner widths of the day's table on terminals 140, 116 and 86 cells wide.
    assert_eq!(table_layout(true, 68), TableLayout::Full);
    assert_eq!(table_layout(true, 56), TableLayout::WithoutCache);
    assert_eq!(table_layout(true, 41), TableLayout::Narrow);
    assert_eq!(table_layout(true, 65), TableLayout::Full);
    assert_eq!(table_layout(true, 64), TableLayout::WithoutCache);
    assert_eq!(table_layout(true, 55), TableLayout::Narrow);
    assert_eq!(table_layout(false, 200), TableLayout::Brief);
    assert_eq!(
        table_titles(TableLayout::WithoutCache),
        vec!["MODEL", "REQ", "INPUT", "OUTPUT", "ALL", "COST"]
    );
    assert_eq!(table_titles(TableLayout::Narrow), vec!["MODEL", "REQ", "ALL", "COST"]);
    assert_eq!(column_widths(TableLayout::Full), vec![10, 7, 8, 8, 8, 8, 10]);
    assert_eq!(column_widths(TableLayout::Brief), vec![16, 7, 10, 10]);
}

#[test]
fn trend_column_titles_sum_the_bars() {
    let mut history = TrendHistory::new(100);
    for i in 0..7u64 {
        let mut s = snapshot();
        s.user.total.requests = 1000 + i * 2;
        s.user.total.all_tokens = 5000 + i * 1000;
        s.user.total.cost = usd(100 + (i as i64) * 7);
        history.push_snapshot(&s, i * 30 * SECOND);
    }
    let req = trend_column(&history, Metric::Requests, 20, 60 * SECOND).unwrap();
    assert_eq!(req.bars, vec![2, 4, 4]);
    assert_eq!(req.title, " REQ 1m/b +10 ");
    assert_eq!(req.tone, Tone::Blue);
    let tokens = trend_column(&history, Metric::Tokens, 20, 60 * SECOND).unwrap();
    assert_eq!(tokens.title, " TOKENS 1m/b +5.0K ");
    let cost = trend_column(&history, Metric::CostCents, 20, 60 * SECOND).unwrap();
    assert_eq!(cost.title, " COST 1m/b +$0.35 ");
    let narrow = trend_column(&history, Metric::Requests, 3, 30 * SECOND).unwrap();
    assert_eq!(narrow.bars, vec![2]);
    assert_eq!(narrow.title, " REQ 30s/b +2 ");
}

#[test]
fn trend_columns_that_overflow_are_refused() {
    let mut history = TrendHistory::new(16);
    for (i, requests) in [0, u64::MAX, 0, u64::MAX, u64::MAX].into_iter().enumerate() {
        let mut s = snapshot();
        s.user.total.requests = requests;
        let at = if i == 4 { 31 * SECOND } else { i as u64 * SECOND };
        history.push_snapshot(&s, at);
    }
    assert!(history.checked_time_buckets(Metric::Requests, 4, 30 * SECOND).is_none());
    assert!(trend_column(&history, Metric::Requests, 20, 30 * SECOND).is_none());
    // Tokens did not grow, so their column is still drawn.
    let tokens = trend_column(&history, Metric::Tokens, 20, 30 * SECOND).unwrap();
    assert_eq!(tokens.bars, vec![0]);
    assert_eq!(TrendHistory::checked_sum(&vec![u64::MAX, 1]), None);
    assert_eq!(TrendHistory::checked_sum(&vec![u64::MAX - 1, 1]), Some(u64::MAX));
}

#[test]
fn sparkline_bars_end_at_the_right_edge() {
    // Five bars in a ten-cell column ending at x = 40: drawn from x = 35.
    assert_eq!(sparkline_window(5, 10, 40), (0, 35));
    // Fifteen bars in ten cells: the latest ten, from x = 30.
    assert_eq!(sparkline_window(15, 10, 40), (5, 30));
    assert_eq!(sparkline_window(3, 10, 2), (0, 0));
    assert_eq!(sparkline_window(0, 10, 40), (0, 40));
}

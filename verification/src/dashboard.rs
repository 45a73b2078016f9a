//! What the full-screen dashboard shows: the texts, rows and colors of its panels.
//! Drawing them is left to the terminal front end.
use vstd::prelude::*;
use crate::format::{comma, comma_spec, compact_number, compact_spec, display_cost, display_cost_spec, sort_by_cost, sorted_models};
use crate::amount::{dollars, dollars_spec, Dollars};
use crate::history::{bars_fit, seq_sum, time_buckets_spec, Metric, TrendHistory};
use crate::model::{Limits, ModelStat, Snapshot, UserStats};
use crate::text::{decimal, pad_right, push_pad_right, str_eq, views};
use crate::ui::{
    limit_cost, limit_cost_spec, limit_u64, limit_u64_spec, or_dash, plain_bar_spec, plain_usage_bar,
    plus_cents_spec, signed_cents, signed_compact, signed_count, sparkline_width, trend_label_spec,
    trend_window_label,
};

verus! {

/// A 24-bit color.
#[derive(Clone, Copy, Debug, PartialEq, Eq, Structural)]
pub struct Rgb {
    pub r: u8,
    pub g: u8,
    pub b: u8,
}

/// The colors of the dashboard.
#[derive(Clone, Copy, Debug, PartialEq, Eq, Structural)]
pub enum Tone {
    Green,
    Yellow,
    Red,
    Cyan,
    Blue,
    Lavender,
    Pink,
    Mint,
    Purple,
    Text,
    Label,
    White,
}

/// The red, green and blue of a tone.
pub open spec fn tone_rgb_spec(t: Tone) -> Rgb {
    match t {
        Tone::Green => Rgb { r: 0, g: 255, b: 135 },
        Tone::Yellow => Rgb { r: 255, g: 216, b: 0 },
        Tone::Red => Rgb { r: 255, g: 70, b: 70 },
        Tone::Cyan => Rgb { r: 0, g: 215, b: 255 },
        Tone::Blue => Rgb { r: 60, g: 160, b: 255 },
        Tone::Lavender => Rgb { r: 180, g: 180, b: 255 },
        Tone::Pink => Rgb { r: 255, g: 140, b: 200 },
        Tone::Mint => Rgb { r: 0, g: 255, b: 180 },
        Tone::Purple => Rgb { r: 190, g: 120, b: 255 },
        Tone::Text => Rgb { r: 220, g: 225, b: 235 },
        Tone::Label => Rgb { r: 145, g: 155, b: 170 },
        Tone::White => Rgb { r: 255, g: 255, b: 255 },
    }
}

/// The red, green and blue of a tone.
pub fn tone_rgb(t: Tone) -> (c: Rgb)
    ensures
        c == tone_rgb_spec(t),
{
    match t {
        Tone::Green => Rgb { r: 0, g: 255, b: 135 },
        Tone::Yellow => Rgb { r: 255, g: 216, b: 0 },
        Tone::Red => Rgb { r: 255, g: 70, b: 70 },
        Tone::Cyan => Rgb { r: 0, g: 215, b: 255 },
        Tone::Blue => Rgb { r: 60, g: 160, b: 255 },
        Tone::Lavender => Rgb { r: 180, g: 180, b: 255 },
        Tone::Pink => Rgb { r: 255, g: 140, b: 200 },
        Tone::Mint => Rgb { r: 0, g: 255, b: 180 },
        Tone::Purple => Rgb { r: 190, g: 120, b: 255 },
        Tone::Text => Rgb { r: 220, g: 225, b: 235 },
        Tone::Label => Rgb { r: 145, g: 155, b: 170 },
        Tone::White => Rgb { r: 255, g: 255, b: 255 },
    }
}

/// The tone of a status level: green for `OK`, yellow for `WARN`, red otherwise.
pub open spec fn level_tone_spec(level: Seq<char>) -> Tone {
    if level == "OK"@ {
        Tone::Green
    } else if level == "WARN"@ {
        Tone::Yellow
    } else {
        Tone::Red
    }
}

/// The tone of a status level.
pub fn level_tone(level: &str) -> (t: Tone)
    ensures
        t == level_tone_spec(level@),
{
    if str_eq(level, "OK") {
        Tone::Green
    } else if str_eq(level, "WARN") {
        Tone::Yellow
    } else {
        Tone::Red
    }
}

/// The status line at the top of the dashboard.
pub open spec fn status_line_spec(s: Snapshot, masked_key: Seq<char>, refresh: Seq<char>) -> Seq<char> {
    "CRS="@ + s.health.status@ + " v"@ + or_dash(s.health.version) + " Redis="@ + or_dash(
        s.health.redis_status,
    ) + " Key="@ + masked_key + " Refresh="@ + refresh + "s Last="@ + s.fetched_at@
}

fn push_or_dash(out: &mut String, v: &Option<String>)
    ensures
        final(out)@ == old(out)@ + or_dash(*v),
{
    match v {
        Some(x) => out.append(x.as_str()),
        None => out.append("-"),
    }
}

/// The status line at the top of the dashboard: service status, version, Redis,
/// the masked key, the refresh interval (as shown) and when the snapshot was taken.
pub fn status_line(snapshot: &Snapshot, masked_key: &str, refresh: &str) -> (r: String)
    ensures
        r@ == status_line_spec(*snapshot, masked_key@, refresh@),
{
    let mut r = "CRS=".to_owned();
    r.append(snapshot.health.status.as_str());
    r.append(" v");
    push_or_dash(&mut r, &snapshot.health.version);
    r.append(" Redis=");
    push_or_dash(&mut r, &snapshot.health.redis_status);
    r.append(" Key=");
    r.append(masked_key);
    r.append(" Refresh=");
    r.append(refresh);
    r.append("s Last=");
    r.append(snapshot.fetched_at.as_str());
    r
}

/// A labelled value of a panel: the label padded to twelve characters, the value,
/// and the value's tone.
pub struct PanelLine {
    pub label: String,
    pub value: String,
    pub tone: Tone,
}

/// What a panel line shows.
pub open spec fn line_view(l: PanelLine) -> (Seq<char>, Seq<char>, Tone) {
    (l.label@, l.value@, l.tone)
}

/// What the panel lines show, in order.
pub open spec fn lines_view(lines: Seq<PanelLine>) -> Seq<(Seq<char>, Seq<char>, Tone)> {
    lines.map_values(|l: PanelLine| line_view(l))
}

/// A line of `name` (padded to twelve characters) and `value`.
pub open spec fn entry(name: Seq<char>, value: Seq<char>, tone: Tone) -> (Seq<char>, Seq<char>, Tone) {
    (pad_right(name, 12), value, tone)
}

fn panel_line(name: &str, value: String, tone: Tone) -> (l: PanelLine)
    ensures
        line_view(l) == entry(name@, value@, tone),
{
    let mut label = String::new();
    push_pad_right(&mut label, name, 12);
    assert(label@ =~= pad_right(name@, 12));
    PanelLine { label, value, tone }
}

/// The lines of the `TOTAL` panel.
pub open spec fn total_panel_spec(s: Snapshot) -> Seq<(Seq<char>, Seq<char>, Tone)> {
    let t = s.user.total;
    seq![
        entry("Requests"@, comma_spec(t.requests as nat), Tone::Blue),
        entry("All Tokens"@, comma_spec(t.all_tokens as nat), Tone::Cyan),
        entry("Input"@, comma_spec(t.input_tokens as nat), Tone::Lavender),
        entry("Output"@, comma_spec(t.output_tokens as nat), Tone::Pink),
        entry("Cache Read"@, comma_spec(t.cache_read_tokens as nat), Tone::Mint),
        entry("Cost"@, display_cost_spec(t.cost@, t.formatted_cost), Tone::Green),
    ]
}

/// The lines of the `TOTAL` panel: requests, tokens by kind, and cost.
pub fn total_panel(snapshot: &Snapshot) -> (r: Vec<PanelLine>)
    ensures
        lines_view(r@) == total_panel_spec(*snapshot),
{
    let t = &snapshot.user.total;
    let mut r: Vec<PanelLine> = Vec::new();
    r.push(panel_line("Requests", comma(t.requests), Tone::Blue));
    r.push(panel_line("All Tokens", comma(t.all_tokens), Tone::Cyan));
    r.push(panel_line("Input", comma(t.input_tokens), Tone::Lavender));
    r.push(panel_line("Output", comma(t.output_tokens), Tone::Pink));
    r.push(panel_line("Cache Read", comma(t.cache_read_tokens), Tone::Mint));
    r.push(panel_line("Cost", display_cost(t.cost, &t.formatted_cost), Tone::Green));
    assert(lines_view(r@) =~= total_panel_spec(*snapshot));
    r
}

/// A cost against its limit: spent, the limit, and the usage bar.
pub open spec fn cost_against_spec(current: u64, limit: u64) -> Seq<char> {
    dollars_spec(current) + " / "@ + limit_cost_spec(limit) + "  "@ + plain_bar_spec(current, limit)
}

fn cost_against(current: Dollars, limit: Dollars) -> (r: String)
    ensures
        r@ == cost_against_spec(current@, limit@),
{
    let mut r = dollars(current);
    r.append(" / ");
    r.append(limit_cost(limit).as_str());
    r.append("  ");
    r.append(plain_usage_bar(current, limit).as_str());
    r
}

/// The lines of the `LIMITS` panel.
pub open spec fn limits_panel_spec(s: Snapshot) -> Seq<(Seq<char>, Seq<char>, Tone)> {
    let l = s.user.limits;
    seq![
        entry("Daily Cost"@, cost_against_spec(l.current_daily_cost@, l.daily_cost_limit@), Tone::Green),
        entry("Total Cost"@, cost_against_spec(l.current_total_cost@, l.total_cost_limit@), Tone::Cyan),
        entry("Concurrency"@, limit_u64_spec(l.concurrency_limit as nat), Tone::Yellow),
        entry("Rate Limit"@, limit_u64_spec(l.rate_limit_requests as nat), Tone::Yellow),
        entry(
            "Pool Limits"@,
            if s.pool_visible {
                "visible"@
            } else {
                "not visible without admin token"@
            },
            Tone::Yellow,
        ),
    ]
}

/// The lines of the `LIMITS` panel: the daily and the total cost against their
/// limits, the concurrency and rate limits, and whether pool limits are visible.
pub fn limits_panel(snapshot: &Snapshot) -> (r: Vec<PanelLine>)
    ensures
        lines_view(r@) == limits_panel_spec(*snapshot),
{
    let l = &snapshot.user.limits;
    let mut r: Vec<PanelLine> = Vec::new();
    r.push(panel_line("Daily Cost", cost_against(l.current_daily_cost, l.daily_cost_limit), Tone::Green));
    r.push(panel_line("Total Cost", cost_against(l.current_total_cost, l.total_cost_limit), Tone::Cyan));
    r.push(panel_line("Concurrency", limit_u64(l.concurrency_limit), Tone::Yellow));
    r.push(panel_line("Rate Limit", limit_u64(l.rate_limit_requests), Tone::Yellow));
    let pool = if snapshot.pool_visible {
        "visible".to_owned()
    } else {
        "not visible without admin token".to_owned()
    };
    r.push(panel_line("Pool Limits", pool, Tone::Yellow));
    assert(lines_view(r@) =~= limits_panel_spec(*snapshot));
    r
}

/// The `LIMITS` panel shows, on its third and fourth lines, the concurrency limit
/// and the number of requests of the rate limit, each `unlimited` where it is zero
/// and its decimal otherwise; the rate limit's window does not change the panel.
pub proof fn law_limits_panel_counts(s: Snapshot, window: u64)
    ensures
        limits_panel_spec(s).len() == 5,
        limits_panel_spec(s)[2] == (
            pad_right("Concurrency"@, 12),
            if s.user.limits.concurrency_limit == 0 {
                "unlimited"@
            } else {
                decimal(s.user.limits.concurrency_limit as nat)
            },
            Tone::Yellow,
        ),
        limits_panel_spec(s)[3] == (
            pad_right("Rate Limit"@, 12),
            if s.user.limits.rate_limit_requests == 0 {
                "unlimited"@
            } else {
                decimal(s.user.limits.rate_limit_requests as nat)
            },
            Tone::Yellow,
        ),
        limits_panel_spec(
            Snapshot {
                user: UserStats {
                    limits: Limits { rate_limit_window: window, ..s.user.limits },
                    ..s.user
                },
                ..s
            },
        ) == limits_panel_spec(s),
{
}

/// Which columns a model table shows. A detailed table shows every column where
/// they fit, drops the cache column first where they do not, and keeps only the
/// model, requests, all tokens and cost where even that does not fit; a brief
/// table always shows those four, with a wider model column.
#[derive(Clone, Copy, Debug, PartialEq, Eq, Structural)]
pub enum TableLayout {
    Full,
    WithoutCache,
    Narrow,
    Brief,
}

/// The widths of the columns of a layout (the first, the model's, is a minimum).
pub open spec fn column_widths_spec(layout: TableLayout) -> Seq<u16> {
    match layout {
        TableLayout::Full => seq![10u16, 7, 8, 8, 8, 8, 10],
        TableLayout::WithoutCache => seq![10u16, 7, 8, 8, 8, 10],
        TableLayout::Narrow => seq![10u16, 7, 8, 10],
        TableLayout::Brief => seq![16u16, 7, 10, 10],
    }
}

/// The cells a layout needs: its columns and a space between each two.
pub open spec fn required_width(layout: TableLayout) -> nat {
    match layout {
        TableLayout::Full => 10 + 7 + 8 + 8 + 8 + 8 + 10 + 6,
        TableLayout::WithoutCache => 10 + 7 + 8 + 8 + 8 + 10 + 5,
        TableLayout::Narrow => 10 + 7 + 8 + 10 + 3,
        TableLayout::Brief => 16 + 7 + 10 + 10 + 3,
    }
}

/// The layout of a table `inner_width` cells wide.
pub open spec fn table_layout_spec(detailed: bool, inner_width: nat) -> TableLayout {
    if !detailed {
        TableLayout::Brief
    } else if required_width(TableLayout::Full) <= inner_width {
        TableLayout::Full
    } else if required_width(TableLayout::WithoutCache) <= inner_width {
        TableLayout::WithoutCache
    } else {
        TableLayout::Narrow
    }
}

/// The layout of a detailed or brief table `inner_width` cells wide.
pub fn table_layout(detailed: bool, inner_width: u16) -> (l: TableLayout)
    ensures
        l == table_layout_spec(detailed, inner_width as nat),
        detailed && required_width(TableLayout::Narrow) <= inner_width ==> required_width(l) <= inner_width,
{
    if !detailed {
        TableLayout::Brief
    } else if 65 <= inner_width {
        TableLayout::Full
    } else if 56 <= inner_width {
        TableLayout::WithoutCache
    } else {
        TableLayout::Narrow
    }
}

/// The widths of the columns of a layout.
pub fn column_widths(layout: TableLayout) -> (w: Vec<u16>)
    ensures
        w@ == column_widths_spec(layout),
{
    let w = match layout {
        TableLayout::Full => vec![10u16, 7, 8, 8, 8, 8, 10],
        TableLayout::WithoutCache => vec![10u16, 7, 8, 8, 8, 10],
        TableLayout::Narrow => vec![10u16, 7, 8, 10],
        TableLayout::Brief => vec![16u16, 7, 10, 10],
    };
    assert(w@ =~= column_widths_spec(layout));
    w
}

/// The column titles of a layout.
pub open spec fn table_titles_spec(layout: TableLayout) -> Seq<Seq<char>> {
    match layout {
        TableLayout::Full => seq!["MODEL"@, "REQ"@, "INPUT"@, "OUTPUT"@, "CACHE"@, "ALL"@, "COST"@],
        TableLayout::WithoutCache => seq!["MODEL"@, "REQ"@, "INPUT"@, "OUTPUT"@, "ALL"@, "COST"@],
        _ => seq!["MODEL"@, "REQ"@, "ALL"@, "COST"@],
    }
}

/// The column titles of a layout.
pub fn table_titles(layout: TableLayout) -> (r: Vec<String>)
    ensures
        views(r@) == table_titles_spec(layout),
{
    let mut r: Vec<String> = Vec::new();
    r.push("MODEL".to_owned());
    r.push("REQ".to_owned());
    match layout {
        TableLayout::Full => {
            r.push("INPUT".to_owned());
            r.push("OUTPUT".to_owned());
            r.push("CACHE".to_owned());
        },
        TableLayout::WithoutCache => {
            r.push("INPUT".to_owned());
            r.push("OUTPUT".to_owned());
        },
        _ => {},
    }
    r.push("ALL".to_owned());
    r.push("COST".to_owned());
    assert(views(r@) =~= table_titles_spec(layout));
    r
}

/// The cells of a model's row in a table of the given layout.
pub open spec fn row_cells_spec(m: ModelStat, layout: TableLayout) -> Seq<Seq<char>> {
    let model = m.model@;
    let requests = comma_spec(m.requests as nat);
    let all = compact_spec(m.all_tokens as nat);
    let cost = display_cost_spec(m.cost@, m.formatted_cost);
    match layout {
        TableLayout::Full => seq![
            model,
            requests,
            compact_spec(m.input_tokens as nat),
            compact_spec(m.output_tokens as nat),
            compact_spec(m.cache_read_tokens as nat),
            all,
            cost,
        ],
        TableLayout::WithoutCache => seq![
            model,
            requests,
            compact_spec(m.input_tokens as nat),
            compact_spec(m.output_tokens as nat),
            all,
            cost,
        ],
        _ => seq![model, requests, all, cost],
    }
}

fn row_cells(m: &ModelStat, layout: TableLayout) -> (r: Vec<String>)
    ensures
        views(r@) == row_cells_spec(*m, layout),
{
    let mut r: Vec<String> = Vec::new();
    r.push(m.model.clone());
    r.push(comma(m.requests));
    match layout {
        TableLayout::Full => {
            r.push(compact_number(m.input_tokens));
            r.push(compact_number(m.output_tokens));
            r.push(compact_number(m.cache_read_tokens));
        },
        TableLayout::WithoutCache => {
            r.push(compact_number(m.input_tokens));
            r.push(compact_number(m.output_tokens));
        },
        _ => {},
    }
    r.push(compact_number(m.all_tokens));
    r.push(display_cost(m.cost, &m.formatted_cost));
    assert(views(r@) =~= row_cells_spec(*m, layout));
    r
}

/// Every layout has as many widths as titles, and every row as many cells.
pub proof fn law_table_columns_agree(layout: TableLayout, m: ModelStat)
    ensures
        column_widths_spec(layout).len() == table_titles_spec(layout).len(),
        row_cells_spec(m, layout).len() == table_titles_spec(layout).len(),
        required_width(layout) == column_total(column_widths_spec(layout)) + column_widths_spec(layout).len() - 1,
{
    reveal_with_fuel(column_total, 8);
}

/// The sum of column widths.
pub open spec fn column_total(w: Seq<u16>) -> nat
    decreases w.len(),
{
    if w.len() == 0 {
        0
    } else {
        column_total(w.drop_last()) + w.last() as nat
    }
}

/// How many rows a model table shows at most.
pub const TABLE_ROWS: usize = 12;

/// The rows of a model table: the costliest models first, at most `TABLE_ROWS` of
/// them, each as its cells.
pub fn table_rows(rows: &Vec<ModelStat>, layout: TableLayout) -> (r: Vec<Vec<String>>)
    ensures
        r@.len() == if rows@.len() < TABLE_ROWS { rows@.len() } else { TABLE_ROWS as nat },
        forall|i: int|
            0 <= i < r@.len() ==> views(#[trigger] r@[i]@) == row_cells_spec(sort_by_cost(rows@)[i], layout),
{
    let sorted = sorted_models(rows.as_slice());
    proof {
        broadcast use vstd::seq_lib::group_to_multiset_ensures;

        crate::format::law_sorted_models_is_ordered_permutation(rows@);
        assert(sorted@.to_multiset().len() == rows@.to_multiset().len());
    }
    let n: usize = if sorted.len() < TABLE_ROWS { sorted.len() } else { TABLE_ROWS };
    let mut r: Vec<Vec<String>> = Vec::new();
    let mut i: usize = 0;
    while i < n
        invariant
            0 <= i <= n <= sorted@.len(),
            r@.len() == i,
            forall|k: int| 0 <= k < i ==> views(#[trigger] r@[k]@) == row_cells_spec(sorted@[k], layout),
        decreases n - i,
    {
        r.push(row_cells(&sorted[i], layout));
        i = i + 1;
    }
    r
}

/// The name of a metric in the trend panel.
pub open spec fn metric_name_spec(metric: Metric) -> Seq<char> {
    match metric {
        Metric::Requests => "REQ"@,
        Metric::Tokens => "TOKENS"@,
        Metric::CostCents => "COST"@,
    }
}

/// The tone of a metric in the trend panel.
pub open spec fn metric_tone_spec(metric: Metric) -> Tone {
    match metric {
        Metric::Requests => Tone::Blue,
        Metric::Tokens => Tone::Cyan,
        Metric::CostCents => Tone::Green,
    }
}

/// The growth of a metric as its column title shows it: requests in full, tokens in
/// short form, cents as dollars.
pub open spec fn growth_text_spec(metric: Metric, total: nat) -> Seq<char> {
    match metric {
        Metric::Requests => "+"@ + comma_spec(total),
        Metric::Tokens => "+"@ + compact_spec(total),
        Metric::CostCents => plus_cents_spec(total),
    }
}

/// How many bars fit in a trend column `width` cells wide.
pub open spec fn bars_for_width(width: nat) -> nat {
    if width <= 3 {
        1
    } else {
        (width - 2) as nat
    }
}

/// The title of a trend column: the metric, the width of a bar, and the growth that
/// the bars add up to.
pub open spec fn trend_title_spec(metric: Metric, bucket_nanos: nat, total: nat) -> Seq<char> {
    " "@ + metric_name_spec(metric) + " "@ + trend_label_spec(bucket_nanos) + " "@ + growth_text_spec(
        metric,
        total,
    ) + " "@
}

/// One column of the live-trend panel: its title, its bars and their tone.
pub struct TrendColumn {
    pub title: String,
    pub bars: Vec<u64>,
    pub tone: Tone,
}

/// The live-trend column of `metric` in a column `width` cells wide, with bars of
/// `bucket_nanos` nanoseconds; nothing where the growth of a bar, or the bars' total
/// in the title, does not fit in a `u64`.
pub fn trend_column(trend: &TrendHistory, metric: Metric, width: u16, bucket_nanos: u64) -> (r: Option<
    TrendColumn,
>)
    ensures
        r is Some <==> (bars_fit(trend@, metric, bars_for_width(width as nat), bucket_nanos as nat)
            && seq_sum(time_buckets_spec(trend@, metric, bars_for_width(width as nat), bucket_nanos as nat))
            <= u64::MAX),
        r matches Some(c) ==> {
            &&& c.bars@ == time_buckets_spec(trend@, metric, bars_for_width(width as nat), bucket_nanos as nat)
            &&& c.title@ == trend_title_spec(metric, bucket_nanos as nat, seq_sum(c.bars@))
            &&& c.tone == metric_tone_spec(metric)
        },
{
    let max_bars = sparkline_width(width);
    let bars = match trend.checked_time_buckets(metric, max_bars, bucket_nanos) {
        Some(b) => b,
        None => return None,
    };
    let total = match TrendHistory::checked_sum(&bars) {
        Some(t) => t,
        None => return None,
    };
    let (name, growth, tone) = match metric {
        Metric::Requests => ("REQ", signed_count(Some(total)), Tone::Blue),
        Metric::Tokens => ("TOKENS", signed_compact(Some(total)), Tone::Cyan),
        Metric::CostCents => ("COST", signed_cents(Some(total)), Tone::Green),
    };
    let mut title = " ".to_owned();
    title.append(name);
    title.append(" ");
    title.append(trend_window_label(bucket_nanos).as_str());
    title.append(" ");
    title.append(growth.as_str());
    title.append(" ");
    Some(TrendColumn { title, bars, tone })
}

/// Where a sparkline's bars go: of `len` bars, those from index `start` on are
/// drawn (the latest that fit in `columns` cells), the first of them in column
/// `x0`, so that the latest bar sits just left of the right edge `right`.
pub fn sparkline_window(len: usize, columns: u16, right: u16) -> (r: (usize, u16))
    ensures
        r.0 == (if len > columns { len - columns } else { 0 }),
        r.1 == (if right >= len - r.0 { right - (len - r.0) } else { 0 }),
        len - r.0 <= columns,
{
    let start: usize = if len > columns as usize { len - columns as usize } else { 0 };
    let shown: u16 = (len - start) as u16;
    let x0: u16 = if right >= shown { right - shown } else { 0 };
    (start, x0)
}

} // verus!

use vstd::prelude::*;
use crate::app::{build_status, level_spec, messages_spec};
use crate::binary64::{
    hundredths, hundredths_exec, int_as_double, int_as_double_exec, at_least, lemma_pow2_52_53, one, round_half_up, round_half_up_exec, round_to_even,
    round_to_even_exec, times, times_exec,
};
use vstd::arithmetic::power2::{
    lemma2_to64, lemma_pow2_adds, lemma_pow2_pos, lemma_pow2_strictly_increases, pow2,
};
use crate::format::{comma, comma_spec, compact_number, compact_spec, display_cost, display_cost_spec, sort_by_cost, sorted_models, cost_descending, law_sorted_models_is_ordered_permutation};
use crate::amount::{
    cost_is_near, cost_near, cost_ratio, cost_ratio_exec, dollars, dollars_spec, is_positive,
    is_positive_exec, share_is_negative_zero, share_is_negative_zero_exec, Dollars,
};
use crate::model::{ModelStat, Snapshot};
use crate::text::{
    char_run, chars_of, decimal, pad_left, pad_right, push_char, push_decimal, push_decimal_wide, push_pad_left,
    push_pad_right, push_run, str_eq, views,
};

verus! {

pub const ANSI_RESET: &'static str = "\x1b[0m";
pub const ANSI_CYAN: &'static str = "\x1b[38;5;45m";
pub const ANSI_GREEN: &'static str = "\x1b[38;5;82m";
pub const ANSI_YELLOW: &'static str = "\x1b[38;5;220m";
pub const ANSI_RED: &'static str = "\x1b[38;5;196m";
pub const ANSI_PURPLE: &'static str = "\x1b[38;5;141m";
pub const ANSI_BLUE: &'static str = "\x1b[38;5;39m";
pub const ANSI_DIM: &'static str = "\x1b[38;5;244m";
pub const ANSI_BOLD: &'static str = "\x1b[1m";

/// The width of one live-trend bar, in nanoseconds (thirty seconds).
pub const TREND_BUCKET_NANOS: u64 = 30_000_000_000;

/// The color of a status level: green for `OK`, yellow for `WARN`, red otherwise.
pub open spec fn status_color_spec(level: Seq<char>) -> Seq<char> {
    if level == "OK"@ {
        ANSI_GREEN@
    } else if level == "WARN"@ {
        ANSI_YELLOW@
    } else {
        ANSI_RED@
    }
}

/// The color of a status level.
pub fn ansi_status_color(level: &str) -> (c: &'static str)
    ensures
        c@ == status_color_spec(level@),
{
    if str_eq(level, "OK") {
        ANSI_GREEN
    } else if str_eq(level, "WARN") {
        ANSI_YELLOW
    } else {
        ANSI_RED
    }
}

/// At most `width` characters of `value`; a cut value ends in `…`.
pub open spec fn truncate_spec(value: Seq<char>, width: nat) -> Seq<char> {
    if value.len() <= width {
        value
    } else {
        value.take(if width == 0 { 0 } else { width - 1 }) + seq!['…']
    }
}

/// At most `width` characters of `value`; a cut value ends in `…`.
pub fn truncate(value: &str, width: usize) -> (r: String)
    ensures
        r@ == truncate_spec(value@, width as nat),
{
    let chars = chars_of(value);
    if chars.len() <= width {
        return value.to_owned();
    }
    let keep: usize = if width == 0 { 0 } else { width - 1 };
    let mut r = crate::text::string_of(&chars, 0, keep);
    push_char(&mut r, '…');
    assert(chars@.subrange(0, keep as int) =~= value@.take(keep as int));
    r
}

/// A cost limit as shown: `unlimited` for zero or less, else dollars.
pub open spec fn limit_cost_spec(limit: u64) -> Seq<char> {
    if !is_positive(limit) {
        "unlimited"@
    } else {
        dollars_spec(limit)
    }
}

/// A cost limit as shown.
pub fn limit_cost(limit: Dollars) -> (r: String)
    ensures
        r@ == limit_cost_spec(limit@),
{
    if !is_positive_exec(limit) {
        "unlimited".to_owned()
    } else {
        dollars(limit)
    }
}

/// A count limit as shown: `unlimited` for zero, else the number.
pub open spec fn limit_u64_spec(value: nat) -> Seq<char> {
    if value == 0 {
        "unlimited"@
    } else {
        decimal(value)
    }
}

/// A count limit as shown.
pub fn limit_u64(value: u64) -> (r: String)
    ensures
        r@ == limit_u64_spec(value as nat),
{
    if value == 0 {
        "unlimited".to_owned()
    } else {
        crate::text::decimal_string(value)
    }
}

/// How many of the eight bar cells a cost fills: its share of the limit (the
/// double `cost_ratio`, at most `1.0`) times eight, rounded halves up; none for a
/// cost of zero or less.
pub open spec fn bar_fill(current: u64, limit: u64) -> nat
    recommends
        is_positive(limit),
{
    if !is_positive(current) {
        0
    } else {
        let r = cost_ratio(current, limit);
        if at_least(r, one()) {
            8
        } else {
            round_half_up((r.0, r.1 + 3))
        }
    }
}

/// A cost's share of its limit in percent, as `{:.0}` prints the double product of
/// the share (at most `1.0`) and 100; zero for a cost of zero or less.
pub open spec fn bar_percent(current: u64, limit: u64) -> nat
    recommends
        is_positive(limit),
{
    if !is_positive(current) {
        0
    } else {
        let r = cost_ratio(current, limit);
        if at_least(r, one()) {
            100
        } else {
            round_to_even(times(r, 100))
        }
    }
}

/// The percent as `{:.0}` prints it: `-0` where the share is the double `-0.0`.
pub open spec fn percent_text(current: u64, limit: u64) -> Seq<char> {
    if share_is_negative_zero(current, limit) {
        "-0"@
    } else {
        decimal(bar_percent(current, limit))
    }
}

/// The usage bar of a cost and its limit, without color.
pub open spec fn plain_bar_spec(current: u64, limit: u64) -> Seq<char> {
    if !is_positive(limit) {
        "▰▰▰▰▰▰▰▰ unlimited"@
    } else {
        let filled = bar_fill(current, limit);
        char_run('▰', filled) + char_run('▱', (8 - filled) as nat) + seq![' '] + pad_left(
            percent_text(current, limit),
            3,
        ) + seq!['%']
    }
}

/// The usage bar, yellow from nine tenths of the limit on, else cyan.
pub open spec fn usage_bar_spec(current: u64, limit: u64) -> Seq<char> {
    (if cost_near(current, limit) {
        ANSI_YELLOW@
    } else {
        ANSI_CYAN@
    }) + plain_bar_spec(current, limit) + ANSI_RESET@
}

/// The usage bar of a cost and its limit, without color.
pub fn plain_usage_bar(current: Dollars, limit: Dollars) -> (r: String)
    ensures
        r@ == plain_bar_spec(current@, limit@),
{
    if !is_positive_exec(limit) {
        return "▰▰▰▰▰▰▰▰ unlimited".to_owned();
    }
    let filled: usize;
    let percent: u128;
    if !is_positive_exec(current) {
        filled = 0;
        percent = 0;
    } else {
        let (m, e) = cost_ratio_exec(current, limit);
        proof {
            lemma_pow2_52_53();
        }
        if e > -52 || (e == -52 && m >= 0x10_0000_0000_0000) {
            filled = 8;
            percent = 100;
        } else {
            let f = round_half_up_exec(m, e + 3);
            proof {
                lemma_fill_at_most_eight(m as nat, (-(e + 3)) as nat);
            }
            filled = f as usize;
            let (pm, pe) = times_exec(m, e, 100);
            percent = round_to_even_exec(pm, pe);
        }
    }
    let mut digits = String::new();
    if share_is_negative_zero_exec(current, limit) {
        digits.append("-0");
    } else {
        push_decimal_wide(&mut digits, percent);
    }
    let mut out = String::new();
    push_run(&mut out, '▰', filled);
    push_run(&mut out, '▱', 8 - filled);
    push_char(&mut out, ' ');
    push_pad_left(&mut out, digits.as_str(), 3);
    push_char(&mut out, '%');
    assert(out@ =~= plain_bar_spec(current@, limit@));
    out
}

/// A share below `1.0` times eight, rounded, is at most eight.
proof fn lemma_fill_at_most_eight(m: nat, g: nat)
    requires
        m < pow2(53),
        g >= 50,
    ensures
        (2 * m + pow2(g)) / (2 * pow2(g)) <= 8,
{
    lemma2_to64();
    lemma_pow2_adds(g, 3);
    lemma_pow2_pos(g);
    if g + 3 > 53 {
        lemma_pow2_strictly_increases(53, g + 3);
    }
    let p = pow2(g);
    assert(2 * m + p < (2 * p) * 9) by (nonlinear_arith)
        requires
            m < pow2(g + 3),
            pow2(g + 3) == p * 8,
            p > 0,
    ;
    assert((2 * m + p) / (2 * p) < 9) by (nonlinear_arith)
        requires
            2 * m + p < (2 * p) * 9,
            p > 0,
    {
        vstd::arithmetic::div_mod::lemma_div_by_multiple_is_strongly_ordered(
            (2 * m + p) as int, ((2 * p) * 9) as int, 9, (2 * p) as int);
    }
}

/// The usage bar of a cost and its limit, colored.
pub fn usage_bar(current: Dollars, limit: Dollars) -> (r: String)
    ensures
        r@ == usage_bar_spec(current@, limit@),
{
    let plain = plain_usage_bar(current, limit);
    let near = cost_is_near(current, limit);
    let mut out = if near {
        ANSI_YELLOW.to_owned()
    } else {
        ANSI_CYAN.to_owned()
    };
    out.append(plain.as_str());
    out.append(ANSI_RESET);
    out
}

/// The title line of a section.
pub open spec fn section_title_spec(title: Seq<char>, color: Seq<char>) -> Seq<char> {
    color + "╭─ "@ + title + " "@ + ANSI_RESET@ + "\n"@
}

/// The title line of a section.
pub fn section_title(title: &str, color: &str) -> (r: String)
    ensures
        r@ == section_title_spec(title@, color@),
{
    let mut r = color.to_owned();
    r.append("╭─ ");
    r.append(title);
    r.append(" ");
    r.append(ANSI_RESET);
    r.append("\n");
    r
}

/// Appends the title line of a section.
pub fn push_section_title(out: &mut String, title: &str, color: &str)
    ensures
        final(out)@ == old(out)@ + section_title_spec(title@, color@),
{
    out.append(section_title(title, color).as_str());
}

/// One row of the detailed model table.
pub open spec fn detailed_row_spec(m: ModelStat) -> Seq<char> {
    "  "@ + ANSI_CYAN@ + pad_right(truncate_spec(m.model@, 10), 10) + ANSI_RESET@ + " "@ + pad_left(
        decimal(m.requests as nat),
        5,
    ) + " "@ + pad_left(compact_spec(m.input_tokens as nat), 8) + " "@ + pad_left(
        compact_spec(m.output_tokens as nat),
        8,
    ) + " "@ + pad_left(compact_spec(m.cache_read_tokens as nat), 10) + " "@ + pad_left(
        compact_spec(m.all_tokens as nat),
        8,
    ) + " "@ + ANSI_GREEN@ + pad_left(display_cost_spec(m.cost@, m.formatted_cost), 10)
        + ANSI_RESET@ + "\n"@
}

/// One row of the brief model table.
pub open spec fn brief_row_spec(m: ModelStat) -> Seq<char> {
    "  "@ + ANSI_CYAN@ + pad_right(truncate_spec(m.model@, 27), 27) + ANSI_RESET@ + " "@ + pad_left(
        comma_spec(m.requests as nat),
        6,
    ) + " "@ + pad_left(compact_spec(m.all_tokens as nat), 10) + " "@ + ANSI_GREEN@ + pad_left(
        display_cost_spec(m.cost@, m.formatted_cost),
        10,
    ) + ANSI_RESET@ + "\n"@
}

/// The rows of a model table, in order.
pub open spec fn rows_spec(rows: Seq<ModelStat>, detailed: bool) -> Seq<char>
    decreases rows.len(),
{
    if rows.len() == 0 {
        Seq::empty()
    } else {
        rows_spec(rows.drop_last(), detailed) + if detailed {
            detailed_row_spec(rows.last())
        } else {
            brief_row_spec(rows.last())
        }
    }
}

/// The header line of a model table.
pub open spec fn table_header_spec(detailed: bool) -> Seq<char> {
    if detailed {
        "  "@ + ANSI_DIM@ + "MODEL      REQ    INPUT     OUTPUT    CACHE READ  ALL       COST"@ + ANSI_RESET@ + "\n"@
    } else {
        "  "@ + ANSI_DIM@ + "MODEL                       REQ        ALL        COST"@ + ANSI_RESET@ + "\n"@
    }
}

/// A model section: title, header, the eight costliest rows, and a note where
/// there are no rows.
pub open spec fn model_section_spec(title: Seq<char>, rows: Seq<ModelStat>, detailed: bool) -> Seq<char> {
    let sorted = sort_by_cost(rows);
    section_title_spec(title, ANSI_GREEN@) + table_header_spec(detailed) + rows_spec(
        sorted.take(if sorted.len() < 8 { sorted.len() as int } else { 8 }),
        detailed,
    ) + if rows.len() == 0 {
        "  "@ + ANSI_DIM@ + "no usage records"@ + ANSI_RESET@ + "\n"@
    } else {
        Seq::empty()
    }
}

/// A model section lists the rows in order of cost, highest first: its rows are the
/// first `min(8, n)` of some reordering of all `n` rows (each kept as often as it
/// came) by descending cost, so they are the costliest ones.
pub proof fn law_model_section_lists_costliest_first(title: Seq<char>, rows: Seq<ModelStat>, detailed: bool)
    ensures
        exists|ordered: Seq<ModelStat>|
            #![trigger cost_descending(ordered)]
            {
                &&& ordered.to_multiset() == rows.to_multiset()
                &&& cost_descending(ordered)
                &&& model_section_spec(title, rows, detailed) == section_title_spec(title, ANSI_GREEN@)
                    + table_header_spec(detailed) + rows_spec(
                    ordered.take(if rows.len() < 8 { rows.len() as int } else { 8 }),
                    detailed,
                ) + if rows.len() == 0 {
                    "  "@ + ANSI_DIM@ + "no usage records"@ + ANSI_RESET@ + "\n"@
                } else {
                    Seq::empty()
                }
            },
{
    broadcast use vstd::seq_lib::group_to_multiset_ensures;

    let sorted = sort_by_cost(rows);
    law_sorted_models_is_ordered_permutation(rows);
    assert(sorted.len() == rows.len()) by {
        assert(sorted.to_multiset().len() == rows.to_multiset().len());
    }
    assert(cost_descending(sorted));
}

fn detailed_row(m: &ModelStat) -> (r: String)
    ensures
        r@ == detailed_row_spec(*m),
{
    let mut r = "  ".to_owned();
    r.append(ANSI_CYAN);
    push_pad_right(&mut r, truncate(m.model.as_str(), 10).as_str(), 10);
    r.append(ANSI_RESET);
    r.append(" ");
    push_pad_left(&mut r, crate::text::decimal_string(m.requests).as_str(), 5);
    r.append(" ");
    push_pad_left(&mut r, compact_number(m.input_tokens).as_str(), 8);
    r.append(" ");
    push_pad_left(&mut r, compact_number(m.output_tokens).as_str(), 8);
    r.append(" ");
    push_pad_left(&mut r, compact_number(m.cache_read_tokens).as_str(), 10);
    r.append(" ");
    push_pad_left(&mut r, compact_number(m.all_tokens).as_str(), 8);
    r.append(" ");
    r.append(ANSI_GREEN);
    push_pad_left(&mut r, display_cost(m.cost, &m.formatted_cost).as_str(), 10);
    r.append(ANSI_RESET);
    r.append("\n");
    r
}

fn brief_row(m: &ModelStat) -> (r: String)
    ensures
        r@ == brief_row_spec(*m),
{
    let mut r = "  ".to_owned();
    r.append(ANSI_CYAN);
    push_pad_right(&mut r, truncate(m.model.as_str(), 27).as_str(), 27);
    r.append(ANSI_RESET);
    r.append(" ");
    push_pad_left(&mut r, comma(m.requests).as_str(), 6);
    r.append(" ");
    push_pad_left(&mut r, compact_number(m.all_tokens).as_str(), 10);
    r.append(" ");
    r.append(ANSI_GREEN);
    push_pad_left(&mut r, display_cost(m.cost, &m.formatted_cost).as_str(), 10);
    r.append(ANSI_RESET);
    r.append("\n");
    r
}

fn table_header(detailed: bool) -> (r: String)
    ensures
        r@ == table_header_spec(detailed),
{
    let mut r = "  ".to_owned();
    r.append(ANSI_DIM);
    if detailed {
        r.append("MODEL      REQ    INPUT     OUTPUT    CACHE READ  ALL       COST");
    } else {
        r.append("MODEL                       REQ        ALL        COST");
    }
    r.append(ANSI_RESET);
    r.append("\n");
    r
}

/// A model section: title, header, the eight costliest rows, and a note where
/// there are no rows.
pub fn model_section(title: &str, rows: &Vec<ModelStat>, detailed: bool) -> (r: String)
    ensures
        r@ == model_section_spec(title@, rows@, detailed),
{
    let mut r = section_title(title, ANSI_GREEN);
    r.append(table_header(detailed).as_str());
    let ghost head = r@;
    let sorted = sorted_models(rows.as_slice());
    let n: usize = if sorted.len() < 8 { sorted.len() } else { 8 };
    let mut i: usize = 0;
    assert(rows_spec(sorted@.take(0), detailed) =~= Seq::<char>::empty());
    assert(r@ =~= head + rows_spec(sorted@.take(0), detailed));
    while i < n
        invariant
            0 <= i <= n <= sorted@.len(),
            r@ == head + rows_spec(sorted@.take(i as int), detailed),
        decreases n - i,
    {
        let line = if detailed {
            detailed_row(&sorted[i])
        } else {
            brief_row(&sorted[i])
        };
        let ghost before = r@;
        r.append(line.as_str());
        proof {
            assert(sorted@.take(i + 1).drop_last() =~= sorted@.take(i as int));
            assert(sorted@.take(i + 1).last() == sorted@[i as int]);
            vstd::seq_lib::lemma_concat_associative(head, rows_spec(sorted@.take(i as int), detailed), line@);
        }
        i = i + 1;
    }
    let ghost body = r@;
    if rows.len() == 0 {
        let mut note = "  ".to_owned();
        note.append(ANSI_DIM);
        note.append("no usage records");
        note.append(ANSI_RESET);
        note.append("\n");
        r.append(note.as_str());
    } else {
        assert(r@ =~= body + Seq::<char>::empty());
    }
    r
}

/// Appends a model section.
pub fn push_model_section(out: &mut String, title: &str, rows: &Vec<ModelStat>, detailed: bool)
    ensures
        final(out)@ == old(out)@ + model_section_spec(title@, rows@, detailed),
{
    out.append(model_section(title, rows, detailed).as_str());
}

/// An optional value as shown, `-` where it is missing.
pub open spec fn or_dash(v: Option<String>) -> Seq<char> {
    match v {
        Some(x) => x@,
        None => "-"@,
    }
}

/// The first line of the snapshot text.
pub open spec fn header_line_spec(s: Snapshot, level: Seq<char>, refresh: Seq<char>) -> Seq<char> {
    ANSI_CYAN@ + ANSI_BOLD@ + "╭─ crstop"@ + ANSI_RESET@ + "  "@ + status_color_spec(level) + "▰ "@ + level
        + ANSI_RESET@ + "  "@ + ANSI_DIM@ + "CRS"@ + ANSI_RESET@ + ": "@ + s.health.status@ + "  "@
        + ANSI_DIM@ + "v"@ + ANSI_RESET@ + or_dash(s.health.version) + "  "@ + ANSI_DIM@ + "Redis"@
        + ANSI_RESET@ + ": "@ + or_dash(s.health.redis_status) + "  "@ + ANSI_DIM@ + "Refresh"@
        + ANSI_RESET@ + ": "@ + refresh + "s  "@ + ANSI_DIM@ + "Last"@ + ANSI_RESET@ + ": "@
        + s.fetched_at@ + "\n"@
}

/// The rule under the first line: at least sixty `─`, or `width` where wider.
pub open spec fn rule_spec(width: nat) -> Seq<char> {
    ANSI_CYAN@ + char_run('─', if width < 60 { 60 } else { width }) + ANSI_RESET@
}

/// The line that closes the heading.
pub open spec fn key_line_spec(s: Snapshot) -> Seq<char> {
    "\n"@ + ANSI_CYAN@ + "╰─"@ + ANSI_RESET@ + " "@ + ANSI_DIM@ + "Key"@ + ANSI_RESET@ + ": "@ + (if s.user.is_active {
        "active"@
    } else {
        "inactive"@
    }) + "  "@ + ANSI_DIM@ + "Theme"@ + ANSI_RESET@ + ": neon telemetry\n\n"@
}

/// The `TOTAL` section.
pub open spec fn total_section_spec(s: Snapshot) -> Seq<char> {
    let t = s.user.total;
    section_title_spec("TOTAL"@, ANSI_CYAN@) + "  "@ + ANSI_DIM@ + "Requests"@ + ANSI_RESET@ + "      "@
        + ANSI_BLUE@ + comma_spec(t.requests as nat) + ANSI_RESET@ + "\n"@ + "  "@ + ANSI_DIM@
        + "All Tokens"@ + ANSI_RESET@ + "    "@ + ANSI_CYAN@ + comma_spec(t.all_tokens as nat)
        + ANSI_RESET@ + "\n"@ + "  "@ + ANSI_DIM@ + "Input"@ + ANSI_RESET@ + "         "@ + comma_spec(
        t.input_tokens as nat,
    ) + "\n"@ + "  "@ + ANSI_DIM@ + "Output"@ + ANSI_RESET@ + "        "@ + comma_spec(
        t.output_tokens as nat,
    ) + "\n"@ + "  "@ + ANSI_DIM@ + "Cache Read"@ + ANSI_RESET@ + "    "@ + comma_spec(
        t.cache_read_tokens as nat,
    ) + "\n"@ + "  "@ + ANSI_DIM@ + "Cost"@ + ANSI_RESET@ + "          "@ + ANSI_GREEN@
        + display_cost_spec(t.cost@, t.formatted_cost) + ANSI_RESET@ + "\n\n"@
}

/// The `LIMITS` section.
pub open spec fn limits_section_spec(s: Snapshot) -> Seq<char> {
    let l = s.user.limits;
    section_title_spec("LIMITS"@, ANSI_PURPLE@) + "  "@ + ANSI_DIM@ + "Daily Cost"@ + ANSI_RESET@ + "    "@
        + dollars_spec(l.current_daily_cost@) + " / "@ + limit_cost_spec(l.daily_cost_limit@)
        + "  "@ + usage_bar_spec(l.current_daily_cost@, l.daily_cost_limit@) + "\n"@ + "  "@
        + ANSI_DIM@ + "Total Cost"@ + ANSI_RESET@ + "    "@ + dollars_spec(l.current_total_cost@)
        + " / "@ + limit_cost_spec(l.total_cost_limit@) + "  "@ + usage_bar_spec(
        l.current_total_cost@,
        l.total_cost_limit@,
    ) + "\n"@ + "  "@ + ANSI_DIM@ + "Concurrency"@ + ANSI_RESET@ + "   "@ + limit_u64_spec(
        l.concurrency_limit as nat,
    ) + "\n"@ + "  "@ + ANSI_DIM@ + "Rate Limit"@ + ANSI_RESET@ + "    "@ + limit_u64_spec(
        l.rate_limit_requests as nat,
    ) + "\n"@ + "  "@ + ANSI_DIM@ + "Pool Limits"@ + ANSI_RESET@ + "   "@ + ANSI_YELLOW@ + (if s.pool_visible {
        "visible"@
    } else {
        "not visible without admin token"@
    }) + ANSI_RESET@ + "\n\n"@
}

/// The status-log lines, one bullet per message.
pub open spec fn message_lines_spec(messages: Seq<Seq<char>>) -> Seq<char>
    decreases messages.len(),
{
    if messages.len() == 0 {
        Seq::empty()
    } else {
        message_lines_spec(messages.drop_last()) + ("  "@ + ANSI_DIM@ + "•"@ + ANSI_RESET@ + " "@
            + messages.last() + "\n"@)
    }
}

/// The `STATUS LOG` section.
pub open spec fn status_log_spec(level: Seq<char>, messages: Seq<Seq<char>>) -> Seq<char> {
    section_title_spec("STATUS LOG"@, ANSI_BLUE@) + "  "@ + ANSI_DIM@ + "Level"@ + ANSI_RESET@ + ": "@
        + status_color_spec(level) + level + ANSI_RESET@ + "\n"@ + message_lines_spec(messages)
}

/// The one-shot text of a snapshot: heading, totals, limits, the day's and the
/// month's models, and the status log.
pub open spec fn once_text_spec(s: Snapshot, refresh: Seq<char>, width: nat) -> Seq<char> {
    header_line_spec(s, level_spec(s), refresh) + rule_spec(width) + key_line_spec(s) + total_section_spec(s)
        + limits_section_spec(s) + model_section_spec("TODAY BY MODEL"@, s.daily@, true) + "\n"@
        + model_section_spec("MONTH BY MODEL"@, s.monthly@, false) + "\n"@ + status_log_spec(
        level_spec(s),
        messages_spec(s),
    )
}

fn push_or_dash(out: &mut String, v: &Option<String>)
    ensures
        final(out)@ == old(out)@ + or_dash(*v),
{
    match v {
        Some(x) => out.append(x.as_str()),
        None => out.append("-"),
    }
}

fn header_line(s: &Snapshot, level: &str, refresh: &str) -> (r: String)
    ensures
        r@ == header_line_spec(*s, level@, refresh@),
{
    let mut r = ANSI_CYAN.to_owned();
    r.append(ANSI_BOLD);
    r.append("╭─ crstop");
    r.append(ANSI_RESET);
    r.append("  ");
    r.append(ansi_status_color(level));
    r.append("▰ ");
    r.append(level);
    r.append(ANSI_RESET);
    r.append("  ");
    r.append(ANSI_DIM);
    r.append("CRS");
    r.append(ANSI_RESET);
    r.append(": ");
    r.append(s.health.status.as_str());
    r.append("  ");
    r.append(ANSI_DIM);
    r.append("v");
    r.append(ANSI_RESET);
    push_or_dash(&mut r, &s.health.version);
    r.append("  ");
    r.append(ANSI_DIM);
    r.append("Redis");
    r.append(ANSI_RESET);
    r.append(": ");
    push_or_dash(&mut r, &s.health.redis_status);
    r.append("  ");
    r.append(ANSI_DIM);
    r.append("Refresh");
    r.append(ANSI_RESET);
    r.append(": ");
    r.append(refresh);
    r.append("s  ");
    r.append(ANSI_DIM);
    r.append("Last");
    r.append(ANSI_RESET);
    r.append(": ");
    r.append(s.fetched_at.as_str());
    r.append("\n");
    r
}

fn rule(width: u16) -> (r: String)
    ensures
        r@ == rule_spec(width as nat),
{
    let line_width: usize = if width < 60 { 60 } else { width as usize };
    let mut r = ANSI_CYAN.to_owned();
    push_run(&mut r, '─', line_width);
    r.append(ANSI_RESET);
    r
}

fn key_line(s: &Snapshot) -> (r: String)
    ensures
        r@ == key_line_spec(*s),
{
    let mut r = "\n".to_owned();
    r.append(ANSI_CYAN);
    r.append("╰─");
    r.append(ANSI_RESET);
    r.append(" ");
    r.append(ANSI_DIM);
    r.append("Key");
    r.append(ANSI_RESET);
    r.append(": ");
    if s.user.is_active {
        r.append("active");
    } else {
        r.append("inactive");
    }
    r.append("  ");
    r.append(ANSI_DIM);
    r.append("Theme");
    r.append(ANSI_RESET);
    r.append(": neon telemetry\n\n");
    r
}

fn total_section(s: &Snapshot) -> (r: String)
    ensures
        r@ == total_section_spec(*s),
{
    let t = &s.user.total;
    let mut r = section_title("TOTAL", ANSI_CYAN);
    r.append("  ");
    r.append(ANSI_DIM);
    r.append("Requests");
    r.append(ANSI_RESET);
    r.append("      ");
    r.append(ANSI_BLUE);
    r.append(comma(t.requests).as_str());
    r.append(ANSI_RESET);
    r.append("\n");
    r.append("  ");
    r.append(ANSI_DIM);
    r.append("All Tokens");
    r.append(ANSI_RESET);
    r.append("    ");
    r.append(ANSI_CYAN);
    r.append(comma(t.all_tokens).as_str());
    r.append(ANSI_RESET);
    r.append("\n");
    r.append("  ");
    r.append(ANSI_DIM);
    r.append("Input");
    r.append(ANSI_RESET);
    r.append("         ");
    r.append(comma(t.input_tokens).as_str());
    r.append("\n");
    r.append("  ");
    r.append(ANSI_DIM);
    r.append("Output");
    r.append(ANSI_RESET);
    r.append("        ");
    r.append(comma(t.output_tokens).as_str());
    r.append("\n");
    r.append("  ");
    r.append(ANSI_DIM);
    r.append("Cache Read");
    r.append(ANSI_RESET);
    r.append("    ");
    r.append(comma(t.cache_read_tokens).as_str());
    r.append("\n");
    r.append("  ");
    r.append(ANSI_DIM);
    r.append("Cost");
    r.append(ANSI_RESET);
    r.append("          ");
    r.append(ANSI_GREEN);
    r.append(display_cost(t.cost, &t.formatted_cost).as_str());
    r.append(ANSI_RESET);
    r.append("\n\n");
    r
}

fn limits_section(s: &Snapshot) -> (r: String)
    ensures
        r@ == limits_section_spec(*s),
{
    let l = &s.user.limits;
    let mut r = section_title("LIMITS", ANSI_PURPLE);
    r.append("  ");
    r.append(ANSI_DIM);
    r.append("Daily Cost");
    r.append(ANSI_RESET);
    r.append("    ");
    r.append(dollars(l.current_daily_cost).as_str());
    r.append(" / ");
    r.append(limit_cost(l.daily_cost_limit).as_str());
    r.append("  ");
    r.append(usage_bar(l.current_daily_cost, l.daily_cost_limit).as_str());
    r.append("\n");
    r.append("  ");
    r.append(ANSI_DIM);
    r.append("Total Cost");
    r.append(ANSI_RESET);
    r.append("    ");
    r.append(dollars(l.current_total_cost).as_str());
    r.append(" / ");
    r.append(limit_cost(l.total_cost_limit).as_str());
    r.append("  ");
    r.append(usage_bar(l.current_total_cost, l.total_cost_limit).as_str());
    r.append("\n");
    r.append("  ");
    r.append(ANSI_DIM);
    r.append("Concurrency");
    r.append(ANSI_RESET);
    r.append("   ");
    r.append(limit_u64(l.concurrency_limit).as_str());
    r.append("\n");
    r.append("  ");
    r.append(ANSI_DIM);
    r.append("Rate Limit");
    r.append(ANSI_RESET);
    r.append("    ");
    r.append(limit_u64(l.rate_limit_requests).as_str());
    r.append("\n");
    r.append("  ");
    r.append(ANSI_DIM);
    r.append("Pool Limits");
    r.append(ANSI_RESET);
    r.append("   ");
    r.append(ANSI_YELLOW);
    if s.pool_visible {
        r.append("visible");
    } else {
        r.append("not visible without admin token");
    }
    r.append(ANSI_RESET);
    r.append("\n\n");
    r
}

fn status_log(level: &str, messages: &Vec<String>) -> (r: String)
    ensures
        r@ == status_log_spec(level@, views(messages@)),
{
    let mut r = section_title("STATUS LOG", ANSI_BLUE);
    r.append("  ");
    r.append(ANSI_DIM);
    r.append("Level");
    r.append(ANSI_RESET);
    r.append(": ");
    r.append(ansi_status_color(level));
    r.append(level);
    r.append(ANSI_RESET);
    r.append("\n");
    let ghost head = r@;
    let mut i: usize = 0;
    assert(views(messages@.take(0)) =~= Seq::<Seq<char>>::empty());
    assert(r@ =~= head + message_lines_spec(views(messages@.take(0))));
    while i < messages.len()
        invariant
            0 <= i <= messages@.len(),
            r@ == head + message_lines_spec(views(messages@.take(i as int))),
        decreases messages@.len() - i,
    {
        let mut line = "  ".to_owned();
        line.append(ANSI_DIM);
        line.append("•");
        line.append(ANSI_RESET);
        line.append(" ");
        line.append(messages[i].as_str());
        line.append("\n");
        r.append(line.as_str());
        proof {
            let pre = views(messages@.take(i + 1));
            assert(pre.drop_last() =~= views(messages@.take(i as int)));
            assert(pre.last() == messages@[i as int]@);
            vstd::seq_lib::lemma_concat_associative(
                head,
                message_lines_spec(views(messages@.take(i as int))),
                line@,
            );
        }
        i = i + 1;
    }
    assert(messages@.take(messages@.len() as int) =~= messages@);
    r
}

/// The one-shot text of a snapshot, colored with ANSI escapes: heading with the
/// status level, the service, Redis, the refresh interval (`refresh`, as already
/// formatted) and the fetch time; totals; limits with usage bars; the day's models
/// in detail and the month's in brief; and the status log.
pub fn render_once_text(snapshot: &Snapshot, refresh: &str, width: u16) -> (r: String)
    ensures
        r@ == once_text_spec(*snapshot, refresh@, width as nat),
{
    let status = build_status(snapshot);
    let mut out = header_line(snapshot, status.level.as_str(), refresh);
    out.append(rule(width).as_str());
    out.append(key_line(snapshot).as_str());
    out.append(total_section(snapshot).as_str());
    out.append(limits_section(snapshot).as_str());
    out.append(model_section("TODAY BY MODEL", &snapshot.daily, true).as_str());
    out.append("\n");
    out.append(model_section("MONTH BY MODEL", &snapshot.monthly, false).as_str());
    out.append("\n");
    out.append(status_log(status.level.as_str(), &status.messages).as_str());
    out
}

/// The height of the live-trend panel for a terminal of `total_height` rows: none
/// below 30 rows, else a fifth of the rows, between 7 and 18.
pub fn trend_height(total_height: u16) -> (h: Option<u16>)
    ensures
        h == if total_height < 30 {
            None
        } else {
            let f = total_height / 5;
            Some(if f < 7 { 7u16 } else if f > 18 { 18u16 } else { f })
        },
{
    if total_height < 30 {
        None
    } else {
        let f = total_height / 5;
        Some(if f < 7 { 7 } else if f > 18 { 18 } else { f })
    }
}

/// How many bars fit in a sparkline panel `width` cells wide: the inner width,
/// at least one.
pub fn sparkline_width(width: u16) -> (n: usize)
    ensures
        n == if width <= 3 { 1 } else { width - 2 },
{
    if width <= 3 {
        1
    } else {
        (width - 2) as usize
    }
}

/// A growth count as a label: `+1,234`, or `collecting` where there is none yet.
pub fn signed_count(value: Option<u64>) -> (r: String)
    ensures
        r@ == match value {
            Some(v) => "+"@ + comma_spec(v as nat),
            None => "collecting"@,
        },
{
    match value {
        Some(v) => {
            let mut r = "+".to_owned();
            r.append(comma(v).as_str());
            r
        },
        None => "collecting".to_owned(),
    }
}

/// A growth count in short form: `+16.0K`, or `collecting`.
pub fn signed_compact(value: Option<u64>) -> (r: String)
    ensures
        r@ == match value {
            Some(v) => "+"@ + compact_spec(v as nat),
            None => "collecting"@,
        },
{
    match value {
        Some(v) => {
            let mut r = "+".to_owned();
            r.append(compact_number(v).as_str());
            r
        },
        None => "collecting".to_owned(),
    }
}

/// Cents as a growth: `+$`, the whole dollars, a point and two digits of cents.
pub open spec fn plus_cents_spec(v: nat) -> Seq<char> {
    let h = hundredths(int_as_double(v));
    "+$"@ + decimal(h / 100) + seq![
        '.',
        crate::text::digit_char((h % 100) / 10),
        crate::text::digit_char(h % 10),
    ]
}

/// A cost growth in cents as a label: `+$0.42`, or `collecting`.
pub fn signed_cents(value: Option<u64>) -> (r: String)
    ensures
        r@ == match value {
            Some(v) => plus_cents_spec(v as nat),
            None => "collecting"@,
        },
{
    match value {
        Some(v) => {
            let h = hundredths_exec(int_as_double_exec(v));
            let mut r = "+$".to_owned();
            push_decimal_wide(&mut r, h / 100);
            push_char(&mut r, '.');
            push_char(&mut r, crate::text::digit(((h % 100) / 10) as u64));
            push_char(&mut r, crate::text::digit((h % 10) as u64));
            r
        },
        None => "collecting".to_owned(),
    }
}

/// The width of a trend bar as a label: whole minutes as `Nm/b` from a minute on,
/// else whole seconds (at least one) as `Ns/b`.
pub open spec fn trend_label_spec(bucket_nanos: nat) -> Seq<char> {
    let secs: nat = if bucket_nanos / 1_000_000_000 == 0 { 1 } else { bucket_nanos / 1_000_000_000 };
    if secs >= 60 {
        decimal(secs / 60) + "m/b"@
    } else {
        decimal(secs) + "s/b"@
    }
}

/// The width of a trend bar as a label: whole minutes as `Nm/b` from a minute on,
/// else whole seconds (at least one) as `Ns/b`.
pub fn trend_window_label(bucket_nanos: u64) -> (r: String)
    ensures
        r@ == trend_label_spec(bucket_nanos as nat),
{
    let whole = bucket_nanos / 1_000_000_000;
    let secs = if whole == 0 { 1 } else { whole };
    let mut r = String::new();
    if secs >= 60 {
        push_decimal(&mut r, secs / 60);
        r.append("m/b");
    } else {
        push_decimal(&mut r, secs);
        r.append("s/b");
    }
    assert(r@ =~= if secs >= 60 {
        decimal((secs / 60) as nat) + "m/b"@
    } else {
        decimal(secs as nat) + "s/b"@
    });
    r
}

} // verus!

use crstop::amount::{cost_is_near, cost_is_over, cost_ratio_exec, Dollars};
use crstop::binary64::{hundredths_exec, int_as_double_exec, nearest_double, round_to_even_exec};

fn d(x: f64) -> Dollars {
    Dollars::from_bits(x.to_bits()).unwrap()
}

#[test]
fn nearest_doubles_match_the_hardware() {
    for (a, b) in [(9u128, 10u128), (1, 3), (115, 100), (1, 1), (7, 1), (123_456_789, 1_000)] {
        let (m, e) = nearest_double(a, b);
        let expected = a as f64 / b as f64;
        let value = m as f64 * 2f64.powi(e);
        assert_eq!(value, expected, "{a}/{b}");
        assert!((1u128 << 52) <= m && m < (1u128 << 53));
    }
    assert_eq!(nearest_double(9, 10), (8106479329266893, -53));
}

#[test]
fn integers_and_amounts_round_as_doubles_do() {
    assert_eq!(int_as_double_exec(u64::MAX), 1u128 << 64);
    assert_eq!(int_as_double_exec((1 << 53) + 1), 1u128 << 53);
    assert_eq!(int_as_double_exec(12_345), 12_345);
    assert_eq!(hundredths_exec(899), 899);
    assert_eq!(hundredths_exec(0), 0);
    assert_eq!(round_to_even_exec(5, -1), 2);
    assert_eq!(round_to_even_exec(7, -1), 4);
}

#[test]
fn cost_levels_compare_the_double_share() {
    assert!(cost_is_near(d(9.0), d(10.0)));
    assert!(!cost_is_near(d(0.09), d(0.10)));
    assert!(!cost_is_near(d(8.99), d(10.0)));
    assert!(!cost_is_near(d(8.996), d(10.0)) == !(8.996f64 / 10.0 >= 0.9));
    assert!(cost_is_over(d(10.0), d(10.0)));
    assert!(!cost_is_over(d(9.99), d(10.0)));
    assert!(!cost_is_over(d(0.05), d(0.0)));
    assert!(!cost_is_near(d(-0.05), d(0.1)));
    assert!(cost_is_over(d(1e300), d(1e-300)));
    assert!(!cost_is_near(d(1e-300), d(1e300)));
    assert!(!cost_is_near(d(5e-324), d(1e-300)));
    let (m, e) = cost_ratio_exec(d(0.11), d(0.40));
    assert_eq!(m as f64 * 2f64.powi(e), 0.11f64 / 0.40f64);
}

fn next(state: &mut u64) -> u64 {
    *state = state.wrapping_mul(6364136223846793005).wrapping_add(1442695040888963407);
    *state >> 11
}

fn reference_compact(value: u64) -> String {
    let n = value as f64;
    if value >= 1_000_000_000 {
        format!("{:.1}B", n / 1_000_000_000.0)
    } else if value >= 1_000_000 {
        format!("{:.1}M", n / 1_000_000.0)
    } else if value >= 1_000 {
        format!("{:.1}K", n / 1_000.0)
    } else {
        value.to_string()
    }
}

fn reference_bar(current: f64, limit: f64) -> String {
    if limit <= 0.0 {
        return "▰▰▰▰▰▰▰▰ unlimited".to_string();
    }
    let ratio = (current / limit).clamp(0.0, 1.0);
    let filled = (ratio * 8.0).round() as usize;
    format!("{}{} {:>3.0}%", "▰".repeat(filled), "▱".repeat(8 - filled), ratio * 100.0)
}

fn amount(cents: i64) -> f64 {
    format!("{}.{:02}", cents / 100, cents % 100).parse().unwrap()
}

#[test]
fn short_forms_and_bars_agree_with_double_arithmetic() {
    let mut state = 7u64;
    for i in 0..20_000u64 {
        let n = match i % 4 {
            0 => next(&mut state) % 2_000_000,
            1 => (next(&mut state) % 20_000) * 50,
            2 => next(&mut state),
            _ => next(&mut state) << 11,
        };
        assert_eq!(crstop::format::compact_number(n), reference_compact(n), "{n}");
    }
    for _ in 0..20_000 {
        let limit = (next(&mut state) % 100_000) as i64 + 1;
        let current = (next(&mut state) % 120_000) as i64;
        assert_eq!(
            crstop::ui::plain_usage_bar(d(amount(current)), d(amount(limit))),
            reference_bar(amount(current), amount(limit)),
            "{current} of {limit}"
        );
        assert_eq!(crstop::amount::dollars(d(amount(current))), format!("${:.2}", amount(current)));
    }
}

#[test]
fn amounts_of_any_size_agree_with_double_arithmetic() {
    let mut state = 11u64;
    for i in 0..20_000u64 {
        let bits = next(&mut state) << 11 | (next(&mut state) & 0x7ff);
        let x = f64::from_bits(bits);
        if !x.is_finite() {
            continue;
        }
        let y = f64::from_bits(next(&mut state) << 11 | i);
        let a = d(x);
        assert_eq!(crstop::amount::dollars(a), format!("${x:.2}"), "{x:e}");
        let expected_cents = if x > 0.0 { (x * 100.0).round() as u64 } else { 0 };
        assert_eq!(crstop::amount::trend_cents_exec(a), expected_cents, "{x:e}");
        if y.is_finite() {
            let b = d(y);
            assert_eq!(crstop::ui::plain_usage_bar(a, b), reference_bar(x, y), "{x:e} of {y:e}");
            assert_eq!(cost_is_near(a, b), y > 0.0 && x / y >= 0.9, "{x:e} of {y:e}");
            assert_eq!(cost_is_over(a, b), y > 0.0 && x / y >= 1.0, "{x:e} of {y:e}");
        }
    }
}

//! Typed times and amounts of gold.

use arkyve_refresh_shop::gui::parsers::{
    format_gold, format_minutes, format_ms, format_ms_after, parse_gold, parse_minutes, parse_ms,
    parse_ms_after,
};

#[test]
fn format_minutes_handles_canonical_cases() {
    assert_eq!(format_minutes(0), "0m");
    assert_eq!(format_minutes(1), "1m");
    assert_eq!(format_minutes(45), "45m");
    assert_eq!(format_minutes(60), "1h");
    assert_eq!(format_minutes(90), "1h30");
    assert_eq!(format_minutes(125), "2h05");
    assert_eq!(format_minutes(1440), "24h");
}

#[test]
fn parse_minutes_accepts_canonical_forms() {
    assert_eq!(parse_minutes(""), Some(0));
    assert_eq!(parse_minutes("0"), Some(0));
    assert_eq!(parse_minutes("45"), Some(45));
    assert_eq!(parse_minutes("45m"), Some(45));
    assert_eq!(parse_minutes("45min"), Some(45));
    assert_eq!(parse_minutes("2h"), Some(120));
    assert_eq!(parse_minutes("1h30"), Some(90));
    assert_eq!(parse_minutes("1h 30"), Some(90));
    assert_eq!(parse_minutes("1h30m"), Some(90));
    assert_eq!(parse_minutes("1H30"), Some(90));
}

#[test]
fn parse_minutes_rejects_garbage() {
    assert!(parse_minutes("abc").is_none());
    assert!(parse_minutes("1.5h").is_none());
    assert!(parse_minutes("xh30").is_none());
}

#[test]
fn format_gold_uses_k_m_condensers() {
    assert_eq!(format_gold(0), "0g");
    assert_eq!(format_gold(999), "999g");
    assert_eq!(format_gold(1_000), "1.0Kg");
    assert_eq!(format_gold(1_500), "1.5Kg");
    assert_eq!(format_gold(12_345), "12Kg");
    assert_eq!(format_gold(280_000), "280Kg");
    assert_eq!(format_gold(1_000_000), "1.0Mg");
    assert_eq!(format_gold(2_500_000), "2.5Mg");
    assert_eq!(format_gold(100_000_000), "100Mg");
}

#[test]
fn parse_gold_accepts_canonical_forms() {
    assert_eq!(parse_gold(""), Some(0));
    assert_eq!(parse_gold("0"), Some(0));
    assert_eq!(parse_gold("500"), Some(500));
    assert_eq!(parse_gold("500g"), Some(500));
    assert_eq!(parse_gold("1,500"), Some(1500));
    assert_eq!(parse_gold("1.5K"), Some(1500));
    assert_eq!(parse_gold("280K"), Some(280_000));
    assert_eq!(parse_gold("280Kg"), Some(280_000));
    assert_eq!(parse_gold("1.5m"), Some(1_500_000));
}

#[test]
fn parse_gold_rejects_garbage() {
    assert!(parse_gold("abc").is_none());
    assert!(parse_gold("1.5Q").is_none());
    assert!(parse_gold("-100").is_none());
}

#[test]
fn format_ms_picks_ms_or_seconds_by_magnitude() {
    assert_eq!(format_ms(0), "0ms");
    assert_eq!(format_ms(500), "500ms");
    assert_eq!(format_ms(999), "999ms");
    assert_eq!(format_ms(1_000), "1.0s");
    assert_eq!(format_ms(1_500), "1.5s");
    assert_eq!(format_ms(9_900), "9.9s");
    assert_eq!(format_ms(10_000), "10s");
    assert_eq!(format_ms(12_345), "12s");
}

#[test]
fn parse_ms_accepts_canonical_forms() {
    assert_eq!(parse_ms(""), Some(0));
    assert_eq!(parse_ms("500"), Some(500));
    assert_eq!(parse_ms("500ms"), Some(500));
    assert_eq!(parse_ms("1.5s"), Some(1500));
    assert_eq!(parse_ms("12s"), Some(12_000));
    assert_eq!(parse_ms("2 s"), Some(2_000));
}

#[test]
fn parse_ms_rejects_garbage() {
    assert!(parse_ms("abc").is_none());
    assert!(parse_ms("1.5x").is_none());
}

#[test]
fn less_than_no_time_is_garbage() {
    assert_eq!(parse_ms("-5s"), None);
    assert_eq!(parse_ms("-0.5 s"), None);
    assert_eq!(parse_ms("-5"), None);
    assert_eq!(parse_ms("-500ms"), None);
    assert_eq!(parse_ms("-0s"), Some(0));
    assert_eq!(parse_ms_after("min ", "min -5s"), None);
}

#[test]
fn format_and_parse_round_trip_for_typical_values() {
    for raw in [0u32, 1, 30, 60, 90, 125, 600, 1439] {
        let s = format_minutes(raw);
        assert_eq!(parse_minutes(&s), Some(raw), "minutes round trip for {raw}");
    }
    for raw in [0u32, 100, 999, 1_000, 1_500, 12_345, 280_000, 1_500_000] {
        let s = format_gold(raw);
        let parsed = parse_gold(&s).expect("gold parse");
        // Allow drift up to 10% — K/M format truncates tens of thousands.
        let drift = (parsed as i64 - raw as i64).unsigned_abs() as u32;
        assert!(
            drift <= raw / 10 + 100,
            "gold round trip drifted too far: {raw} → {s} → {parsed}"
        );
    }
    for raw in [0u64, 50, 500, 999, 1_000, 1_500, 9_900, 10_000, 60_000] {
        let s = format_ms(raw);
        let parsed = parse_ms(&s).expect("ms parse");
        let drift = (parsed as i64 - raw as i64).unsigned_abs();
        assert!(
            drift <= raw / 20 + 50,
            "ms round trip drifted too far: {raw} → {s} → {parsed}"
        );
    }
}

#[test]
fn minutes_read_back_for_every_value_up_to_a_week() {
    for raw in 0..10_080u32 {
        assert_eq!(parse_minutes(&format_minutes(raw)), Some(raw));
    }
    assert_eq!(parse_minutes(&format_minutes(u32::MAX)), Some(u32::MAX));
    assert_eq!(parse_minutes("71582789h"), None, "more than can be held");
}

#[test]
fn gold_rounds_and_refuses_what_is_too_large() {
    assert_eq!(parse_gold("1.0005K"), Some(1_001));
    assert_eq!(parse_gold("4294967295"), Some(u32::MAX));
    assert_eq!(parse_gold("1e3"), None, "a bare number is digits alone");
    assert_eq!(parse_gold("1e3K"), Some(1_000_000));
    assert_eq!(parse_gold("inf"), None);
    assert_eq!(format_gold(u32::MAX), "4294Mg");
}

#[test]
fn ms_are_shown_in_tenths_below_ten_seconds() {
    assert_eq!(format_ms(1_049), "1.0s");
    assert_eq!(format_ms(1_051), "1.1s");
    assert_eq!(format_ms(9_999), "10.0s");
    assert_eq!(parse_ms(" 1.5 S "), Some(1_500));
}

#[test]
fn a_word_in_front_of_a_duration_is_read_over() {
    assert_eq!(format_ms_after("min ", 500), "min 500ms");
    assert_eq!(format_ms_after("", 1_500), "1.5s");
    assert_eq!(parse_ms_after("min ", "min 1.5s"), Some(1_500));
    assert_eq!(parse_ms_after("min ", "250"), Some(250));
    assert_eq!(parse_ms_after("min ", "max 250"), None);
    assert_eq!(parse_ms_after("", "2 s"), Some(2_000));
}

#[test]
fn typed_decimals_round_as_doubles_do() {
    assert_eq!(
        parse_ms("9007199254740993s"),
        Some(9_007_199_254_740_992_000)
    );
    assert_eq!(parse_gold("-1e-400K"), Some(0));
    assert_eq!(parse_gold("-0K"), Some(0));
    assert_eq!(parse_gold("-1e-300K"), None);
    assert_eq!(parse_gold("-4.9e-324K"), None);
    assert_eq!(parse_gold("-2.4e-324K"), Some(0));
    assert_eq!(parse_gold("1e400K"), None);
    assert_eq!(parse_ms("1e400s"), Some(u64::MAX));
    assert_eq!(parse_ms("1e-400s"), Some(0));
    let spelled = [
        "0", "0.0004", "0.0005", "0.00049999999999999999", "0.0015", "1.0005", "1.0015", "2.0005",
        "2.5", "0.0000005", "0.1", "0.3", "4.35", "1.005", "123456789.123456789", "8.675309",
        "1e-3", "5e-4", "4.9999999999999999e-4", "1e16", "18446744073709551", "1.8446744073709551e16",
        "18446744073709552", "9007199254740991", "9007199254740993", "4503599627370497.5",
        "4294967.2955", "4294.9672955", "4294.9672954999999999999", "0.00000000000000000001",
        "72057594037927937", "288230376151711745", "36028797018963969.5", "1e300", "1e-300",
        "4294967.295", "4294967.2954999", "33554432.0625", "16777217.0005", ".5", "5.",
    ];
    for digits in spelled {
        let value: f64 = digits.parse().expect("a number");
        let ms = (value * 1000.0).round() as u64;
        assert_eq!(parse_ms(&format!("{digits}s")), Some(ms), "{digits}s");
        for (suffix, factor) in [("K", 1_000.0), ("M", 1_000_000.0)] {
            let scaled = (value * factor).round();
            let gold = if scaled > f64::from(u32::MAX) {
                None
            } else {
                Some(scaled as u32)
            };
            assert_eq!(parse_gold(&format!("{digits}{suffix}")), gold, "{digits}{suffix}");
        }
    }
}

#[test]
fn every_few_decimals_round_as_doubles_do() {
    // A walk over decimals of many lengths, without any pattern to them.
    let mut state: u64 = 0x9e37_79b9_7f4a_7c15;
    for _ in 0..2_000 {
        state = state.wrapping_mul(6_364_136_223_846_793_005).wrapping_add(1);
        let whole = state >> (20 + state % 44);
        let tail = (state.wrapping_mul(0x2545_f491_4f6c_dd1d) >> 8) >> (state % 40);
        let digits = format!("{whole}.{tail}");
        let value: f64 = digits.parse().expect("a number");
        let ms = (value * 1000.0).round() as u64;
        assert_eq!(parse_ms(&format!("{digits}s")), Some(ms), "{digits}s");
        let scaled = (value * 1_000_000.0).round();
        let gold = if scaled > f64::from(u32::MAX) {
            None
        } else {
            Some(scaled as u32)
        };
        assert_eq!(parse_gold(&format!("{digits}M")), gold, "{digits}M");
    }
}

#[test]
fn seconds_are_shown_as_doubles_round_them() {
    let mut state: u64 = 88_172_645_463_325_252;
    let mut shown = vec![
        10_000, 10_499, 10_500, 10_501, 12_500, 13_500, 9_007_199_254_740_993, u64::MAX,
        u64::MAX - 1_024, 9_223_372_036_854_775_807, 8_796_093_022_208_500, 8_796_093_022_209_499,
        36_028_797_018_963_968, 4_503_599_627_370_497_500,
    ];
    for _ in 0..2_000 {
        state = state.wrapping_mul(6_364_136_223_846_793_005).wrapping_add(1);
        shown.push((state >> (state % 48)).max(10_000));
    }
    for ms in shown {
        let seconds = (ms as f64 / 1000.0).round() as u64;
        assert_eq!(format_ms(ms), format!("{seconds}s"), "{ms}");
        let read = parse_ms(&format_ms(ms)).expect("a duration");
        assert!(read.abs_diff(ms) <= ms / 20 + 50, "{ms}");
    }
}

//! Saving what the window edits into the settings file.

use arkyve_refresh_shop::gui::persist::{write_all_back, AutoSavedFields, Real};
use toml_edit::{DocumentMut, Item};

const DEFAULT_TOML: &str = "\
# Settings of the app.

[window]
base_resolution = [1495, 872]
resize_tolerance_px = 4

[shop]
max_refreshes = 100
max_scrolls_per_round = 3 # kept as it is

[timing]
# Inter-click delay: log-normal sample clamped to [min, max].
click_delay_mean_ms = 180.0
click_delay_min_ms = 90
";

fn non_default_fields() -> AutoSavedFields {
    AutoSavedFields {
        base_resolution: [1600, 900],
        max_refreshes: 7,
        stop_after_minutes: 90,
        stop_when_mystic_medals: 5,
        stop_when_covenants: 6,
        stop_when_gold_spent: 500_000,
        buy_mystic_medals: false,
        buy_covenant: false,
        buy_button_y_offset_ratio: 110,
        buy_button_band_h_ratio: 50,
        buy_calibration_line_y_ratio: 400,
        threshold: 880,
        preview_refresh_ms: 750,
        sleep_when_done: true,
        shop_grid: Some([50, 100, 900, 800]),
        z_refresh: Some([100, 200, 150, 100]),
        z_refresh_confirm: Some([300, 400, 200, 100]),
        z_buy_confirm: Some([500, 600, 200, 100]),
        z_buy_column: Some([700, 100, 200, 500]),
        click_delay_mean_ms: Real::parse("300.0").unwrap(),
        click_delay_sigma: 450,
        click_delay_min_ms: 100,
        click_delay_max_ms: 800,
        move_steps_min: 4,
        move_steps_max: 12,
        move_step_min_ms: 2,
        move_step_max_ms: 9,
        move_to_click_min_ms: 25,
        move_to_click_max_ms: 60,
        move_curve_amplitude_px: 4_500,
        jitter_radius_px: 2_500,
        inter_round_min_ms: 700,
        inter_round_max_ms: 1900,
        long_pause_every_n: 8,
        long_pause_min_ms: 4000,
        long_pause_max_ms: 11_000,
        scroll_amount: 6,
        cooperative_idle_ms: 2000,
        discord_webhook_url: "https://discord.com/api/webhooks/1/round-trip-test".into(),
    }
}

fn reload(text: &str) -> DocumentMut {
    text.parse().expect("what was written reads back")
}

fn at<'a>(doc: &'a DocumentMut, section: &str, key: &str) -> &'a Item {
    doc.get(section)
        .and_then(|table| table.get(key))
        .unwrap_or_else(|| panic!("{section}.{key} is missing"))
}

fn floats(item: &Item) -> Vec<f64> {
    item.as_array()
        .expect("a list")
        .iter()
        .map(|value| value.as_float().expect("a number"))
        .collect()
}

#[test]
fn every_auto_saved_field_survives_write_and_reload() {
    let text = write_all_back(DEFAULT_TOML, &non_default_fields()).expect("write_all_back");
    let doc = reload(&text);
    let integers = [
        ("shop", "max_refreshes", 7),
        ("shop", "stop_after_minutes", 90),
        ("shop", "stop_when_mystic_medals", 5),
        ("shop", "stop_when_covenants", 6),
        ("shop", "stop_when_gold_spent", 500_000),
        ("matching", "preview_refresh_ms", 750),
        ("timing", "click_delay_min_ms", 100),
        ("timing", "click_delay_max_ms", 800),
        ("timing", "move_steps_min", 4),
        ("timing", "move_steps_max", 12),
        ("timing", "move_step_min_ms", 2),
        ("timing", "move_step_max_ms", 9),
        ("timing", "move_to_click_min_ms", 25),
        ("timing", "move_to_click_max_ms", 60),
        ("timing", "inter_round_min_ms", 700),
        ("timing", "inter_round_max_ms", 1900),
        ("timing", "long_pause_every_n", 8),
        ("timing", "long_pause_min_ms", 4000),
        ("timing", "long_pause_max_ms", 11_000),
        ("timing", "scroll_amount", 6),
        ("timing", "cooperative_idle_ms", 2000),
    ];
    for (section, key, expected) in integers {
        assert_eq!(at(&doc, section, key).as_integer(), Some(expected), "{key}");
    }
    let numbers = [
        ("shop", "buy_button_y_offset_ratio", 0.11),
        ("shop", "buy_button_band_h_ratio", 0.05),
        ("shop", "buy_calibration_line_y_ratio", 0.4),
        ("matching", "threshold", 0.88),
        ("timing", "click_delay_mean_ms", 300.0),
        ("timing", "click_delay_sigma", 0.45),
        ("timing", "move_curve_amplitude_px", 4.5),
        ("timing", "jitter_radius_px", 2.5),
    ];
    for (section, key, expected) in numbers {
        assert_eq!(at(&doc, section, key).as_float(), Some(expected), "{key}");
    }
    let flags = [
        ("shop", "buy_mystic_medals", false),
        ("shop", "buy_covenant", false),
        ("shop", "sleep_when_done", true),
    ];
    for (section, key, expected) in flags {
        assert_eq!(at(&doc, section, key).as_bool(), Some(expected), "{key}");
    }
    let rects = [
        ("regions", "shop_grid", [0.05, 0.1, 0.9, 0.8]),
        ("zones", "refresh", [0.1, 0.2, 0.15, 0.1]),
        ("zones", "refresh_confirm", [0.3, 0.4, 0.2, 0.1]),
        ("zones", "buy_confirm", [0.5, 0.6, 0.2, 0.1]),
        ("zones", "buy_column", [0.7, 0.1, 0.2, 0.5]),
    ];
    for (section, key, expected) in rects {
        assert_eq!(floats(at(&doc, section, key)), expected, "{key}");
    }
    assert_eq!(
        at(&doc, "notifications", "discord_webhook_url").as_str(),
        Some("https://discord.com/api/webhooks/1/round-trip-test")
    );
    let resolution: Vec<i64> = at(&doc, "window", "base_resolution")
        .as_array()
        .expect("a pair")
        .iter()
        .map(|value| value.as_integer().expect("an integer"))
        .collect();
    assert_eq!(resolution, [1600, 900]);
}

#[test]
fn auto_saved_fields_is_exhaustively_covered() {
    let AutoSavedFields {
        base_resolution: _,
        max_refreshes: _,
        stop_after_minutes: _,
        stop_when_mystic_medals: _,
        stop_when_covenants: _,
        stop_when_gold_spent: _,
        buy_mystic_medals: _,
        buy_covenant: _,
        buy_button_y_offset_ratio: _,
        buy_button_band_h_ratio: _,
        buy_calibration_line_y_ratio: _,
        threshold: _,
        preview_refresh_ms: _,
        sleep_when_done: _,
        shop_grid: _,
        z_refresh: _,
        z_refresh_confirm: _,
        z_buy_confirm: _,
        z_buy_column: _,
        click_delay_mean_ms: _,
        click_delay_sigma: _,
        click_delay_min_ms: _,
        click_delay_max_ms: _,
        move_steps_min: _,
        move_steps_max: _,
        move_step_min_ms: _,
        move_step_max_ms: _,
        move_to_click_min_ms: _,
        move_to_click_max_ms: _,
        move_curve_amplitude_px: _,
        jitter_radius_px: _,
        inter_round_min_ms: _,
        inter_round_max_ms: _,
        long_pause_every_n: _,
        long_pause_min_ms: _,
        long_pause_max_ms: _,
        scroll_amount: _,
        cooperative_idle_ms: _,
        discord_webhook_url: _,
    } = non_default_fields();
}

#[test]
fn write_all_back_preserves_comments_and_unknown_keys() {
    let raw = write_all_back(DEFAULT_TOML, &non_default_fields()).expect("write_all_back");
    assert!(
        raw.contains("# Inter-click delay: log-normal sample clamped to [min, max]."),
        "inline comment was lost"
    );
    assert!(
        raw.contains("max_scrolls_per_round"),
        "unknown key was dropped"
    );
    assert!(
        raw.contains("resize_tolerance_px"),
        "unknown key was dropped"
    );
    assert!(raw.contains("max_scrolls_per_round = 3 # kept as it is\n"));
}

#[test]
fn a_comment_behind_a_saved_value_stays() {
    let raw = write_all_back("[shop]\nmax_refreshes = 5 # mine\n", &non_default_fields()).unwrap();
    assert!(raw.contains("max_refreshes = 7 # mine\n"), "{raw}");
}

#[test]
fn whatever_is_written_around_a_saved_value_stays() {
    let base = "\
# top
[window] # the game's
base_resolution = [1, 2]\t# a pair

# what to buy
[shop] # shopping
# a flag
buy_covenant   =   true   # yes
sleep_when_done = 'no'# spelled otherwise

[zones]
# a list
refresh = [ 0.1, 0.2, 0.15, 0.1 ] # refilled
# not a list
buy_column = 3 # becomes one
# the end
";
    let raw = write_all_back(base, &non_default_fields()).unwrap();
    for kept in [
        "# top\n[window] # the game's\nbase_resolution = [1600, 900]\t# a pair\n",
        "\n# what to buy\n[shop] # shopping\n# a flag\nbuy_covenant   =   false   # yes\n",
        "\nsleep_when_done = true# spelled otherwise\n",
        "\n# a list\nrefresh = [0.1, 0.2, 0.15, 0.1] # refilled\n",
        "\n# not a list\nbuy_column = [0.7, 0.1, 0.2, 0.5] # becomes one\n",
    ] {
        assert!(raw.contains(kept), "{kept} not in\n{raw}");
    }
    assert!(raw.ends_with("# the end\n"), "{raw}");
    assert_eq!(write_all_back(&raw, &non_default_fields()), Ok(raw));
}

#[test]
fn write_all_back_removes_zone_keys_when_none() {
    let base = format!("{DEFAULT_TOML}\n[zones]\nrefresh = [0.1, 0.2, 0.15, 0.1]\n");
    let mut fields = non_default_fields();
    fields.z_refresh = None;
    let raw = write_all_back(&base, &fields).expect("write_all_back");
    let doc = reload(&raw);
    assert!(
        doc["zones"].get("refresh").is_none(),
        "zone was not removed"
    );
    assert!(
        !raw.contains("refresh = ["),
        "zone key still present in raw text"
    );
}

#[test]
fn what_is_written_reads_as_a_person_would_write_it() {
    let raw = write_all_back(DEFAULT_TOML, &non_default_fields()).expect("write_all_back");
    for line in [
        "base_resolution = [1600, 900]",
        "buy_button_y_offset_ratio = 0.11",
        "buy_calibration_line_y_ratio = 0.4",
        "click_delay_mean_ms = 300.0",
        "move_curve_amplitude_px = 4.5",
        "shop_grid = [0.05, 0.1, 0.9, 0.8]",
        "sleep_when_done = true",
    ] {
        assert!(raw.lines().any(|written| written == line), "{line} not in\n{raw}");
    }
}

#[test]
fn saving_twice_writes_the_same_file() {
    let once = write_all_back(DEFAULT_TOML, &non_default_fields()).unwrap();
    assert_eq!(write_all_back(&once, &non_default_fields()), Ok(once));
}

#[test]
fn a_rectangle_past_the_edge_slides_back_in() {
    let mut fields = non_default_fields();
    fields.shop_grid = Some([900, -5, 300, 0]);
    fields.z_refresh = Some([2_000, 500, 2_000, 1_000]);
    let doc = reload(&write_all_back(DEFAULT_TOML, &fields).unwrap());
    assert_eq!(floats(at(&doc, "regions", "shop_grid")), [0.7, 0.0, 0.3, 0.001]);
    assert_eq!(floats(at(&doc, "zones", "refresh")), [0.0, 0.0, 1.0, 1.0]);
}

#[test]
fn a_section_whose_name_is_taken_is_left_alone() {
    let raw = "shop = 3\nzones = { refresh = 1 }\n";
    let written = write_all_back(raw, &non_default_fields()).unwrap();
    let doc = reload(&written);
    assert_eq!(doc["shop"].as_integer(), Some(3));
    assert!(written.contains("zones = { refresh = 1 }"));
    assert_eq!(at(&doc, "matching", "preview_refresh_ms").as_integer(), Some(750));
}

#[test]
fn a_broken_file_is_refused() {
    let why = write_all_back("[shop\nmax = 1", &non_default_fields()).unwrap_err();
    assert!(why.contains("TOML parse error"), "{why}");
}

#[test]
fn numbers_too_large_for_a_file_are_capped() {
    let mut fields = non_default_fields();
    fields.long_pause_max_ms = u64::MAX;
    fields.click_delay_sigma = -1_250;
    fields.discord_webhook_url = "a \"b\"\n#c".to_owned();
    let doc = reload(&write_all_back("", &fields).unwrap());
    assert_eq!(at(&doc, "timing", "long_pause_max_ms").as_integer(), Some(i64::MAX));
    assert_eq!(at(&doc, "timing", "click_delay_sigma").as_float(), Some(-1.25));
    assert_eq!(
        at(&doc, "notifications", "discord_webhook_url").as_str(),
        Some("a \"b\"\n#c")
    );
}

#[test]
fn only_spelled_out_numbers_are_numbers() {
    for good in ["0.0", "-1.5", "180.25", "2000.0", "-0.0", "inf", "-inf", "nan", "-nan"] {
        assert!(Real::parse(good).is_some(), "{good}");
    }
    for bad in [
        "", "-", "1", "1.", ".5", "01.5", "1e5", "1.5x", "--1.5", "+1.0", "NaN", "infinity",
    ] {
        assert!(Real::parse(bad).is_none(), "{bad}");
    }
    assert!(Real::parse(&format!("1.{}", "0".repeat(400))).is_some());
    let largest = format!("{}.0", f64::MAX);
    assert!(Real::parse(&largest).is_some());
    assert!(Real::parse(&format!("-{largest}")).is_some());
    assert!(Real::parse(&largest.replacen("17976931348623157", "17976931348623158", 1)).is_none());
    assert!(Real::parse(&format!("1{}.0", "0".repeat(309))).is_none());
    assert_eq!(Some(Real::thousandths(1_050)), Real::parse("1.05"));
    assert_eq!(Some(Real::thousandths(-7)), Real::parse("-0.007"));
    assert_eq!(Some(Real::thousandths(3_000)), Real::parse("3.0"));
}

#[test]
fn every_double_can_be_saved() {
    let doubles = [
        1e-40,
        1e45,
        f64::MAX,
        f64::MIN,
        f64::MIN_POSITIVE,
        5e-324,
        f64::INFINITY,
        f64::NEG_INFINITY,
        123.456,
        0.1 + 0.2,
    ];
    for value in doubles {
        let spelled = if value % 1.0 == 0.0 {
            format!("{value}.0")
        } else {
            format!("{value}")
        };
        let mut fields = non_default_fields();
        fields.click_delay_mean_ms = Real::parse(&spelled).expect("a number");
        let written = write_all_back(DEFAULT_TOML, &fields).unwrap();
        let saved = at(&reload(&written), "timing", "click_delay_mean_ms").as_float();
        assert_eq!(saved, Some(value));
        assert!(written.contains(&format!("click_delay_mean_ms = {spelled}\n")));
    }
    for spelled in ["nan", "-nan"] {
        let mut fields = non_default_fields();
        fields.click_delay_mean_ms = Real::parse(spelled).expect("none at all");
        let doc = reload(&write_all_back(DEFAULT_TOML, &fields).unwrap());
        let saved = at(&doc, "timing", "click_delay_mean_ms").as_float();
        assert!(saved.is_some_and(f64::is_nan), "{spelled}");
    }
    // Past the largest double, but nearer to it than to anything above.
    let mut fields = non_default_fields();
    let past = format!("17976931348623157{}.9", "9".repeat(292));
    fields.click_delay_mean_ms = Real::parse(&past).expect("a number");
    let doc = reload(&write_all_back(DEFAULT_TOML, &fields).unwrap());
    assert_eq!(at(&doc, "timing", "click_delay_mean_ms").as_float(), Some(f64::MAX));
}

#[test]
fn everything_else_in_a_file_stays() {
    let raw = "\
title = \"mine\"
since = 1979-05-27T07:32:00Z
near = { x = 1, y.z = [1.5, 2] }
sub.dotted = true

[shop]
max_refreshes = 100
[shop.notes]
first = \"kept\"
[shop.notes.deeper]
second = 2.50

[empty]

# The first of them.
[[filter.gear]] # gear
# In front.
set = \"speed\" # behind
[filter.gear.roll]
least = 3
[[filter.gear]]
set = \"hit\"

[[window]]
odd = 1

[zones.refresh]
gone = true
[zones.other]
kept = true
";
    let written = write_all_back(raw, &non_default_fields()).unwrap();
    let (before, after) = (reload(raw), reload(&written));
    for name in ["title", "since", "near", "sub", "empty", "filter", "window"] {
        assert_eq!(before[name].to_string(), after[name].to_string(), "{name}");
    }
    assert_eq!(after["shop"]["notes"].to_string(), before["shop"]["notes"].to_string());
    assert_eq!(after["shop"]["notes"]["deeper"]["second"].as_float(), Some(2.5));
    assert_eq!(after["filter"]["gear"][0]["roll"]["least"].as_integer(), Some(3));
    assert_eq!(after["filter"]["gear"][1]["set"].as_str(), Some("hit"));
    assert_eq!(after["filter"]["gear"].as_array_of_tables().map(|rows| rows.len()), Some(2));
    assert_eq!(after["zones"]["other"]["kept"].as_bool(), Some(true));
    let commented = "# The first of them.\n[[filter.gear]] # gear\n# In front.\nset = \"speed\" # behind\n";
    assert!(written.contains(commented));
    // A table under a saved key gives way to what is saved.
    assert_eq!(floats(at(&after, "zones", "refresh")), [0.1, 0.2, 0.15, 0.1]);
    let mut names: Vec<&str> = after.iter().map(|(name, _)| name).collect();
    names.sort_unstable();
    let mut expected = vec![
        "title", "since", "near", "sub", "shop", "empty", "filter", "window", "zones", "matching",
        "timing", "regions", "notifications",
    ];
    expected.sort_unstable();
    assert_eq!(names, expected);
}

#[test]
fn a_section_stays_while_it_has_a_header_or_holds_something() {
    let mut fields = non_default_fields();
    fields.shop_grid = None;
    // A new section is written though it holds nothing.
    let written = write_all_back("", &fields).unwrap();
    assert!(written.contains("[regions]"));
    let with_header = write_all_back("[regions]\nshop_grid = [0.1]\n", &fields).unwrap();
    assert!(reload(&with_header)["regions"].is_table());
    // One without a header goes with the last that it held.
    let without = write_all_back("regions.shop_grid = [0.1]\n", &fields).unwrap();
    assert!(reload(&without).get("regions").is_none());
    let kept = write_all_back("regions.shop_grid = [0.1]\nregions.x = 1\n", &fields).unwrap();
    assert_eq!(at(&reload(&kept), "regions", "x").as_integer(), Some(1));
    let nested = write_all_back("[regions.shop_grid]\nx = 1\n", &fields).unwrap();
    assert!(reload(&nested).get("regions").is_none());
}

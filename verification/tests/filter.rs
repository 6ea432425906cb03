//! The interest filter: what each criterion accepts, and how they combine.

use arkyve_refresh_shop::domain::filter::{
    grade_floor, hunt_kinds, unrecognized_kind, Filter, GearRule, RawFilter, SubstatMatch,
    SubstatReq, HUNTABLE_KINDS,
};
use arkyve_refresh_shop::domain::shop::{
    sanitize_wire_text, CatalogId, Gold, ItemKind, PurchaseLimit, ShopItem, ShopSnapshot, Substat,
};
use arkyve_refresh_shop::domain::stat_value::StatValue;

fn stat(value: f64) -> StatValue {
    StatValue::from_bits(value.to_bits())
}

fn substat(name: &str, value: Option<f64>) -> Substat {
    Substat {
        name: name.to_owned(),
        value: value.map(stat),
    }
}

/// The one rule that a filter holds.
fn only_rule(filter: &Filter) -> &GearRule {
    assert_eq!(filter.gear.len(), 1, "expected exactly one gear rule");
    &filter.gear[0]
}

/// Restricted, and still matching an item whose kind is unknown.
fn matching_default_items() -> Filter {
    Filter {
        kinds: vec![ItemKind::Unknown],
        ..Filter::default()
    }
}

fn equip() -> ShopItem {
    ShopItem {
        id: CatalogId::new(4562),
        slot: 1,
        kind: ItemKind::Equipment,
        name: None,
        price: Some(Gold::new(240_000)),
        grade: Some(3),
        set: Some("set_speed".to_owned()),
        gear_slot: Some("helm".to_owned()),
        // A helm's own stat, which is health and never a roll.
        main_stat: Some(substat("max_hp", Some(472.0))),
        substats: vec![
            substat("speed", Some(15.0)),
            substat("cri", Some(0.03)),
            substat("att", Some(40.0)),
        ],
        limit: None,
    }
}

/// A real token: the kind, and none of the gear fields. Every gear
/// criterion can therefore only ever refuse it, which is what makes it the
/// item the OR was built for.
fn token(name: &str) -> ShopItem {
    ShopItem {
        kind: ItemKind::Token,
        name: Some(name.to_owned()),
        price: Some(Gold::new(184_000)),
        set: None,
        gear_slot: None,
        grade: None,
        substats: Vec::new(),
        ..equip()
    }
}

fn speed_filter() -> Filter {
    Filter {
        kinds: vec![ItemKind::Equipment],
        gear: vec![GearRule {
            min_substats: Some(3),
            required_substats: vec![SubstatReq {
                name: "speed".to_owned(),
                min: Some(stat(15.0)),
            }],
            ..GearRule::default()
        }],
        ..Filter::default()
    }
}

#[test]
fn canonical_equip_speed15_3substats_matches() {
    assert!(speed_filter().matches(&equip()));
}

#[test]
fn rejects_speed_below_min() {
    let mut item = equip();
    item.substats[0] = substat("speed", Some(14.0));
    assert!(!speed_filter().matches(&item));
}

#[test]
fn rejects_fewer_than_min_substats() {
    let mut item = equip();
    item.substats.truncate(2); // speed still present, but only 2 substats
    assert!(!speed_filter().matches(&item));
}

#[test]
fn empty_filter_matches_available_item() {
    assert!(Filter::default().matches(&equip()));
}

#[test]
fn min_substats_zero_counts_as_unrestricted() {
    // The GUI editor can produce `Some(0)` in two clicks.
    let noop = Filter {
        gear: vec![GearRule {
            min_substats: Some(0),
            ..GearRule::default()
        }],
        ..Filter::default()
    };
    assert!(noop.is_unrestricted());
    let real = Filter {
        gear: vec![GearRule {
            min_substats: Some(1),
            ..GearRule::default()
        }],
        ..Filter::default()
    };
    assert!(!real.is_unrestricted());
}

#[test]
fn unrestricted_detection_ignores_include_sold_out() {
    assert!(Filter::default().is_unrestricted());
    let sold_out_only = Filter {
        include_sold_out: true,
        ..Filter::default()
    };
    assert!(sold_out_only.is_unrestricted());
    assert!(!speed_filter().is_unrestricted());
    let names_only = Filter {
        names: vec!["ticketrare_name".to_owned()],
        ..Filter::default()
    };
    assert!(!names_only.is_unrestricted());
}

#[test]
fn names_any_of_matches() {
    let filter = Filter {
        names: vec![
            "ticketrare_name".to_owned(),
            "ticketspecial_name".to_owned(),
        ],
        ..Filter::default()
    };
    let mut item = equip();
    item.name = Some("ticketrare_name".to_owned());
    assert!(filter.matches(&item));
    item.name = Some("friendpoint_name".to_owned());
    assert!(!filter.matches(&item));
}

#[test]
fn name_none_fails_when_names_filter_active() {
    let filter = Filter {
        names: vec!["ticketrare_name".to_owned()],
        ..Filter::default()
    };
    let mut item = equip();
    item.name = None;
    assert!(!filter.matches(&item));
}

#[test]
fn default_filter_drops_sold_out() {
    let mut item = equip();
    item.limit = Some(PurchaseLimit {
        remaining: 0,
        total: 1,
    });
    assert!(!Filter::default().matches(&item));
}

#[test]
fn include_sold_out_keeps_sold_out() {
    let mut item = equip();
    item.limit = Some(PurchaseLimit {
        remaining: 0,
        total: 1,
    });
    let filter = Filter {
        include_sold_out: true,
        ..Filter::default()
    };
    assert!(filter.matches(&item));
}

#[test]
fn unknown_limit_treated_available() {
    let mut item = equip();
    item.limit = None;
    assert!(Filter::default().matches(&item));
}

#[test]
fn kinds_any_of_matches() {
    let filter = Filter {
        kinds: vec![ItemKind::Hero, ItemKind::Token],
        ..Filter::default()
    };
    let mut item = equip();
    item.kind = ItemKind::Token;
    assert!(filter.matches(&item));
    item.kind = ItemKind::Equipment;
    assert!(!filter.matches(&item));
}

#[test]
fn empty_kinds_allows_unknown() {
    let mut item = equip();
    item.kind = ItemKind::Unknown;
    assert!(Filter::default().matches(&item));
}

#[test]
fn sets_any_of_matches() {
    let filter = Filter {
        gear: vec![GearRule {
            sets: vec!["set_speed".to_owned(), "set_counter".to_owned()],
            ..GearRule::default()
        }],
        ..Filter::default()
    };
    assert!(filter.matches(&equip()));
}

#[test]
fn set_none_fails_when_set_filter_active() {
    let filter = Filter {
        gear: vec![GearRule {
            sets: vec!["set_speed".to_owned()],
            ..GearRule::default()
        }],
        ..Filter::default()
    };
    let mut item = equip();
    item.set = None;
    assert!(!filter.matches(&item));
}

#[test]
fn set_case_sensitive_no_match() {
    let filter = Filter {
        gear: vec![GearRule {
            sets: vec!["Set_Speed".to_owned()],
            ..GearRule::default()
        }],
        ..Filter::default()
    };
    assert!(!filter.matches(&equip()));
}

#[test]
fn max_price_inclusive_boundary() {
    let filter = Filter {
        gear: vec![GearRule {
            max_price: Some(Gold::new(240_000)),
            ..GearRule::default()
        }],
        ..Filter::default()
    };
    assert!(filter.matches(&equip()));
}

#[test]
fn max_price_above_fails() {
    let filter = Filter {
        gear: vec![GearRule {
            max_price: Some(Gold::new(239_999)),
            ..GearRule::default()
        }],
        ..Filter::default()
    };
    assert!(!filter.matches(&equip()));
}

#[test]
fn max_price_missing_price_fails() {
    let filter = Filter {
        gear: vec![GearRule {
            max_price: Some(Gold::new(240_000)),
            ..GearRule::default()
        }],
        ..Filter::default()
    };
    let mut item = equip();
    item.price = None;
    assert!(!filter.matches(&item));
}

#[test]
fn min_grade_accepts_equal_and_above() {
    let filter = Filter {
        gear: vec![GearRule {
            min_grade: Some(3),
            ..GearRule::default()
        }],
        ..Filter::default()
    };
    assert!(filter.matches(&equip())); // grade 3, equal to floor
    let mut item = equip();
    item.grade = Some(4);
    assert!(filter.matches(&item)); // grade 4, above floor
}

#[test]
fn min_grade_rejects_below() {
    let filter = Filter {
        gear: vec![GearRule {
            min_grade: Some(4),
            ..GearRule::default()
        }],
        ..Filter::default()
    };
    assert!(!filter.matches(&equip())); // grade 3, below floor
}

#[test]
fn min_grade_unknown_fails() {
    let filter = Filter {
        gear: vec![GearRule {
            min_grade: Some(3),
            ..GearRule::default()
        }],
        ..Filter::default()
    };
    let mut item = equip();
    item.grade = None;
    assert!(!filter.matches(&item)); // fail-closed: unknown grade fails
}

#[test]
fn min_grade_is_a_real_constraint() {
    let real = Filter {
        gear: vec![GearRule {
            min_grade: Some(4),
            ..GearRule::default()
        }],
        ..Filter::default()
    };
    assert!(!real.is_unrestricted());
    // Real even at the floor: `matches` fail-closes on a gradeless item, so
    // `min_grade = 2` still drops every token/hero.
    let floor_two = Filter {
        gear: vec![GearRule {
            min_grade: Some(2),
            ..GearRule::default()
        }],
        ..Filter::default()
    };
    assert!(!floor_two.is_unrestricted());
    let floor_zero = Filter {
        gear: vec![GearRule {
            min_grade: Some(0),
            ..GearRule::default()
        }],
        ..Filter::default()
    };
    assert!(!floor_zero.is_unrestricted());
}

#[test]
fn substat_req_presence_only_min_none() {
    let filter = Filter {
        gear: vec![GearRule {
            required_substats: vec![SubstatReq {
                name: "cri".to_owned(),
                min: None,
            }],
            ..GearRule::default()
        }],
        ..Filter::default()
    };
    assert!(filter.matches(&equip()));
    let mut item = equip();
    item.substats.retain(|stat| stat.name != "cri");
    assert!(!filter.matches(&item));
}

#[test]
fn a_threshold_no_roll_can_reach_is_answered_by_the_main_stat() {
    let hunt = Filter {
        gear: vec![GearRule {
            required_substats: vec![SubstatReq {
                name: "speed".to_owned(),
                min: Some(stat(6.0)),
            }],
            ..GearRule::default()
        }],
        ..Filter::default()
    };
    let boots = ShopItem {
        gear_slot: Some("boot".to_owned()),
        main_stat: Some(substat("speed", Some(8.0))),
        substats: vec![substat("cri", Some(0.03))],
        ..equip()
    };
    assert!(hunt.matches(&boots));
    // And a piece whose speed is only a roll still fails it, so the
    // criterion is not widened into "carries speed at all".
    let rolled = ShopItem {
        substats: vec![substat("speed", Some(4.0))],
        ..equip()
    };
    assert!(!hunt.matches(&rolled));
}

#[test]
fn substat_req_min_requires_present_value() {
    let filter = Filter {
        gear: vec![GearRule {
            required_substats: vec![SubstatReq {
                name: "speed".to_owned(),
                min: Some(stat(15.0)),
            }],
            ..GearRule::default()
        }],
        ..Filter::default()
    };
    let mut item = equip();
    item.substats[0] = substat("speed", None);
    assert!(!filter.matches(&item));
}

#[test]
fn substat_req_scans_all_not_first() {
    // A first-match check would grab the blank entry and wrongly reject.
    let filter = Filter {
        gear: vec![GearRule {
            required_substats: vec![SubstatReq {
                name: "speed".to_owned(),
                min: Some(stat(15.0)),
            }],
            ..GearRule::default()
        }],
        ..Filter::default()
    };
    let mut item = equip();
    item.substats = vec![substat("speed", None), substat("speed", Some(30.0))];
    assert!(filter.matches(&item));
}

#[test]
fn the_substat_mode_decides_whether_one_hit_is_enough() {
    let speed_and_crit = vec![
        SubstatReq {
            name: "speed".to_owned(),
            min: None,
        },
        SubstatReq {
            name: "cri_dmg".to_owned(),
            min: None,
        },
    ];
    // `equip()` carries speed and cri, never cri_dmg.
    let all = Filter {
        gear: vec![GearRule {
            required_substats: speed_and_crit.clone(),
            ..GearRule::default()
        }],
        ..Filter::default()
    };
    assert_eq!(
        only_rule(&all).substat_match,
        SubstatMatch::All,
        "the default"
    );
    assert!(!all.matches(&equip()), "one of two is not both");
    let any = Filter {
        gear: vec![GearRule {
            substat_match: SubstatMatch::Any,
            required_substats: speed_and_crit,
            ..GearRule::default()
        }],
        ..Filter::default()
    };
    assert!(any.matches(&equip()), "one of two is enough");
    // And `Any` still refuses a piece answering neither, or it would be no
    // criterion at all.
    let neither = ShopItem {
        substats: vec![substat("def", Some(30.0))],
        ..equip()
    };
    assert!(!any.matches(&neither));
}

#[test]
fn the_any_mode_still_applies_each_threshold() {
    let filter = Filter {
        gear: vec![GearRule {
            substat_match: SubstatMatch::Any,
            required_substats: vec![SubstatReq {
                name: "speed".to_owned(),
                min: Some(stat(20.0)),
            }],
            ..GearRule::default()
        }],
        ..Filter::default()
    };
    // `equip()` rolls speed 15, under the floor.
    assert!(!filter.matches(&equip()));
}

#[test]
fn switching_the_mode_with_no_requirement_refuses_nothing() {
    let any = Filter {
        gear: vec![GearRule {
            substat_match: SubstatMatch::Any,
            sets: vec!["set_speed".to_owned()],
            ..GearRule::default()
        }],
        ..Filter::default()
    };
    assert!(any.matches(&equip()));
    // And it is not a criterion of its own: alone it still matches
    // everything, so the loop must keep refusing to arm on it.
    let alone = Filter {
        gear: vec![GearRule {
            substat_match: SubstatMatch::Any,
            ..GearRule::default()
        }],
        ..Filter::default()
    };
    assert!(alone.is_unrestricted());
    assert!(alone.matches(&token("ticketrare_name")));
}

#[test]
fn min_substats_counts_duplicates() {
    let filter = Filter {
        gear: vec![GearRule {
            min_substats: Some(3),
            ..GearRule::default()
        }],
        ..Filter::default()
    };
    let mut item = equip();
    item.substats = vec![
        substat("speed", Some(1.0)),
        substat("speed", Some(2.0)),
        substat("speed", Some(3.0)),
    ];
    assert!(filter.matches(&item));
}

#[test]
fn min_grade_outside_the_game_domain_is_refused() {
    // A typo'd floor is fail-closed in `matches` yet counts as real in
    // `is_unrestricted` — an armed loop that never matches.
    for grade in [0, 1, 6, 44] {
        let err = grade_floor(Some(grade)).expect_err("out-of-domain grade should be refused");
        assert!(
            err.contains("does not exist"),
            "error should name the offending grade: {err}"
        );
    }
    for grade in [2, 3, 4, 5] {
        let filter = Filter::try_from(RawFilter {
            min_grade: grade_floor(Some(grade)).expect("real grade parses"),
            ..RawFilter::default()
        })
        .expect("real grade parses");
        assert_eq!(only_rule(&filter).min_grade, Some(grade));
    }
    // Absent stays absent — no key, no rule at all.
    assert_eq!(grade_floor(None), Ok(None));
    assert!(Filter::try_from(RawFilter::default())
        .expect("empty parses")
        .gear
        .is_empty());
}

#[test]
fn a_kind_the_wire_would_tolerate_is_refused_in_a_config_file() {
    let message = hunt_kinds(&vec!["equipement".to_owned()])
        .expect_err("a typo must not become a criterion nothing satisfies");
    // Names what was typed and what is legal.
    assert!(message.contains("equipement"), "{message}");
    for legal in ["equipment", "hero", "token"] {
        assert!(message.contains(legal), "{message}");
    }
    assert_eq!(
        message,
        "unrecognized kind \"equipement\" in [filter] kinds (expected: equipment, hero, token)"
    );
    // The catch-all's own spelling goes the same way.
    assert!(hunt_kinds(&vec!["unknown".to_owned()]).is_err());

    let names = vec!["equipment".to_owned(), "hero".to_owned(), "token".to_owned()];
    assert_eq!(hunt_kinds(&names), Ok(HUNTABLE_KINDS.to_vec()));

    // `Unknown` stays a legal criterion in memory.
    let unknown_hunter = matching_default_items();
    assert_eq!(unknown_hunter.kinds, vec![ItemKind::Unknown]);
    assert!(!unknown_hunter.is_unrestricted());
    assert!(unknown_hunter.matches(&ShopItem::default()));
}

#[test]
fn a_normal_length_name_still_matches_its_criterion_after_sanitizing() {
    let filter = Filter {
        names: vec!["ticketrare_name".to_owned()],
        ..Filter::default()
    };
    assert!(filter.matches(&received("ticketrare_name")));
}

#[test]
fn a_trimmed_criterion_still_matches_a_name_that_had_trailing_whitespace_on_the_wire() {
    let filter = Filter {
        names: vec!["Covenant Bookmark".to_owned()],
        ..Filter::default()
    };
    assert!(filter.matches(&received("Covenant Bookmark\n")));
}

#[test]
fn one_failing_criterion_fails_whole() {
    let filter = Filter {
        gear: vec![GearRule {
            max_price: Some(Gold::new(1_000)),
            ..GearRule::default()
        }],
        ..speed_filter()
    };
    assert!(!filter.matches(&equip()));
}

#[test]
fn a_token_and_a_gear_criterion_match_their_own_items() {
    let bookmark = ShopItem {
        kind: ItemKind::Token,
        price: Some(Gold::new(184_000)),
        ..received("ticketrare_name")
    };
    let helm = ShopItem {
        kind: ItemKind::Equipment,
        set: Some("set_speed".to_owned()),
        gear_slot: Some("helm".to_owned()),
        grade: Some(4),
        ..received("ecq4h_name")
    };
    let both = Filter {
        names: vec!["ticketrare_name".to_owned()],
        gear: vec![GearRule {
            sets: vec!["set_speed".to_owned()],
            ..GearRule::default()
        }],
        ..Filter::default()
    };
    assert!(both.matches(&bookmark), "the token should match by name");
    assert!(both.matches(&helm), "the helm should match by set");
}

#[test]
fn two_rules_hunt_two_pieces_rather_than_their_product() {
    let piece = |slot: &str, stat: &str| GearRule {
        slots: vec![slot.to_owned()],
        required_substats: vec![SubstatReq {
            name: stat.to_owned(),
            min: None,
        }],
        ..GearRule::default()
    };
    let filter = Filter {
        gear: vec![piece("boot", "speed"), piece("neck", "cri_dmg")],
        ..Filter::default()
    };
    let gear = |slot: &str, stat: &str| ShopItem {
        gear_slot: Some(slot.to_owned()),
        main_stat: None,
        substats: vec![substat(stat, Some(4.0))],
        ..equip()
    };
    assert!(filter.matches(&gear("boot", "speed")), "the first piece");
    assert!(filter.matches(&gear("neck", "cri_dmg")), "the second");
    // The two cells the product would buy.
    assert!(!filter.matches(&gear("neck", "speed")));
    assert!(!filter.matches(&gear("boot", "cri_dmg")));
}

#[test]
fn an_empty_rule_neither_arms_nor_matches() {
    let filter = Filter {
        gear: vec![GearRule::default()],
        ..Filter::default()
    };
    assert!(filter.is_unrestricted());
    // Beside a real criterion it must not widen it either: the branch asks
    // every rule that restricts, and this one is not asked at all.
    let named = Filter {
        names: vec!["ticketrare_name".to_owned()],
        gear: vec![GearRule::default()],
        ..Filter::default()
    };
    assert!(!named.matches(&equip()), "a nameless helm answers no name");
    assert!(named.matches(&token("ticketrare_name")));
}

#[test]
fn a_flat_filter_folds_into_one_rule() {
    let filter = Filter::try_from(RawFilter {
        names: vec!["ticketrare_name".to_owned()],
        sets: vec!["set_speed".to_owned()],
        min_grade: Some(4),
        ..RawFilter::default()
    })
    .expect("flat criteria must keep loading");
    assert_eq!(filter.names, vec!["ticketrare_name".to_owned()]);
    let rule = only_rule(&filter);
    assert_eq!(rule.sets, vec!["set_speed".to_owned()]);
    assert_eq!(rule.min_grade, Some(4));
    let back = Filter::try_from(RawFilter {
        names: filter.names.clone(),
        gear: filter.gear.clone(),
        ..RawFilter::default()
    })
    .expect("the new shape reloads");
    assert_eq!(back, filter);
}

#[test]
fn a_file_holding_both_spellings_is_refused() {
    let error = Filter::try_from(RawFilter {
        sets: vec!["set_speed".to_owned()],
        gear: vec![GearRule {
            slots: vec!["boot".to_owned()],
            ..GearRule::default()
        }],
        ..RawFilter::default()
    })
    .expect_err("two gear criteria in one file are ambiguous");
    assert!(error.contains("gear criteria"), "{error}");
}

#[test]
fn a_mode_alone_does_not_make_a_rule() {
    for raw in [
        RawFilter {
            substat_match: SubstatMatch::Any,
            ..RawFilter::default()
        },
        RawFilter {
            min_substats: Some(0),
            ..RawFilter::default()
        },
    ] {
        let filter = Filter::try_from(raw).expect("parses");
        assert!(filter.gear.is_empty(), "an inert key made a rule");
        assert!(filter.is_unrestricted());
    }
}

/// A filter naming both branches. Its refusals are pinned separately, by
/// [`a_two_branch_filter_refuses_an_item_that_answers_neither`].
fn both_branches() -> Filter {
    Filter {
        names: vec!["ticketrare_name".to_owned()],
        gear: vec![GearRule {
            sets: vec!["set_speed".to_owned()],
            ..GearRule::default()
        }],
        ..Filter::default()
    }
}

#[test]
fn the_two_branches_cover_their_truth_table() {
    let bookmark = token("ticketrare_name");
    let helm = equip();

    let empty = Filter::default();
    assert!(empty.matches(&bookmark), "no criterion keeps the token");
    assert!(empty.matches(&helm), "no criterion keeps the helm");

    let named = Filter {
        names: vec!["ticketrare_name".to_owned()],
        ..Filter::default()
    };
    assert!(named.matches(&bookmark), "the name branch keeps its token");
    assert!(!named.matches(&helm), "a nameless helm answers no name");

    let geared = Filter {
        gear: vec![GearRule {
            sets: vec!["set_speed".to_owned()],
            ..GearRule::default()
        }],
        ..Filter::default()
    };
    assert!(!geared.matches(&bookmark), "a setless token answers no set");
    assert!(geared.matches(&helm), "the gear branch keeps its helm");

    let both = both_branches();
    assert!(both.matches(&bookmark), "the token still matches by name");
    assert!(both.matches(&helm), "the helm still matches by set");
}

#[test]
fn a_two_branch_filter_refuses_an_item_that_answers_neither() {
    let both = both_branches();
    assert!(
        !both.matches(&token("friendpoint_name")),
        "the friendship bookmark answers neither branch"
    );
    let wrong_set = ShopItem {
        set: Some("set_rage".to_owned()),
        ..equip()
    };
    assert!(
        !both.matches(&wrong_set),
        "a nameless helm of the wrong set answers neither branch"
    );
}

#[test]
fn a_zero_substat_floor_does_not_arm_the_gear_branch() {
    let filter = Filter {
        names: vec!["ticketrare_name".to_owned()],
        gear: vec![GearRule {
            min_substats: Some(0),
            ..GearRule::default()
        }],
        ..Filter::default()
    };
    assert!(filter.matches(&token("ticketrare_name")));
}

fn slot_filter(slots: &[&str]) -> Filter {
    Filter {
        gear: vec![GearRule {
            slots: slots.iter().map(|s| (*s).to_owned()).collect(),
            ..GearRule::default()
        }],
        ..Filter::default()
    }
}

#[test]
fn a_slot_criterion_is_any_of() {
    // `equip()` is a helm.
    assert!(slot_filter(&["helm"]).matches(&equip()));
    assert!(slot_filter(&["boot", "helm"]).matches(&equip()));
    assert!(!slot_filter(&["boot"]).matches(&equip()));
}

#[test]
fn an_empty_slot_list_does_not_constrain() {
    assert!(slot_filter(&[]).matches(&equip()));
}

#[test]
fn an_unanswered_slot_fails_closed() {
    // A hero, a token, or every item at all when the server had no Catalog.
    // Fail-open would buy across every slot the moment the lookup vanished.
    let slotless = ShopItem {
        gear_slot: None,
        ..equip()
    };
    assert!(!slot_filter(&["helm"]).matches(&slotless));
}

#[test]
fn naming_a_slot_is_a_criterion() {
    assert!(!slot_filter(&["helm"]).is_unrestricted());
    assert!(Filter::default().is_unrestricted());
}

/// An item whose name came over the wire.
fn received(name: &str) -> ShopItem {
    ShopItem {
        name: Some(sanitize_wire_text(name.to_owned()).0),
        ..ShopItem::default()
    }
}

fn named(name: &str) -> ShopItem {
    received(name)
}

fn slotted(slot: &str) -> ShopItem {
    ShopItem {
        gear_slot: Some(slot.to_owned()),
        ..ShopItem::default()
    }
}

fn roll(slots: Vec<ShopItem>) -> ShopSnapshot {
    ShopSnapshot {
        merchant: None,
        slots,
        refresh: None,
    }
}

#[test]
fn fires_when_the_whole_roll_came_back_slotless() {
    let snapshot = roll(vec![named("a"), named("b")]);
    assert!(slot_filter(&["helm"]).slots_unanswerable(&snapshot));
}

#[test]
fn stays_quiet_when_any_item_answered() {
    // Five heroes and one helm is a normal roll, not a failure.
    let snapshot = roll(vec![named("a"), slotted("helm")]);
    assert!(!slot_filter(&["helm"]).slots_unanswerable(&snapshot));
}

#[test]
fn stays_quiet_when_no_slot_was_asked_for() {
    let snapshot = roll(vec![named("a")]);
    assert!(!Filter::default().slots_unanswerable(&snapshot));
}

#[test]
fn stays_quiet_on_an_empty_roll() {
    // Nothing to be unable to answer about; a slotless roll of nothing
    // is a degraded snapshot and a different diagnosis.
    assert!(!slot_filter(&["helm"]).slots_unanswerable(&roll(Vec::new())));
}

#[test]
fn a_kind_is_quoted_where_it_names_none() {
    assert_eq!(
        unrecognized_kind("\"hat\""),
        "unrecognized kind \"hat\" in [filter] kinds (expected: equipment, hero, token)"
    );
    let names = vec!["hero".to_owned(), "a\"b\n".to_owned()];
    assert_eq!(
        hunt_kinds(&names),
        Err(unrecognized_kind("\"a\\\"b\\n\""))
    );
}

//! What the wire says of a shop, and what becomes of it.

use arkyve_refresh_shop::domain::filter::kind_named;
use arkyve_refresh_shop::domain::shop::{
    lenient_elements, lenient_slots, optional_catalog_id, sanitize_wire_text, CatalogId, Crystals,
    Gold, PurchaseLimit, RefreshMeta, ShopItem, ShopSnapshot, Substat, MAX_WIRE_TEXT,
};
use arkyve_refresh_shop::domain::stat_value::StatValue;
use serde_json::Value;

/// A field that may be absent or null, and otherwise must decode.
fn optional<T>(
    object: &Value,
    key: &str,
    decode: impl Fn(&Value) -> Option<T>,
) -> Result<Option<T>, ()> {
    match object.get(key) {
        None | Some(Value::Null) => Ok(None),
        Some(value) => decode(value).map(Some).ok_or(()),
    }
}

fn number(value: &Value) -> Option<u32> {
    value.as_u64().and_then(|n| u32::try_from(n).ok())
}

fn small(value: &Value) -> Option<u8> {
    value.as_u64().and_then(|n| u8::try_from(n).ok())
}

fn words(value: &Value) -> Option<String> {
    value
        .as_str()
        .map(|raw| sanitize_wire_text(raw.to_owned()).0)
}

fn substat(value: &Value) -> Option<Substat> {
    let name = words(value.get("name")?)?;
    let value = optional(value, "value", |v| {
        v.as_f64().map(|f| StatValue::from_bits(f.to_bits()))
    })
    .ok()?;
    Some(Substat { name, value })
}

fn limit(value: &Value) -> Option<PurchaseLimit> {
    Some(PurchaseLimit {
        remaining: number(value.get("remaining")?)?,
        total: number(value.get("total")?)?,
    })
}

fn slot(value: &Value) -> Option<ShopItem> {
    value.as_object()?;
    let substats = value.get("substats").and_then(Value::as_array);
    Some(ShopItem {
        id: optional_catalog_id(optional(value, "id", number).ok()?),
        slot: optional(value, "slot", small).ok()?.unwrap_or(0),
        kind: kind_named(value.get("kind").and_then(Value::as_str).unwrap_or("")),
        name: optional(value, "name", words).ok()?,
        price: optional(value, "price", number).ok()?.map(Gold::new),
        grade: optional(value, "grade", small).ok()?,
        set: optional(value, "set", words).ok()?,
        gear_slot: optional(value, "gear_slot", words).ok()?,
        main_stat: value.get("main_stat").and_then(substat),
        substats: lenient_elements(substats.map(|all| all.iter().map(substat).collect())),
        limit: value.get("limit").and_then(limit),
    })
}

fn parse(json: &str) -> ShopSnapshot {
    let value: Value = serde_json::from_str(json).expect("snapshot should parse");
    let slots = value.get("slots").and_then(Value::as_array);
    let (slots, _) = lenient_slots(slots.map(|all| all.iter().map(slot).collect()));
    let refresh = value.get("refresh").and_then(|meta| {
        Some(RefreshMeta {
            crystal_balance: Crystals::new(number(meta.get("crystal_balance")?)?),
            cost: Crystals::new(number(meta.get("cost")?)?),
        })
    });
    ShopSnapshot {
        merchant: None,
        slots,
        refresh,
    }
}

fn xtl(raw: u32) -> Crystals {
    Crystals::new(raw)
}

fn gold(raw: u32) -> Gold {
    Gold::new(raw)
}

/// How far a gauge is filled.
fn filled(spent: Crystals, cap: Crystals) -> f32 {
    let (part, whole) = spent.ratio_of(cap);
    part as f32 / whole as f32
}

#[test]
fn refresh_full_object_parses() {
    let snapshot = parse(r#"{"refresh":{"crystal_balance":95,"cost":3}}"#);
    assert_eq!(
        snapshot.refresh,
        Some(RefreshMeta {
            crystal_balance: xtl(95),
            cost: xtl(3),
        })
    );
}

#[test]
fn a_zero_amount_is_a_real_amount_and_only_absence_is_unknown() {
    let priced = parse(r#"{"slots":[{"price":0}],"refresh":{"crystal_balance":0,"cost":3}}"#);
    assert_eq!(priced.slots[0].price, Some(gold(0)));
    assert_eq!(
        priced.refresh.map(|meta| meta.crystal_balance),
        Some(xtl(0))
    );

    for json in [r#"{"slots":[{}]}"#, r#"{"slots":[{"price":null}]}"#] {
        assert_eq!(parse(json).slots[0].price, None, "{json}");
    }

    // Transparent on the way in: no wrapper object, no truncation.
    assert_eq!(
        parse(r#"{"slots":[{"price":4294967295}]}"#).slots[0].price,
        Some(gold(u32::MAX))
    );
}

#[test]
fn currency_arithmetic_saturates_at_both_ends() {
    assert_eq!(gold(200_000).saturating_sub(gold(184_000)), gold(16_000));
    assert_eq!(gold(10).saturating_sub(gold(184_000)), gold(0));

    assert_eq!(xtl(3).saturating_add(xtl(3)), xtl(6));
    assert_eq!(xtl(u32::MAX).saturating_add(xtl(1)), xtl(u32::MAX));
    assert_eq!(xtl(6).saturating_sub(xtl(9)), xtl(0));

    assert_eq!(xtl(3).checked_add(xtl(3)), Some(xtl(6)));
    assert_eq!(xtl(u32::MAX).checked_add(xtl(1)), None);
}

#[test]
fn both_currencies_display_thousands_grouped() {
    assert_eq!(gold(1_234_567).to_text(), "1,234,567");
    assert_eq!(xtl(1_000).to_text(), "1,000");
    assert_eq!(gold(0).to_text(), "0");
}

#[test]
fn refresh_partial_object_degrades_to_none() {
    let snapshot = parse(r#"{"refresh":{"crystal_balance":95},"slots":[{}]}"#);
    assert_eq!(snapshot.refresh, None);
    assert_eq!(snapshot.slots.len(), 1);
}

#[test]
fn refresh_null_or_absent_is_none() {
    assert_eq!(parse(r#"{"refresh":null}"#).refresh, None);
    assert_eq!(parse("{}").refresh, None);
}

#[test]
fn refresh_mistyped_degrades_to_none() {
    assert_eq!(parse(r#"{"refresh":5,"slots":[{}]}"#).refresh, None);
    assert_eq!(parse(r#"{"refresh":"n/a"}"#).refresh, None);
    assert_eq!(parse(r#"{"refresh":[]}"#).refresh, None);
}

#[test]
fn partial_limit_degrades_to_buyable() {
    // Fail-open: a dropped limit must never read as sold out.
    let snapshot = parse(r#"{"slots":[{"id":5,"limit":{"remaining":0}}]}"#);
    assert_eq!(snapshot.slots[0].limit, None);
    assert!(!snapshot.slots[0].is_sold_out());
}

#[test]
fn full_limit_still_parses() {
    let snapshot = parse(r#"{"slots":[{"limit":{"remaining":0,"total":1}}]}"#);
    assert!(snapshot.slots[0].is_sold_out());
}

#[test]
fn bad_substat_entry_is_dropped_not_fatal() {
    let snapshot =
        parse(r#"{"slots":[{"substats":[{"value":4.0},{"name":"speed","value":8.0},7]}]}"#);
    let substats = &snapshot.slots[0].substats;
    assert_eq!(substats.len(), 1);
    assert_eq!(substats[0].name, "speed");
}

#[test]
fn slot_by_id_finds_the_slot_and_the_zero_sentinel_becomes_no_id() {
    // The haul-recording lookup: `0` must never resolve to a slot.
    let snapshot = parse(r#"{"slots":[{"id":0,"slot":1},{"id":102,"slot":2}]}"#);
    assert_eq!(snapshot.slots[0].id, None, "the 0 folds to absent at parse");
    let hit = snapshot
        .slot_by_id(CatalogId::new(102).expect("102 is not zero"))
        .expect("the slot carrying 102");
    assert_eq!(hit.slot, 2);
    assert_eq!(CatalogId::new(0), None);
    assert!(
        snapshot
            .slot_by_id(CatalogId::new(999).expect("999 is not zero"))
            .is_none()
    );
}

#[test]
fn a_bad_scalar_drops_its_slot_and_not_the_snapshot() {
    for json in [
        r#"{"slots":[{"id":101,"slot":1},{"id":102,"slot":300},{"id":103,"slot":3}]}"#,
        r#"{"slots":[{"id":101,"slot":1},{"id":102,"price":"184k"},{"id":103,"slot":3}]}"#,
    ] {
        let snapshot = parse(json);
        let surviving: Vec<Option<CatalogId>> =
            snapshot.slots.iter().map(|item| item.id).collect();
        assert_eq!(
            surviving,
            [CatalogId::new(101), CatalogId::new(103)],
            "{json}"
        );
    }
}

#[test]
fn mistyped_slots_degrade_to_empty() {
    for json in [
        r#"{"slots":"corrupt"}"#,
        r#"{"slots":5}"#,
        r#"{"slots":{"1":{"id":101}}}"#,
    ] {
        assert!(parse(json).slots.is_empty(), "{json}");
    }
    // Absent and null keep working through the field's `default`.
    assert!(parse("{}").slots.is_empty());
}

#[test]
fn mistyped_substats_degrade_to_empty() {
    let snapshot = parse(r#"{"slots":[{"id":9,"substats":"corrupt"}]}"#);
    assert!(snapshot.slots[0].substats.is_empty());
    assert_eq!(snapshot.slots[0].id, CatalogId::new(9));
}

#[test]
fn a_newline_in_a_server_name_cannot_reach_a_journal_line() {
    let snapshot = parse(r#"{"slots":[{"name":"before\nafter"}]}"#);
    let line = snapshot.slots[0].name.as_deref().expect("name present");
    assert!(!line.contains('\n'), "{line:?}");
    assert!(line.contains("before after"), "{line:?}");
}

#[test]
fn an_overlong_server_name_is_capped() {
    let long_name = "x".repeat(500);
    let snapshot = parse(&format!("{{\"slots\":[{{\"name\":\"{long_name}\"}}]}}"));
    let name = snapshot.slots[0].name.as_deref().expect("name present");
    assert_eq!(name.chars().count(), MAX_WIRE_TEXT);
}

#[test]
fn a_carriage_return_and_a_tab_are_replaced_not_deleted() {
    let snapshot = parse(r#"{"slots":[{"name":"a\r\nb"}]}"#);
    let name = snapshot.slots[0].name.as_deref().expect("name present");
    assert!(!name.chars().any(char::is_control), "{name:?}");
    let a_index = name.find('a').expect("a present");
    let b_index = name.find('b').expect("b present");
    assert!(
        b_index > a_index + 1,
        "a and b should stay separated: {name:?}"
    );
}

#[test]
fn an_ordinary_name_is_returned_unchanged() {
    let snapshot = parse(r#"{"slots":[{"name":"Ancient Coin","set":"set_speed"}]}"#);
    assert_eq!(snapshot.slots[0].name.as_deref(), Some("Ancient Coin"));
    assert_eq!(snapshot.slots[0].set.as_deref(), Some("set_speed"));
}

#[test]
fn a_trailing_control_character_does_not_leave_a_space_behind() {
    let snapshot = parse(r#"{"slots":[{"name":"Covenant Bookmark\n"}]}"#);
    assert_eq!(snapshot.slots[0].name.as_deref(), Some("Covenant Bookmark"));
}

#[test]
fn a_spend_ratio_stays_inside_the_gauge() {
    assert_eq!(
        filled(Crystals::new(75), Crystals::new(150)),
        0.5,
        "half a budget"
    );
    assert_eq!(filled(Crystals::new(0), Crystals::new(150)), 0.0);
    assert_eq!(
        filled(Crystals::new(400), Crystals::new(150)),
        1.0,
        "a budget lowered under what is already spent"
    );
}

#[test]
fn a_zero_budget_reads_as_already_reached() {
    assert_eq!(filled(Crystals::new(0), Crystals::new(0)), 1.0);
}

#[test]
fn a_dropped_slot_is_noticed() {
    let (kept, short) = lenient_slots(Some(vec![Some(ShopItem::default()), None]));
    assert_eq!(kept.len(), 1);
    assert!(short);
    assert_eq!(lenient_slots(Some(vec![Some(ShopItem::default())])).1, false);
    assert_eq!(lenient_slots(None).1, false);
}

#[test]
fn sanitizing_twice_is_sanitizing_once_on_a_cut_that_lands_on_a_space() {
    let raw = format!("{} tail", "x".repeat(MAX_WIRE_TEXT - 1));
    let (once, changed) = sanitize_wire_text(raw);
    assert!(changed);
    assert_eq!(once, "x".repeat(MAX_WIRE_TEXT - 1));
    assert_eq!(sanitize_wire_text(once.clone()), (once, false));
}

#[test]
fn a_slot_number_falls_back_to_its_place() {
    let item = ShopItem::default();
    assert_eq!(item.effective_slot(2), 3);
    assert_eq!(item.effective_slot(usize::MAX), u8::MAX);
    let numbered = ShopItem { slot: 6, ..ShopItem::default() };
    assert_eq!(numbered.effective_slot(0), 6);
}

#[test]
fn stat_values_compare_as_numbers() {
    let stat = |value: f64| StatValue::from_bits(value.to_bits());
    assert!(stat(15.0).at_least(stat(15.0)));
    assert!(!stat(14.9).at_least(stat(15.0)));
    assert!(stat(-1.0).at_least(stat(-2.0)));
    assert!(stat(0.0).equals(stat(-0.0)));
    assert!(!stat(f64::NAN).equals(stat(f64::NAN)));
    assert!(!stat(f64::NAN).at_least(stat(0.0)));
    assert!(stat(f64::INFINITY).at_least(stat(f64::MAX)));
}

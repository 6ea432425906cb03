//! Client-side interest filter: the player's criteria for which shop items are
//! worth stopping the refresh loop to buy.

use crate::domain::shop::{Gold, ItemKind, PurchaseLimit, ShopItem, ShopSnapshot, Substat};
use crate::domain::stat_value::{self, StatValue};
use crate::text;
use vstd::prelude::*;
use vstd::string::*;

verus! {

/// The lowest gear grade the game ships.
pub const GRADE_MIN: u8 = 2;

/// The highest gear grade the game ships.
pub const GRADE_MAX: u8 = 5;

/// The kinds a criterion may name, in the order a settings page lists them.
pub const HUNTABLE_KINDS: [ItemKind; 3] = [ItemKind::Equipment, ItemKind::Hero, ItemKind::Token];

/// Player criteria. An empty list does not constrain, so a default filter
/// matches every available item.
#[derive(Debug, Clone, PartialEq)]
pub struct Filter {
    /// Kept item kinds (any of them); empty keeps all.
    pub kinds: Vec<ItemKind>,
    /// Kept items (any of them), by exact internal name; empty keeps all.
    pub names: Vec<String>,
    /// The pieces of gear being hunted, one rule each. An item satisfying any
    /// of them answers the gear branch.
    pub gear: Vec<GearRule>,
    /// Keep sold-out items.
    pub include_sold_out: bool,
}

/// One piece of gear worth stopping for: every criterion set here has to hold.
/// Missing data fails each of them.
#[derive(Debug, Clone, PartialEq)]
pub struct GearRule {
    /// Kept sets (any of them), by exact internal id; empty keeps all.
    pub sets: Vec<String>,
    /// Kept wearable slots (any of them), by exact internal id; empty keeps all.
    pub slots: Vec<String>,
    /// Minimum count of rolled substats.
    pub min_substats: Option<u8>,
    /// Substats the item must carry.
    pub required_substats: Vec<SubstatReq>,
    /// Whether all of them or any one must hold. A mode, not a criterion.
    pub substat_match: SubstatMatch,
    /// Inclusive gold cap of this rule alone.
    pub max_price: Option<Gold>,
    /// Inclusive minimum gear grade.
    pub min_grade: Option<u8>,
}

/// How the required substats of a rule combine.
#[derive(Debug, Clone, Copy, PartialEq, Eq, Structural)]
pub enum SubstatMatch {
    /// Every requirement holds.
    All,
    /// At least one requirement holds.
    Any,
}

/// One required substat, by exact internal name. `min` is an inclusive
/// threshold; `None` means presence is enough.
#[derive(Debug, Clone, PartialEq)]
pub struct SubstatReq {
    pub name: String,
    pub min: Option<StatValue>,
}

/// The shape a settings file may spell, which is wider than [`Filter`]'s own:
/// the gear criteria may stand as flat keys, and then become one rule.
#[derive(Debug, Clone, PartialEq)]
pub struct RawFilter {
    pub kinds: Vec<ItemKind>,
    pub names: Vec<String>,
    pub gear: Vec<GearRule>,
    pub include_sold_out: bool,
    pub sets: Vec<String>,
    pub slots: Vec<String>,
    pub min_substats: Option<u8>,
    pub required_substats: Vec<SubstatReq>,
    pub substat_match: SubstatMatch,
    pub max_price: Option<Gold>,
    pub min_grade: Option<u8>,
}

impl Default for SubstatMatch {
    fn default() -> (mode: Self)
        ensures
            mode == SubstatMatch::All,
    {
        SubstatMatch::All
    }
}

impl SubstatMatch {
    /// Whether this is the default mode.
    pub fn is_all(&self) -> (yes: bool)
        ensures
            yes == (*self == SubstatMatch::All),
    {
        matches!(self, SubstatMatch::All)
    }
}

impl Default for Filter {
    fn default() -> (filter: Self)
        ensures
            filter.kinds@.len() == 0,
            filter.names@.len() == 0,
            filter.gear@.len() == 0,
            !filter.include_sold_out,
    {
        Filter {
            kinds: Vec::new(),
            names: Vec::new(),
            gear: Vec::new(),
            include_sold_out: false,
        }
    }
}

impl Default for GearRule {
    fn default() -> (rule: Self)
        ensures
            rule.sets@.len() == 0,
            rule.slots@.len() == 0,
            rule.min_substats is None,
            rule.required_substats@.len() == 0,
            rule.substat_match == SubstatMatch::All,
            rule.max_price is None,
            rule.min_grade is None,
    {
        GearRule {
            sets: Vec::new(),
            slots: Vec::new(),
            min_substats: None,
            required_substats: Vec::new(),
            substat_match: SubstatMatch::All,
            max_price: None,
            min_grade: None,
        }
    }
}

impl Default for RawFilter {
    fn default() -> (raw: Self)
        ensures
            raw.kinds@.len() == 0,
            raw.names@.len() == 0,
            raw.gear@.len() == 0,
            !raw.include_sold_out,
            !raw.flat().restricting(),
            raw.substat_match == SubstatMatch::All,
            raw.min_substats is None,
    {
        RawFilter {
            kinds: Vec::new(),
            names: Vec::new(),
            gear: Vec::new(),
            include_sold_out: false,
            sets: Vec::new(),
            slots: Vec::new(),
            min_substats: None,
            required_substats: Vec::new(),
            substat_match: SubstatMatch::All,
            max_price: None,
            min_grade: None,
        }
    }
}

/// A floor of zero substats is no criterion.
pub open spec fn floor_is_real(floor: Option<u8>) -> bool {
    floor matches Some(min) && min > 0
}

/// Whether a floor on the count of substats constrains.
pub fn substat_floor_is_real(floor: Option<u8>) -> (yes: bool)
    ensures
        yes == floor_is_real(floor),
{
    match floor {
        Some(min) => min > 0,
        None => false,
    }
}

impl SubstatReq {
    /// Whether one stat answers this requirement.
    pub open spec fn answered_by(self, stat: Substat) -> bool {
        &&& stat.name@ == self.name@
        &&& match self.min {
            None => true,
            Some(min) => stat.value matches Some(value) && stat_value::reaches(value@, min@),
        }
    }

    /// Whether the item carries a stat that answers this requirement: its main
    /// stat or any of its rolls.
    pub open spec fn satisfied(self, item: ShopItem) -> bool {
        ||| item.main_stat matches Some(stat) && self.answered_by(stat)
        ||| exists|i: int|
            0 <= i < item.substats@.len() && self.answered_by(#[trigger] item.substats@[i])
    }

    fn answers(&self, stat: &Substat) -> (yes: bool)
        ensures
            yes == self.answered_by(*stat),
    {
        if stat.name != self.name {
            return false;
        }
        match self.min {
            None => true,
            Some(min) => match stat.value {
                Some(value) => value.at_least(min),
                None => false,
            },
        }
    }

    /// Scans every stat of the matching name: an item may list the same stat
    /// twice, a blank entry and then the rolled value.
    pub fn satisfied_by(&self, item: &ShopItem) -> (yes: bool)
        ensures
            yes == self.satisfied(*item),
    {
        if let Some(stat) = &item.main_stat {
            if self.answers(stat) {
                return true;
            }
        }
        for i in 0..item.substats.len()
            invariant
                forall|j: int| 0 <= j < i ==> !self.answered_by(#[trigger] item.substats@[j]),
                !(item.main_stat matches Some(stat) && self.answered_by(stat)),
        {
            if self.answers(&item.substats[i]) {
                return true;
            }
        }
        false
    }
}

impl GearRule {
    /// Whether this rule constrains at all.
    pub open spec fn restricting(self) -> bool {
        ||| self.sets@.len() > 0
        ||| self.slots@.len() > 0
        ||| self.required_substats@.len() > 0
        ||| floor_is_real(self.min_substats)
        ||| self.max_price is Some
        ||| self.min_grade is Some
    }

    /// The required substats hold, in this rule's mode.
    pub open spec fn substats_fit(self, item: ShopItem) -> bool {
        match self.substat_match {
            SubstatMatch::All => forall|i: int|
                0 <= i < self.required_substats@.len() ==> (
                #[trigger] self.required_substats@[i]).satisfied(item),
            SubstatMatch::Any => self.required_substats@.len() == 0 || exists|i: int|
                0 <= i < self.required_substats@.len() && (
                #[trigger] self.required_substats@[i]).satisfied(item),
        }
    }

    /// The item holds every criterion that is set here.
    pub open spec fn fits(self, item: ShopItem) -> bool {
        &&& self.min_substats matches Some(min) ==> item.substats@.len() >= min
        &&& self.max_price matches Some(max) ==> (item.price matches Some(price) && price@
            <= max@)
        &&& self.min_grade matches Some(min) ==> (item.grade matches Some(grade) && grade >= min)
        &&& self.sets@.len() > 0 ==> (item.set matches Some(set) && text::lists(self.sets@, set@))
        &&& self.slots@.len() > 0 ==> (item.gear_slot matches Some(slot) && text::lists(
            self.slots@,
            slot@,
        ))
        &&& self.substats_fit(item)
    }

    /// Whether this rule constrains at all. The mode of the required substats
    /// is no criterion.
    pub fn restricts(&self) -> (yes: bool)
        ensures
            yes == self.restricting(),
    {
        !self.sets.is_empty() || !self.slots.is_empty() || !self.required_substats.is_empty()
            || substat_floor_is_real(self.min_substats) || self.max_price.is_some()
            || self.min_grade.is_some()
    }

    fn substats_match(&self, item: &ShopItem) -> (yes: bool)
        ensures
            yes == self.substats_fit(*item),
    {
        match self.substat_match {
            SubstatMatch::All => {
                for i in 0..self.required_substats.len()
                    invariant
                        self.substat_match == SubstatMatch::All,
                        forall|j: int|
                            0 <= j < i ==> (#[trigger] self.required_substats@[j]).satisfied(*item),
                {
                    if !self.required_substats[i].satisfied_by(item) {
                        return false;
                    }
                }
                true
            },
            SubstatMatch::Any => {
                for i in 0..self.required_substats.len()
                    invariant
                        self.substat_match == SubstatMatch::Any,
                        forall|j: int|
                            0 <= j < i ==> !(#[trigger] self.required_substats@[j]).satisfied(
                                *item,
                            ),
                {
                    if self.required_substats[i].satisfied_by(item) {
                        return true;
                    }
                }
                self.required_substats.is_empty()
            },
        }
    }

    /// Whether the item looks like this piece: every criterion set here holds,
    /// and missing data fails each.
    pub fn matches(&self, item: &ShopItem) -> (yes: bool)
        ensures
            yes == self.fits(*item),
    {
        if let Some(min) = self.min_substats {
            if item.substats.len() < min as usize {
                return false;
            }
        }
        if let Some(max) = self.max_price {
            match item.price {
                Some(price) => {
                    if price.get() > max.get() {
                        return false;
                    }
                },
                None => {
                    return false;
                },
            }
        }
        if let Some(min) = self.min_grade {
            match item.grade {
                Some(grade) => {
                    if grade < min {
                        return false;
                    }
                },
                None => {
                    return false;
                },
            }
        }
        if !self.sets.is_empty() {
            match &item.set {
                Some(set) => {
                    if !text::list_holds(&self.sets, set) {
                        return false;
                    }
                },
                None => {
                    return false;
                },
            }
        }
        if !self.slots.is_empty() {
            match &item.gear_slot {
                Some(slot) => {
                    if !text::list_holds(&self.slots, slot) {
                        return false;
                    }
                },
                None => {
                    return false;
                },
            }
        }
        self.substats_match(item)
    }
}

impl Filter {
    /// Whether some rule constrains.
    pub open spec fn hunting_gear(self) -> bool {
        exists|i: int| 0 <= i < self.gear@.len() && (#[trigger] self.gear@[i]).restricting()
    }

    /// The item is one of the named things.
    pub open spec fn names_item(self, item: ShopItem) -> bool {
        item.name matches Some(name) && text::lists(self.names@, name@)
    }

    /// Some rule that constrains accepts the item.
    pub open spec fn gear_accepts(self, item: ShopItem) -> bool {
        exists|i: int|
            0 <= i < self.gear@.len() && (#[trigger] self.gear@[i]).restricting()
                && self.gear@[i].fits(item)
    }

    /// No criterion is set.
    pub open spec fn unrestricted(self) -> bool {
        self.kinds@.len() == 0 && self.names@.len() == 0 && !self.hunting_gear()
    }

    /// The item is worth stopping for. The sold-out and kind gates apply to
    /// every item; past them the name branch and the gear branch each accept on
    /// their own, and where neither has a criterion the gates alone decide.
    pub open spec fn accepts(self, item: ShopItem) -> bool {
        &&& self.include_sold_out || !item.sold_out()
        &&& self.kinds@.len() == 0 || self.kinds@.contains(item.kind)
        &&& {
            ||| self.names@.len() == 0 && !self.hunting_gear()
            ||| self.names_item(item)
            ||| self.gear_accepts(item)
        }
    }

    /// Whether this item is worth stopping for.
    pub fn matches(&self, item: &ShopItem) -> (yes: bool)
        ensures
            yes == self.accepts(*item),
    {
        if !self.include_sold_out && item.is_sold_out() {
            return false;
        }
        if !self.kinds.is_empty() && !self.keeps_kind(item.kind) {
            return false;
        }
        let named = !self.names.is_empty();
        let geared = self.hunts_gear();
        if !named && !geared {
            true
        } else {
            (named && self.name_branch(item)) || (geared && self.gear_branch(item))
        }
    }

    fn keeps_kind(&self, kind: ItemKind) -> (yes: bool)
        ensures
            yes == self.kinds@.contains(kind),
    {
        for i in 0..self.kinds.len()
            invariant
                forall|j: int| 0 <= j < i ==> self.kinds@[j] != kind,
        {
            if self.kinds[i] == kind {
                return true;
            }
        }
        false
    }

    /// Whether any rule restricts. A rule with nothing set matches every piece
    /// of gear, so it must not arm the branch.
    fn hunts_gear(&self) -> (yes: bool)
        ensures
            yes == self.hunting_gear(),
    {
        for i in 0..self.gear.len()
            invariant
                forall|j: int| 0 <= j < i ==> !(#[trigger] self.gear@[j]).restricting(),
        {
            if self.gear[i].restricts() {
                return true;
            }
        }
        false
    }

    fn name_branch(&self, item: &ShopItem) -> (yes: bool)
        ensures
            yes == self.names_item(*item),
    {
        match &item.name {
            Some(name) => text::list_holds(&self.names, name),
            None => false,
        }
    }

    fn gear_branch(&self, item: &ShopItem) -> (yes: bool)
        ensures
            yes == self.gear_accepts(*item),
    {
        for i in 0..self.gear.len()
            invariant
                forall|j: int|
                    0 <= j < i ==> !((#[trigger] self.gear@[j]).restricting()
                        && self.gear@[j].fits(*item)),
        {
            if self.gear[i].restricts() && self.gear[i].matches(item) {
                return true;
            }
        }
        false
    }

    /// Whether a rule names a wearable slot while no item of a roll that has
    /// items carries one: that rule then accepts nothing, for want of an
    /// answer.
    pub fn slots_unanswerable(&self, snapshot: &ShopSnapshot) -> (yes: bool)
        ensures
            yes == ((exists|i: int|
                0 <= i < self.gear@.len() && (#[trigger] self.gear@[i]).slots@.len() > 0)
                && snapshot.slots@.len() > 0 && forall|i: int|
                0 <= i < snapshot.slots@.len() ==> (
                #[trigger] snapshot.slots@[i]).gear_slot is None),
    {
        let mut asked = false;
        for i in 0..self.gear.len()
            invariant
                asked == exists|j: int| 0 <= j < i && (#[trigger] self.gear@[j]).slots@.len() > 0,
        {
            if !self.gear[i].slots.is_empty() {
                assert(self.gear@[i as int].slots@.len() > 0);
                asked = true;
            }
        }
        if !asked || snapshot.slots.is_empty() {
            return false;
        }
        for i in 0..snapshot.slots.len()
            invariant
                forall|j: int| 0 <= j < i ==> (#[trigger] snapshot.slots@[j]).gear_slot is None,
        {
            if snapshot.slots[i].gear_slot.is_some() {
                return false;
            }
        }
        true
    }

    /// Whether no criterion is set: such a filter matches every available item.
    /// Keeping sold-out items widens rather than restricts, and a rule with
    /// nothing set constrains nothing.
    pub fn is_unrestricted(&self) -> (yes: bool)
        ensures
            yes == self.unrestricted(),
    {
        self.kinds.is_empty() && self.names.is_empty() && !self.hunts_gear()
    }
}

impl RawFilter {
    /// The rule that the flat keys spell.
    pub open spec fn flat(self) -> GearRule {
        GearRule {
            sets: self.sets,
            slots: self.slots,
            min_substats: self.min_substats,
            required_substats: self.required_substats,
            substat_match: self.substat_match,
            max_price: self.max_price,
            min_grade: self.min_grade,
        }
    }

    /// Gear criteria stand both as flat keys and as rules.
    pub open spec fn spells_gear_twice(self) -> bool {
        self.flat().restricting() && self.gear@.len() > 0
    }
}

/// What a player is told who spelled gear criteria twice.
pub const TWO_GEAR_SPELLINGS: &'static str =
    "[filter] holds gear criteria of its own beside [[filter.gear]] — move them into a rule, or delete them";

impl Filter {
    /// Folds the flat gear keys into one rule where they constrain. Setting
    /// both spellings is refused rather than merged.
    pub fn try_from(raw: RawFilter) -> (filter: Result<Self, String>)
        ensures
            filter is Err <==> raw.spells_gear_twice(),
            filter matches Err(error) ==> error@ == TWO_GEAR_SPELLINGS@,
            filter matches Ok(filter) ==> {
                &&& filter.kinds == raw.kinds
                &&& filter.names == raw.names
                &&& filter.include_sold_out == raw.include_sold_out
                &&& filter.gear@ == if raw.flat().restricting() {
                    seq![raw.flat()]
                } else {
                    raw.gear@
                }
            },
    {
        let flat = GearRule {
            sets: raw.sets,
            slots: raw.slots,
            min_substats: raw.min_substats,
            required_substats: raw.required_substats,
            substat_match: raw.substat_match,
            max_price: raw.max_price,
            min_grade: raw.min_grade,
        };
        let gear = if flat.restricts() {
            if !raw.gear.is_empty() {
                return Err(TWO_GEAR_SPELLINGS.to_owned());
            }
            let mut gear: Vec<GearRule> = Vec::new();
            gear.push(flat);
            assert(gear@ =~= seq![flat]);
            gear
        } else {
            raw.gear
        };
        Ok(
            Filter {
                kinds: raw.kinds,
                names: raw.names,
                gear,
                include_sold_out: raw.include_sold_out,
            },
        )
    }
}

/// What a player is told who asked for a grade the game does not ship.
pub open spec fn no_such_grade(grade: u8) -> Seq<char> {
    "gear grade "@ + text::decimal(grade as nat) + " does not exist (expected "@ + text::decimal(
        GRADE_MIN as nat,
    ) + " to "@ + text::decimal(GRADE_MAX as nat) + ")"@
}

/// Reads a grade floor, refusing one that the game has no grade for: no item
/// could clear it, and the loop would refresh forever.
pub fn grade_floor(grade: Option<u8>) -> (floor: Result<Option<u8>, String>)
    ensures
        match grade {
            Some(grade) => if GRADE_MIN <= grade <= GRADE_MAX {
                floor == Ok::<Option<u8>, String>(Some(grade))
            } else {
                floor matches Err(error) && error@ == no_such_grade(grade)
            },
            None => floor == Ok::<Option<u8>, String>(None),
        },
{
    match grade {
        None => Ok(None),
        Some(grade) => {
            if GRADE_MIN <= grade && grade <= GRADE_MAX {
                Ok(Some(grade))
            } else {
                let mut error = "gear grade ".to_owned();
                error.append(text::decimal_text(grade as u64).as_str());
                error.append(" does not exist (expected ");
                error.append(text::decimal_text(GRADE_MIN as u64).as_str());
                error.append(" to ");
                error.append(text::decimal_text(GRADE_MAX as u64).as_str());
                error.append(")");
                Err(error)
            }
        },
    }
}

/// The kind a settings file spells as `name`; any other text is `Unknown`.
pub open spec fn kind_spelled(name: Seq<char>) -> ItemKind {
    if name == "equipment"@ {
        ItemKind::Equipment
    } else if name == "hero"@ {
        ItemKind::Hero
    } else if name == "token"@ {
        ItemKind::Token
    } else {
        ItemKind::Unknown
    }
}

/// The kind a settings file spells as `name`.
pub fn kind_named(name: &str) -> (kind: ItemKind)
    ensures
        kind == kind_spelled(name@),
{
    if text::same_text(name, "equipment") {
        ItemKind::Equipment
    } else if text::same_text(name, "hero") {
        ItemKind::Hero
    } else if text::same_text(name, "token") {
        ItemKind::Token
    } else {
        ItemKind::Unknown
    }
}

/// What a player is told whose kind is no kind, `quoted` being that kind in
/// quotes.
pub open spec fn no_such_kind(quoted: Seq<char>) -> Seq<char> {
    "unrecognized kind "@ + quoted + " in [filter] kinds (expected: equipment, hero, token)"@
}

/// What a player is told whose kind is no kind.
pub fn unrecognized_kind(quoted: &str) -> (error: String)
    ensures
        error@ == no_such_kind(quoted@),
{
    let mut error = "unrecognized kind ".to_owned();
    error.append(quoted);
    error.append(" in [filter] kinds (expected: equipment, hero, token)");
    error
}

/// Reads the kinds a settings file lists, refusing the first that names none: a
/// typo would become a criterion that no item satisfies.
pub fn hunt_kinds(names: &Vec<String>) -> (kinds: Result<Vec<ItemKind>, String>)
    ensures
        match kinds {
            Ok(kinds) => kinds@ == names@.map_values(|name: String| kind_spelled(name@))
                && forall|i: int| 0 <= i < kinds@.len() ==> kinds@[i] != ItemKind::Unknown,
            Err(error) => exists|i: int|
                {
                    &&& 0 <= i < names@.len()
                    &&& kind_spelled((#[trigger] names@[i])@) == ItemKind::Unknown
                    &&& forall|j: int|
                        0 <= j < i ==> kind_spelled((#[trigger] names@[j])@) != ItemKind::Unknown
                    &&& error@ == no_such_kind(text::quoted(names@[i]@))
                },
        },
{
    let mut kinds: Vec<ItemKind> = Vec::new();
    let ghost spelled = names@.map_values(|name: String| kind_spelled(name@));
    for i in 0..names.len()
        invariant
            spelled == names@.map_values(|name: String| kind_spelled(name@)),
            kinds@ == spelled.take(i as int),
            forall|j: int| 0 <= j < i ==> spelled[j] != ItemKind::Unknown,
    {
        let kind = kind_named(names[i].as_str());
        if kind == ItemKind::Unknown {
            let error = unrecognized_kind(text::quote(names[i].as_str()).as_str());
            proof {
                assert forall|j: int| 0 <= j < i implies kind_spelled((#[trigger] names@[j])@)
                    != ItemKind::Unknown by {
                    assert(spelled[j] == kind_spelled(names@[j]@));
                }
            }
            return Err(error);
        }
        kinds.push(kind);
        assert(kinds@ =~= spelled.take(i + 1));
    }
    assert(spelled.take(names@.len() as int) =~= spelled);
    Ok(kinds)
}

/// An unrestricted filter accepts every item that can still be bought.
pub proof fn unrestricted_accepts_whatever_is_available(filter: Filter, item: ShopItem)
    requires
        filter.unrestricted(),
    ensures
        filter.accepts(item) <==> filter.include_sold_out || !item.sold_out(),
{
}

/// A rule with nothing set changes nothing that a filter decides.
pub proof fn an_empty_rule_never_arms(filter: Filter, with_rule: Filter, rule: GearRule, item: ShopItem)
    requires
        !rule.restricting(),
        with_rule.kinds@ == filter.kinds@,
        with_rule.names@ == filter.names@,
        with_rule.include_sold_out == filter.include_sold_out,
        with_rule.gear@ == filter.gear@.push(rule),
    ensures
        with_rule.accepts(item) == filter.accepts(item),
        with_rule.unrestricted() == filter.unrestricted(),
{
    let gear = filter.gear@;
    let more = with_rule.gear@;
    assert forall|i: int| 0 <= i < gear.len() implies more[i] == #[trigger] gear[i] by {}
    if filter.hunting_gear() {
        let i = choose|i: int| 0 <= i < gear.len() && (#[trigger] gear[i]).restricting();
        assert(more[i].restricting());
    }
    if with_rule.hunting_gear() {
        let i = choose|i: int| 0 <= i < more.len() && (#[trigger] more[i]).restricting();
        assert(gear[i].restricting());
    }
    if filter.gear_accepts(item) {
        let i = choose|i: int|
            0 <= i < gear.len() && (#[trigger] gear[i]).restricting() && gear[i].fits(item);
        assert(more[i].restricting() && more[i].fits(item));
    }
    if with_rule.gear_accepts(item) {
        let i = choose|i: int|
            0 <= i < more.len() && (#[trigger] more[i]).restricting() && more[i].fits(item);
        assert(gear[i].restricting() && gear[i].fits(item));
    }
}

/// A named item is accepted at any price and whatever the rules say, once it
/// passes the gates that apply to every item.
pub proof fn a_named_item_needs_no_rule(filter: Filter, item: ShopItem)
    requires
        filter.names_item(item),
        filter.include_sold_out || !item.sold_out(),
        filter.kinds@.len() == 0 || filter.kinds@.contains(item.kind),
    ensures
        filter.accepts(item),
{
}

/// Missing data fails every gear criterion that asks for it.
pub proof fn missing_data_fails_a_rule(rule: GearRule, item: ShopItem)
    ensures
        rule.max_price is Some && item.price is None ==> !rule.fits(item),
        rule.min_grade is Some && item.grade is None ==> !rule.fits(item),
        rule.sets@.len() > 0 && item.set is None ==> !rule.fits(item),
        rule.slots@.len() > 0 && item.gear_slot is None ==> !rule.fits(item),
{
}

/// A rule without required substats decides the same in either mode.
pub proof fn a_mode_alone_decides_nothing(rule: GearRule, item: ShopItem, mode: SubstatMatch)
    requires
        rule.required_substats@.len() == 0,
    ensures
        (GearRule { substat_match: mode, ..rule }).fits(item) == rule.fits(item),
        (GearRule { substat_match: mode, ..rule }).restricting() == rule.restricting(),
{
}

/// What a purchase limit decides of an item: nothing while something is left to
/// buy. With none left the item is refused, unless sold-out items are kept, and
/// then again it does nothing.
pub proof fn a_limit_refuses_only_what_is_used_up(
    filter: Filter,
    item: ShopItem,
    remaining: u32,
    total: u32,
)
    ensures
        ({
            let limited = ShopItem { limit: Some(PurchaseLimit { remaining, total }), ..item };
            let free = ShopItem { limit: None, ..item };
            &&& remaining > 0 || filter.include_sold_out ==> filter.accepts(limited)
                == filter.accepts(free)
            &&& remaining == 0 && !filter.include_sold_out ==> !filter.accepts(limited)
        }),
{
    let limited = ShopItem { limit: Some(PurchaseLimit { remaining, total }), ..item };
    let free = ShopItem { limit: None, ..item };
    assert forall|i: int| 0 <= i < filter.gear@.len() implies (
    #[trigger] filter.gear@[i]).fits(limited) == filter.gear@[i].fits(free) by {
        a_rule_does_not_weigh_the_limit(filter.gear@[i], limited, free);
    }
    assert(filter.gear_accepts(limited) == filter.gear_accepts(free));
}

proof fn a_rule_does_not_weigh_the_limit(rule: GearRule, a: ShopItem, b: ShopItem)
    requires
        (ShopItem { limit: b.limit, ..a }) == b,
    ensures
        rule.fits(a) == rule.fits(b),
{
    let changed = ShopItem { limit: b.limit, ..a };
    assert(changed.substats == b.substats && changed.main_stat == b.main_stat);
    assert(changed.price == b.price && changed.grade == b.grade);
    assert(changed.set == b.set && changed.gear_slot == b.gear_slot);
    assert forall|i: int| 0 <= i < rule.required_substats@.len() implies (
    #[trigger] rule.required_substats@[i]).satisfied(a) == rule.required_substats@[i].satisfied(
        b,
    ) by {
        let req = rule.required_substats@[i];
        if exists|j: int|
            0 <= j < a.substats@.len() && req.answered_by(#[trigger] a.substats@[j]) {
            let j = choose|j: int|
                0 <= j < a.substats@.len() && req.answered_by(#[trigger] a.substats@[j]);
            assert(req.answered_by(b.substats@[j]));
        }
        if exists|j: int|
            0 <= j < b.substats@.len() && req.answered_by(#[trigger] b.substats@[j]) {
            let j = choose|j: int|
                0 <= j < b.substats@.len() && req.answered_by(#[trigger] b.substats@[j]);
            assert(req.answered_by(a.substats@[j]));
        }
    }
}

proof fn rules_with_the_same_substats_agree_on_them(a: GearRule, b: GearRule, item: ShopItem)
    requires
        a.required_substats == b.required_substats,
        a.substat_match == b.substat_match,
    ensures
        a.substats_fit(item) == b.substats_fit(item),
{
    let asked = b.required_substats@;
    if a.substat_match == SubstatMatch::All {
        if a.substats_fit(item) {
            assert forall|i: int| 0 <= i < asked.len() implies (#[trigger] asked[i]).satisfied(
                item,
            ) by {
                assert(a.required_substats@[i].satisfied(item));
            }
        }
        if b.substats_fit(item) {
            assert forall|i: int| 0 <= i < asked.len() implies (
            #[trigger] a.required_substats@[i]).satisfied(item) by {
                assert(asked[i].satisfied(item));
            }
        }
    } else if asked.len() > 0 {
        if a.substats_fit(item) {
            let i = choose|i: int|
                0 <= i < asked.len() && (#[trigger] a.required_substats@[i]).satisfied(item);
            assert(asked[i].satisfied(item));
        }
        if b.substats_fit(item) {
            let i = choose|i: int| 0 <= i < asked.len() && (#[trigger] asked[i]).satisfied(item);
            assert(a.required_substats@[i].satisfied(item));
        }
    }
}

/// An item of a kind that is not kept is refused, and one of a kind that is kept
/// is judged as if no kind were asked for.
pub proof fn kinds_are_a_gate(filter: Filter, free: Filter, item: ShopItem)
    requires
        free.kinds@.len() == 0,
        free.names@ == filter.names@,
        free.gear@ == filter.gear@,
        free.include_sold_out == filter.include_sold_out,
    ensures
        filter.kinds@.len() > 0 && (forall|i: int|
            0 <= i < filter.kinds@.len() ==> #[trigger] filter.kinds@[i] != item.kind)
            ==> !filter.accepts(item),
        forall|i: int|
            0 <= i < filter.kinds@.len() && #[trigger] filter.kinds@[i] == item.kind
                ==> filter.accepts(item) == free.accepts(item),
        filter.kinds@.len() == 0 ==> filter.accepts(item) == free.accepts(item),
{
}

/// Past the gates, an item is worth stopping for where its name is listed, or
/// where a rule that asks for something is met; and every item is where neither a
/// name nor such a rule is set.
pub proof fn names_and_rules_each_accept(filter: Filter, item: ShopItem)
    requires
        item.limit is None,
        filter.kinds@.len() == 0,
    ensures
        ({
            let asks = exists|i: int|
                0 <= i < filter.gear@.len() && (#[trigger] filter.gear@[i]).restricting();
            let named = item.name is Some && exists|i: int|
                0 <= i < filter.names@.len() && (#[trigger] filter.names@[i])@ == item.name->0@;
            let met = exists|i: int|
                0 <= i < filter.gear@.len() && (#[trigger] filter.gear@[i]).restricting()
                    && filter.gear@[i].fits(item);
            filter.accepts(item) <==> named || met || !asks && filter.names@.len() == 0
        }),
{
}

/// A filter hunts for something exactly where it keeps only some kinds, lists a
/// name, or has a rule that asks for something.
pub proof fn a_filter_hunts_where_it_asks(filter: Filter)
    ensures
        !filter.unrestricted() <==> filter.kinds@.len() > 0 || filter.names@.len() > 0 || exists|
            i: int,
        |
            0 <= i < filter.gear@.len() && (#[trigger] filter.gear@[i]).restricting(),
{
}

/// What a rule asks for: a set, a slot, a substat, more than no substats, a price
/// or a grade. Its mode is nothing to ask for, and no more is a floor of zero.
pub proof fn a_rule_asks_for_what_is_set(rule: GearRule)
    ensures
        !rule.restricting() <==> {
            &&& rule.sets@.len() == 0 && rule.slots@.len() == 0
            &&& rule.required_substats@.len() == 0
            &&& rule.min_substats is None || rule.min_substats == Some(0u8)
            &&& rule.max_price is None && rule.min_grade is None
        },
{
}

/// A rule is met where each thing that it asks for is: no more gold than its
/// price, at least its grade, at least so many substats, one of its sets, one of
/// its slots, and its substats. What is not known never meets what is asked, and
/// what is not asked always holds.
pub proof fn a_rule_is_met_point_by_point(rule: GearRule, item: ShopItem)
    ensures
        rule.fits(item) <==> {
            &&& rule.max_price is None || item.price is Some && item.price->0@
                <= rule.max_price->0@
            &&& rule.min_grade is None || item.grade is Some && item.grade->0 >= rule.min_grade->0
            &&& rule.min_substats is None || item.substats@.len() >= rule.min_substats->0
            &&& rule.sets@.len() == 0 || item.set is Some && exists|i: int|
                0 <= i < rule.sets@.len() && (#[trigger] rule.sets@[i])@ == item.set->0@
            &&& rule.slots@.len() == 0 || item.gear_slot is Some && exists|i: int|
                0 <= i < rule.slots@.len() && (#[trigger] rule.slots@[i])@ == item.gear_slot->0@
            &&& rule.required_substats@.len() == 0 || match rule.substat_match {
                SubstatMatch::All => forall|i: int|
                    0 <= i < rule.required_substats@.len() ==> (
                    #[trigger] rule.required_substats@[i]).satisfied(item),
                SubstatMatch::Any => exists|i: int|
                    0 <= i < rule.required_substats@.len() && (
                    #[trigger] rule.required_substats@[i]).satisfied(item),
            }
        },
{
}

/// A required substat is met by a stat of that very name, the main one or a rolled
/// one, whose value is at least the least that is asked; where no least is asked
/// the name is enough, and where one is, a stat without a value does not do.
pub proof fn a_required_substat_is_met_by_a_stat_of_its_name(req: SubstatReq, item: ShopItem)
    ensures
        req.satisfied(item) <==> {
            ||| item.main_stat is Some && item.main_stat->0.name@ == req.name@ && (req.min is None
                || item.main_stat->0.value is Some && stat_value::reaches(
                item.main_stat->0.value->0@,
                req.min->0@,
            ))
            ||| exists|i: int|
                0 <= i < item.substats@.len() && (#[trigger] item.substats@[i]).name@ == req.name@
                    && (req.min is None || item.substats@[i].value is Some && stat_value::reaches(
                    item.substats@[i].value->0@,
                    req.min->0@,
                ))
        },
{
    if exists|i: int|
        0 <= i < item.substats@.len() && req.answered_by(#[trigger] item.substats@[i]) {
        let i = choose|i: int|
            0 <= i < item.substats@.len() && req.answered_by(#[trigger] item.substats@[i]);
        assert(item.substats@[i].name@ == req.name@);
    }
    if exists|i: int|
        0 <= i < item.substats@.len() && (#[trigger] item.substats@[i]).name@ == req.name@ && (
        req.min is None || item.substats@[i].value is Some && stat_value::reaches(
            item.substats@[i].value->0@,
            req.min->0@,
        )) {
        let i = choose|i: int|
            0 <= i < item.substats@.len() && (#[trigger] item.substats@[i]).name@ == req.name@ && (
            req.min is None || item.substats@[i].value is Some && stat_value::reaches(
                item.substats@[i].value->0@,
                req.min->0@,
            ));
        assert(req.answered_by(item.substats@[i]));
    }
}

/// A rule that asks for more accepts no more: a lower price, a higher grade or a
/// higher count of substats never lets in what the rule refused.
pub proof fn asking_for_more_accepts_no_more(
    rule: GearRule,
    item: ShopItem,
    max_price: Gold,
    min_grade: u8,
    min_substats: u8,
)
    ensures
        rule.max_price is None || max_price@ <= rule.max_price->0@ ==> ((GearRule {
            max_price: Some(max_price),
            ..rule
        }).fits(item) ==> rule.fits(item)),
        rule.min_grade is None || min_grade >= rule.min_grade->0 ==> ((GearRule {
            min_grade: Some(min_grade),
            ..rule
        }).fits(item) ==> rule.fits(item)),
        rule.min_substats is None || min_substats >= rule.min_substats->0 ==> ((GearRule {
            min_substats: Some(min_substats),
            ..rule
        }).fits(item) ==> rule.fits(item)),
{
    let cheaper = GearRule { max_price: Some(max_price), ..rule };
    let finer = GearRule { min_grade: Some(min_grade), ..rule };
    let fuller = GearRule { min_substats: Some(min_substats), ..rule };
    rules_with_the_same_substats_agree_on_them(cheaper, rule, item);
    rules_with_the_same_substats_agree_on_them(finer, rule, item);
    rules_with_the_same_substats_agree_on_them(fuller, rule, item);
}

/// The rule that flat keys spell asks for exactly what they ask for, and spelling
/// gear both ways is told by that.
pub proof fn flat_keys_spell_one_rule(raw: RawFilter)
    ensures
        raw.flat().sets == raw.sets && raw.flat().slots == raw.slots,
        raw.flat().min_substats == raw.min_substats && raw.flat().required_substats
            == raw.required_substats,
        raw.flat().substat_match == raw.substat_match,
        raw.flat().max_price == raw.max_price && raw.flat().min_grade == raw.min_grade,
        raw.spells_gear_twice() <==> raw.gear@.len() > 0 && (raw.sets@.len() > 0 || raw.slots@.len()
            > 0 || raw.required_substats@.len() > 0 || raw.max_price is Some || raw.min_grade
            is Some || raw.min_substats is Some && raw.min_substats->0 > 0),
{
}

/// Only the three names of kinds name one, each its own.
pub proof fn three_names_are_kinds(name: Seq<char>)
    ensures
        kind_spelled("equipment"@) == ItemKind::Equipment,
        kind_spelled("hero"@) == ItemKind::Hero,
        kind_spelled("token"@) == ItemKind::Token,
        kind_spelled(name) == ItemKind::Unknown <==> name != "equipment"@ && name != "hero"@ && name
            != "token"@,
{
    reveal_strlit("equipment");
    reveal_strlit("hero");
    reveal_strlit("token");
    assert("hero"@.len() == 4 && "token"@.len() == 5 && "equipment"@.len() == 9);
}

/// A grade that does not exist is named, with the least and the greatest that do.
pub proof fn the_grades_are_two_to_five(grade: u8)
    ensures
        no_such_grade(grade) == "gear grade "@ + text::decimal(grade as nat)
            + " does not exist (expected "@ + text::decimal(2) + " to "@ + text::decimal(5) + ")"@,
        GRADE_MIN == 2 && GRADE_MAX == 5,
{
}

} // verus!

//! The shop model: the contents the analysis server returns, ready to display
//! and filter.

use crate::domain::stat_value::StatValue;
use crate::text;
use vstd::prelude::*;
use vstd::string::*;

verus! {

/// A global catalog id: the identity a purchase echo names an item by. Never
/// zero, which is how the server spells "no id".
#[derive(Debug, Clone, Copy, PartialEq, Eq, Structural, PartialOrd, Ord, Hash)]
pub struct CatalogId {
    raw: u32,
}

impl View for CatalogId {
    type V = u32;

    closed spec fn view(&self) -> u32 {
        self.raw
    }
}

impl CatalogId {
    #[verifier::type_invariant]
    spec fn names_an_item(self) -> bool {
        self.raw != 0
    }

    /// The id `raw` names, or `None` for the zero the server sends when it has
    /// none.
    pub fn new(raw: u32) -> (id: Option<Self>)
        ensures
            id is None <==> raw == 0,
            id matches Some(id) ==> id@ == raw,
    {
        if raw == 0 {
            None
        } else {
            Some(CatalogId { raw })
        }
    }

    /// The number, which is never zero.
    pub fn get(self) -> (raw: u32)
        ensures
            raw == self@,
            raw != 0,
    {
        proof {
            use_type_invariant(self);
        }
        self.raw
    }

    /// The number in decimal.
    pub fn to_text(self) -> (s: String)
        ensures
            s@ == text::decimal(self@ as nat),
    {
        text::decimal_text(self.raw as u64)
    }
}

/// Ids with the same number are the same id.
pub broadcast proof fn same_number_same_id(a: CatalogId, b: CatalogId)
    ensures
        #![trigger a@, b@]
        a@ == b@ <==> a == b,
{
}

/// Reads a catalog id that may be absent: absence and zero both mean "no id".
pub fn optional_catalog_id(raw: Option<u32>) -> (id: Option<CatalogId>)
    ensures
        id is None <==> (raw is None || raw == Some(0u32)),
        id matches Some(id) ==> raw == Some(id@),
{
    match raw {
        Some(raw) => CatalogId::new(raw),
        None => None,
    }
}

/// Gold: what a shop item costs, and what a purchase echo reports left in the
/// purse. A type apart from [`Crystals`], so that a price can never be weighed
/// against a crystal budget.
#[derive(Debug, Clone, Copy, PartialEq, Eq, Structural, PartialOrd, Ord)]
pub struct Gold {
    amount: u32,
}

impl View for Gold {
    type V = u32;

    closed spec fn view(&self) -> u32 {
        self.amount
    }
}

impl Default for Gold {
    fn default() -> (gold: Self)
        ensures
            gold@ == 0,
    {
        Gold { amount: 0 }
    }
}

impl Gold {
    /// The amount `raw` names; zero is a real amount.
    pub fn new(raw: u32) -> (gold: Self)
        ensures
            gold@ == raw,
    {
        Gold { amount: raw }
    }

    /// The number, for a wire field or a comparison.
    pub fn get(self) -> (raw: u32)
        ensures
            raw == self@,
    {
        self.amount
    }

    /// `self - rhs`, floored at zero.
    pub fn saturating_sub(self, rhs: Self) -> (left: Self)
        ensures
            left@ == if self@ >= rhs@ {
                self@ - rhs@
            } else {
                0
            },
    {
        Gold { amount: self.amount.saturating_sub(rhs.amount) }
    }

    /// The amount, its digits grouped in threes.
    pub fn to_text(self) -> (s: String)
        ensures
            s@ == text::grouped_digits(self@ as nat),
    {
        text::grouped(self.amount as u64)
    }
}

/// Equal amounts of gold are the same gold.
pub broadcast proof fn same_amount_same_gold(a: Gold, b: Gold)
    ensures
        #![trigger a@, b@]
        a@ == b@ <==> a == b,
{
}

/// Crystals: what a shop refresh costs and the refresh budget is counted in.
#[derive(Debug, Clone, Copy, PartialEq, Eq, Structural, PartialOrd, Ord)]
pub struct Crystals {
    amount: u32,
}

impl View for Crystals {
    type V = u32;

    closed spec fn view(&self) -> u32 {
        self.amount
    }
}

impl Default for Crystals {
    fn default() -> (crystals: Self)
        ensures
            crystals@ == 0,
    {
        Crystals { amount: 0 }
    }
}

/// How far an amount has gone towards a cap, as parts out of how many.
pub open spec fn gone_towards(amount: u32, cap: u32) -> (u32, u32) {
    if cap == 0 {
        (1, 1)
    } else if amount > cap {
        (cap, cap)
    } else {
        (amount, cap)
    }
}

/// A gauge is never under empty nor over full, is full exactly once the cap is
/// reached, and never shrinks as the amount grows.
pub proof fn a_gauge_stays_within_its_bounds(amount: u32, more: u32, cap: u32)
    requires
        amount <= more,
    ensures
        gone_towards(amount, cap).1 > 0,
        gone_towards(amount, cap).0 <= gone_towards(amount, cap).1,
        gone_towards(amount, cap).0 == gone_towards(amount, cap).1 <==> amount >= cap,
        gone_towards(amount, cap).0 <= gone_towards(more, cap).0,
        gone_towards(amount, cap).1 == gone_towards(more, cap).1,
{
}

impl Crystals {
    /// The amount `raw` names; zero is a real balance.
    pub fn new(raw: u32) -> (crystals: Self)
        ensures
            crystals@ == raw,
    {
        Crystals { amount: raw }
    }

    /// The number, for a wire field or a comparison.
    pub fn get(self) -> (raw: u32)
        ensures
            raw == self@,
    {
        self.amount
    }

    /// `self + rhs`, capped at the largest amount.
    pub fn saturating_add(self, rhs: Self) -> (sum: Self)
        ensures
            sum@ == if self@ + rhs@ <= u32::MAX {
                self@ + rhs@
            } else {
                u32::MAX as int
            },
    {
        Crystals { amount: self.amount.saturating_add(rhs.amount) }
    }

    /// `self + rhs`, or `None` where no amount is that large.
    pub fn checked_add(self, rhs: Self) -> (sum: Option<Self>)
        ensures
            sum is None <==> self@ + rhs@ > u32::MAX,
            sum matches Some(sum) ==> sum@ == self@ + rhs@,
    {
        match self.amount.checked_add(rhs.amount) {
            Some(amount) => Some(Crystals { amount }),
            None => None,
        }
    }

    /// `self - rhs`, floored at zero.
    pub fn saturating_sub(self, rhs: Self) -> (left: Self)
        ensures
            left@ == if self@ >= rhs@ {
                self@ - rhs@
            } else {
                0
            },
    {
        Crystals { amount: self.amount.saturating_sub(rhs.amount) }
    }

    /// How far this amount has gone towards `cap`, as parts out of how many: all
    /// of it once the cap is reached, which a cap of nothing always is.
    pub fn ratio_of(self, cap: Self) -> (ratio: (u32, u32))
        ensures
            ratio == gone_towards(self@, cap@),
    {
        if cap.amount == 0 {
            (1, 1)
        } else if self.amount > cap.amount {
            (cap.amount, cap.amount)
        } else {
            (self.amount, cap.amount)
        }
    }

    /// The amount, its digits grouped in threes.
    pub fn to_text(self) -> (s: String)
        ensures
            s@ == text::grouped_digits(self@ as nat),
    {
        text::grouped(self.amount as u64)
    }
}

/// Equal amounts of crystals are the same crystals.
pub broadcast proof fn same_amount_same_crystals(a: Crystals, b: Crystals)
    ensures
        #![trigger a@, b@]
        a@ == b@ <==> a == b,
{
}

/// Refresh-session facts, apart from the shop's contents.
#[derive(Debug, Clone, Copy, PartialEq, Eq, Structural)]
pub struct RefreshMeta {
    /// Crystal balance after the debit.
    pub crystal_balance: Crystals,
    /// Cost of one manual refresh.
    pub cost: Crystals,
}

/// What an item is. `Unknown` stands for a kind this build has not heard of.
#[derive(Debug, Clone, Copy, PartialEq, Eq, Structural)]
pub enum ItemKind {
    Equipment,
    Hero,
    Token,
    Unknown,
}

impl Default for ItemKind {
    fn default() -> (kind: Self)
        ensures
            kind == ItemKind::Unknown,
    {
        ItemKind::Unknown
    }
}

/// How often an item may still be bought, out of how many times.
#[derive(Debug, Clone, Copy, PartialEq, Eq, Structural)]
pub struct PurchaseLimit {
    pub remaining: u32,
    pub total: u32,
}

/// One stat of a gear item, by internal stat name. The value is optional: the
/// wire lists blank entries, which no threshold can satisfy.
#[derive(Debug, Clone, PartialEq)]
pub struct Substat {
    pub name: String,
    pub value: Option<StatValue>,
}

/// One slot of a shop roll.
#[derive(Debug, Clone)]
pub struct ShopItem {
    /// Ties a purchase confirmation back to the slot; `None` when the server
    /// omits it.
    pub id: Option<CatalogId>,
    /// Shop slot, counted from one; zero if the server omits it.
    pub slot: u8,
    pub kind: ItemKind,
    pub name: Option<String>,
    /// Price in gold. `None` fails open: an unknown price can never be proven
    /// unaffordable.
    pub price: Option<Gold>,
    /// Gear grade.
    pub grade: Option<u8>,
    /// Gear set, by internal id.
    pub set: Option<String>,
    /// Wearable slot of a piece of gear, by internal id.
    pub gear_slot: Option<String>,
    /// The stat a piece of gear has by its slot, apart from its rolls.
    pub main_stat: Option<Substat>,
    /// Rolled substats.
    pub substats: Vec<Substat>,
    /// Absent means buyable.
    pub limit: Option<PurchaseLimit>,
}

impl Default for ShopItem {
    fn default() -> (item: Self)
        ensures
            item.id is None,
            item.slot == 0,
            item.kind == ItemKind::Unknown,
            item.name is None,
            item.price is None,
            item.grade is None,
            item.set is None,
            item.gear_slot is None,
            item.main_stat is None,
            item.substats@.len() == 0,
            item.limit is None,
    {
        ShopItem {
            id: None,
            slot: 0,
            kind: ItemKind::Unknown,
            name: None,
            price: None,
            grade: None,
            set: None,
            gear_slot: None,
            main_stat: None,
            substats: Vec::new(),
            limit: None,
        }
    }
}

impl ShopItem {
    /// A purchase limit is present and exhausted.
    pub open spec fn sold_out(self) -> bool {
        self.limit matches Some(limit) && limit.remaining == 0
    }

    /// The slot number a player sees for an item standing at `index`.
    pub open spec fn shown_slot(self, index: int) -> int {
        if self.slot != 0 {
            self.slot as int
        } else if index < u8::MAX {
            index + 1
        } else {
            u8::MAX as int
        }
    }

    /// Sold out when a purchase limit is present and exhausted.
    pub fn is_sold_out(&self) -> (yes: bool)
        ensures
            yes == self.sold_out(),
    {
        match self.limit {
            Some(limit) => limit.remaining == 0,
            None => false,
        }
    }

    /// Player-facing slot number: the wire slot, or the position counted from
    /// one when the server omitted it, clamped so that an oversized shop cannot
    /// wrap back to zero.
    pub fn effective_slot(&self, index: usize) -> (slot: u8)
        ensures
            slot == self.shown_slot(index as int),
            slot != 0,
    {
        if self.slot != 0 {
            self.slot
        } else if index < 255 {
            index as u8 + 1
        } else {
            255
        }
    }
}

/// One shop roll: the merchant, the slots on offer, and the refresh-session
/// facts.
#[derive(Debug, Clone)]
pub struct ShopSnapshot {
    pub merchant: Option<String>,
    pub slots: Vec<ShopItem>,
    /// Absent, the cost falls back to the game constant and only out-of-funds
    /// detection is lost.
    pub refresh: Option<RefreshMeta>,
}

/// The position of the first of `slots` that bears `id`.
pub open spec fn position_of(slots: Seq<ShopItem>, id: CatalogId) -> Option<int>
    decreases slots.len(),
{
    if slots.len() == 0 {
        None
    } else {
        match position_of(slots.drop_last(), id) {
            Some(position) => Some(position),
            None => if slots.last().id == Some(id) {
                Some(slots.len() - 1)
            } else {
                None
            },
        }
    }
}

/// `position_of` finds a slot that bears the id, and no earlier slot bears it;
/// where it finds none, no slot does.
pub proof fn position_of_is_first(slots: Seq<ShopItem>, id: CatalogId)
    ensures
        match position_of(slots, id) {
            Some(position) => 0 <= position < slots.len() && slots[position].id == Some(id)
                && forall|i: int| 0 <= i < position ==> (#[trigger] slots[i]).id != Some(id),
            None => forall|i: int| 0 <= i < slots.len() ==> (#[trigger] slots[i]).id != Some(id),
        },
    decreases slots.len(),
{
    if slots.len() > 0 {
        position_of_is_first(slots.drop_last(), id);
        assert forall|i: int| 0 <= i < slots.len() - 1 implies slots.drop_last()[i] == #[trigger] slots[i] by {}
    }
}

impl ShopSnapshot {
    /// The slot bearing this catalog id, if any: the first, where ids repeat.
    pub fn slot_by_id(&self, id: CatalogId) -> (slot: Option<&ShopItem>)
        ensures
            match position_of(self.slots@, id) {
                Some(position) => slot == Some(&self.slots@[position]),
                None => slot is None,
            },
    {
        for i in 0..self.slots.len()
            invariant
                position_of(self.slots@.take(i as int), id) is None,
        {
            assert(self.slots@.take(i + 1).drop_last() =~= self.slots@.take(i as int));
            if let Some(held) = self.slots[i].id {
                if held == id {
                    proof {
                        position_of_is_first(self.slots@, id);
                        position_of_is_first(self.slots@.take(i as int), id);
                        assert forall|j: int| 0 <= j < i implies (#[trigger] self.slots@[j]).id != Some(id) by {
                            assert(self.slots@.take(i as int)[j] == self.slots@[j]);
                        }
                    }
                    return Some(&self.slots[i]);
                }
            }
        }
        assert(self.slots@.take(self.slots@.len() as int) =~= self.slots@);
        None
    }
}

/// The elements that were decoded, in order.
pub open spec fn decoded<T>(elements: Seq<Option<T>>) -> Seq<T>
    decreases elements.len(),
{
    if elements.len() == 0 {
        Seq::empty()
    } else {
        match elements.last() {
            Some(element) => decoded(elements.drop_last()).push(element),
            None => decoded(elements.drop_last()),
        }
    }
}

/// A tolerant wire collection: an element that could not be decoded (`None`) is
/// dropped, and a value that is no list (`None` as a whole) reads as empty, so
/// that the message around it survives.
pub fn lenient_elements<T>(elements: Option<Vec<Option<T>>>) -> (kept: Vec<T>)
    ensures
        kept@ == match elements {
            Some(elements) => decoded(elements@),
            None => Seq::empty(),
        },
{
    let mut kept: Vec<T> = Vec::new();
    if let Some(elements) = elements {
        let ghost all = elements@;
        for element in it: elements
            invariant
                it.seq() == all,
                kept@ == decoded(all.take(it.index())),
        {
            proof {
                assert(all.take(it.index() + 1).drop_last() =~= all.take(it.index()));
            }
            if let Some(element) = element {
                kept.push(element);
            }
        }
        assert(all.take(all.len() as int) =~= all);
    }
    kept
}

/// The tolerant slot list of a snapshot, and whether a slot was dropped from
/// it: the filter then judges a short shop.
pub fn lenient_slots(slots: Option<Vec<Option<ShopItem>>>) -> (kept: (Vec<ShopItem>, bool))
    ensures
        kept.0@ == match slots {
            Some(slots) => decoded(slots@),
            None => Seq::empty(),
        },
        kept.1 == (slots matches Some(slots) && decoded(slots@).len() != slots@.len()),
{
    let offered: usize = match &slots {
        Some(slots) => slots.len(),
        None => 0,
    };
    let kept = lenient_elements(slots);
    let short = kept.len() != offered;
    (kept, short)
}

/// Longest server-supplied display text, in characters.
pub const MAX_WIRE_TEXT: usize = 120;

/// `raw` with a space in place of each control character.
pub open spec fn without_controls(raw: Seq<char>) -> Seq<char> {
    raw.map_values(
        |c: char|
            if text::is_control(c) {
                ' '
            } else {
                c
            },
    )
}

/// `raw` cut to the longest display text.
pub open spec fn capped(raw: Seq<char>) -> Seq<char> {
    if raw.len() > MAX_WIRE_TEXT {
        raw.take(MAX_WIRE_TEXT as int)
    } else {
        raw
    }
}

/// What a server-supplied display text is shown as.
pub open spec fn sanitized(raw: Seq<char>) -> Seq<char> {
    text::trimmed(capped(without_controls(raw)))
}

/// Replaces each control character with one space, caps the result at
/// [`MAX_WIRE_TEXT`] characters, then trims it, and says whether any of these
/// changed the text. Trimming comes last: the cut itself can land on a space.
pub fn sanitize_wire_text(raw: String) -> (clean: (String, bool))
    ensures
        clean.0@ == sanitized(raw@),
        clean.1 == ((exists|i: int| 0 <= i < raw@.len() && text::is_control(#[trigger] raw@[i]))
            || raw@.len() > MAX_WIRE_TEXT || sanitized(raw@).len() != capped(
            without_controls(raw@),
        ).len()),
{
    let chars = text::chars_of(raw.as_str());
    let mut changed = false;
    let mut stripped: Vec<char> = Vec::new();
    for i in 0..chars.len()
        invariant
            chars@ == raw@,
            stripped@ == without_controls(raw@).take(i as int),
            changed == exists|j: int| 0 <= j < i && text::is_control(#[trigger] raw@[j]),
    {
        if text::control(chars[i]) {
            assert(text::is_control(raw@[i as int]));
            changed = true;
            stripped.push(' ');
        } else {
            stripped.push(chars[i]);
        }
        assert(stripped@ =~= without_controls(raw@).take(i + 1));
    }
    assert(stripped@ =~= without_controls(raw@));
    if stripped.len() > MAX_WIRE_TEXT {
        changed = true;
        stripped.truncate(MAX_WIRE_TEXT);
    }
    assert(stripped@ =~= capped(without_controls(raw@)));
    let trimmed = text::trim(&stripped);
    if trimmed.len() != stripped.len() {
        changed = true;
    }
    (text::string_of(trimmed.as_slice()), changed)
}

/// Sanitized text holds no control character, is no longer than the cap, and
/// neither begins nor ends with white space.
pub proof fn sanitized_text_is_clean(raw: Seq<char>)
    ensures
        sanitized(raw).len() <= MAX_WIRE_TEXT,
        forall|i: int|
            0 <= i < sanitized(raw).len() ==> !text::is_control(#[trigger] sanitized(raw)[i]),
        sanitized(raw).len() > 0 ==> !text::is_space(sanitized(raw)[0]) && !text::is_space(
            sanitized(raw).last(),
        ),
{
    text::trimmed_is_a_part(capped(without_controls(raw)));
}

/// Sanitizing text that was sanitized before changes nothing.
pub proof fn sanitizing_twice_is_sanitizing_once(raw: Seq<char>)
    ensures
        sanitized(sanitized(raw)) == sanitized(raw),
        capped(without_controls(sanitized(raw))) == sanitized(raw),
{
    sanitized_text_is_clean(raw);
    text::trimmed_is_a_part(capped(without_controls(raw)));
    assert(without_controls(sanitized(raw)) =~= sanitized(raw));
}

/// A tolerant list keeps no more than it got, and all of it exactly when every
/// element was decoded.
pub proof fn decoding_keeps_no_more_than_it_got<T>(elements: Seq<Option<T>>)
    ensures
        decoded(elements).len() <= elements.len(),
        decoded(elements).len() == elements.len() <==> forall|i: int|
            0 <= i < elements.len() ==> (#[trigger] elements[i]) is Some,
    decreases elements.len(),
{
    if elements.len() > 0 {
        let rest = elements.drop_last();
        decoding_keeps_no_more_than_it_got(rest);
        assert forall|i: int| 0 <= i < rest.len() implies rest[i] == #[trigger] elements[i] by {}
    }
}

/// An item is sold out exactly where it may be bought so many times and none of
/// them is left; how many there were says nothing. Without a limit it never is.
pub proof fn what_has_something_left_is_not_sold_out(item: ShopItem, remaining: u32, total: u32)
    ensures
        item.limit is None ==> !item.sold_out(),
        item.limit matches Some(limit) ==> (item.sold_out() <==> limit.remaining == 0),
        remaining > 0 ==> !(ShopItem {
            limit: Some(PurchaseLimit { remaining, total }),
            ..item
        }).sold_out(),
        (ShopItem { limit: Some(PurchaseLimit { remaining: 0, total }), ..item }).sold_out(),
{
}

/// A slot is shown under the number that the wire gives it; without one, under its
/// place counted from one, and under the largest number past that. It is never
/// shown as zero, and later places never under a smaller number.
pub proof fn a_slot_is_shown_by_its_number_or_place(item: ShopItem, index: int, later: int)
    requires
        0 <= index <= later,
    ensures
        item.slot > 0 ==> item.shown_slot(index) == item.slot,
        item.slot == 0 && index <= 254 ==> item.shown_slot(index) == index + 1,
        item.slot == 0 && index >= 254 ==> item.shown_slot(index) == 255,
        1 <= item.shown_slot(index) <= item.shown_slot(later) <= 255,
{
}

/// A tolerant list keeps exactly what was decoded, in its order: `places` are the
/// elements that it keeps.
pub proof fn whatever_was_decoded_is_kept<T>(elements: Seq<Option<T>>) -> (places: Seq<int>)
    ensures
        decoded(elements).len() == places.len(),
        forall|k: int, l: int| 0 <= k < l < places.len() ==> places[k] < places[l],
        forall|k: int|
            0 <= k < places.len() ==> 0 <= #[trigger] places[k] < elements.len()
                && elements[places[k]] == Some(decoded(elements)[k]),
        forall|i: int|
            0 <= i < elements.len() && (#[trigger] elements[i]) is Some ==> places.contains(i),
    decreases elements.len(),
{
    if elements.len() == 0 {
        Seq::empty()
    } else {
        let rest = elements.drop_last();
        let places = whatever_was_decoded_is_kept(rest);
        let n = places.len() as int;
        assert forall|i: int| 0 <= i < rest.len() implies #[trigger] elements[i] == rest[i] by {}
        assert forall|k: int| 0 <= k < n implies elements[#[trigger] places[k]]
            == rest[places[k]] by {}
        if elements.last() is None {
            places
        } else {
            let more = places.push(elements.len() - 1);
            assert forall|k: int| 0 <= k < n implies #[trigger] more[k] == places[k] by {}
            assert(more[n] == elements.len() - 1);
            assert forall|i: int|
                0 <= i < elements.len() && (#[trigger] elements[i]) is Some implies more.contains(
                i,
            ) by {
                if i < elements.len() - 1 {
                    assert(rest[i] is Some);
                    let k = choose|k: int| 0 <= k < n && places[k] == i;
                    assert(more[k] == i);
                }
            }
            more
        }
    }
}

/// A gauge stands at the share that the amount has of the cap, and is full from
/// the cap on; a cap of nothing is full.
pub proof fn a_gauge_stands_at_its_share(amount: u32, cap: u32)
    ensures
        cap > 0 && amount <= cap ==> gone_towards(amount, cap).0 * cap == amount * gone_towards(
            amount,
            cap,
        ).1,
        amount >= cap ==> gone_towards(amount, cap).0 == gone_towards(amount, cap).1,
        gone_towards(amount, cap).1 > 0,
{
}

/// What stays of a text: each of its first 120 characters that is not at an end of
/// white space, a space for each control character among them. Of those 120,
/// everything in front of `span.0` and from `span.1` on is white space or a
/// control character.
pub proof fn a_sanitized_text_is_its_middle(raw: Seq<char>) -> (span: (int, int))
    ensures
        0 <= span.0 <= span.1 <= raw.len() && span.1 <= 120,
        sanitized(raw).len() == span.1 - span.0,
        forall|i: int|
            span.0 <= i < span.1 ==> #[trigger] sanitized(raw)[i - span.0] == if text::is_control(
                raw[i],
            ) {
                ' '
            } else {
                raw[i]
            },
        forall|i: int|
            0 <= i < raw.len() && i < 120 && !(span.0 <= i < span.1) ==> text::is_space(
                #[trigger] raw[i],
            ) || text::is_control(raw[i]),
        sanitized(raw).len() > 0 ==> !text::is_space(sanitized(raw)[0]) && !text::is_space(
            sanitized(raw).last(),
        ),
{
    let cut = capped(without_controls(raw));
    let span = text::trimmed_is_the_middle(cut);
    sanitized_text_is_clean(raw);
    assert forall|i: int| 0 <= i < raw.len() && i < 120 implies cut[i] == (if text::is_control(
        #[trigger] raw[i],
    ) {
        ' '
    } else {
        raw[i]
    }) by {}
    assert forall|i: int| span.0 <= i < span.1 implies #[trigger] sanitized(raw)[i - span.0] == (
    if text::is_control(raw[i]) {
        ' '
    } else {
        raw[i]
    }) by {
        assert(sanitized(raw)[i - span.0] == cut[i]);
    }
    assert forall|i: int|
        0 <= i < raw.len() && i < 120 && !(span.0 <= i < span.1) implies text::is_space(
        #[trigger] raw[i],
    ) || text::is_control(raw[i]) by {
        assert(text::is_space(cut[i]));
    }
    span
}

} // verus!

//! Snapshot identity for duplicate suppression: an identical re-arrival of a
//! shop that was already acted on must never bill a second refresh or buy
//! twice.

use crate::domain::shop::{CatalogId, Gold, ShopItem, ShopSnapshot, Substat};
use crate::domain::stat_value;
use vstd::prelude::*;

verus! {

/// What a stat contributes to a slot's identity.
pub struct StatIdentity {
    pub name: Seq<char>,
    pub value: Option<u64>,
}

/// What a slot contributes to a roll's identity: the catalog id and the fields
/// that a roll redraws. The purchase limit is left out, since re-opening after
/// a buy delivers the same roll with one less to buy, and so is the name.
pub struct SlotIdentity {
    pub id: CatalogId,
    pub price: Option<Gold>,
    pub grade: Option<u8>,
    pub set: Option<Seq<char>>,
    pub substats: Seq<StatIdentity>,
}

/// The identity of one stat.
pub open spec fn stat_identity(stat: Substat) -> StatIdentity {
    StatIdentity {
        name: stat.name@,
        value: match stat.value {
            Some(value) => Some(value@),
            None => None,
        },
    }
}

/// The characters of an optional text.
pub open spec fn text_of(text: Option<String>) -> Option<Seq<char>> {
    match text {
        Some(text) => Some(text@),
        None => None,
    }
}

/// The identity of a slot that has an id.
pub open spec fn slot_identity(item: ShopItem) -> SlotIdentity {
    SlotIdentity {
        id: item.id->0,
        price: item.price,
        grade: item.grade,
        set: text_of(item.set),
        substats: item.substats@.map_values(|stat: Substat| stat_identity(stat)),
    }
}

/// Whether every slot has an id.
pub open spec fn all_identified(slots: Seq<ShopItem>) -> bool {
    forall|i: int| 0 <= i < slots.len() ==> (#[trigger] slots[i]).id is Some
}

/// The identity of a roll; `None` where a slot has no id, since such shops
/// cannot be told apart.
pub open spec fn roll_of(slots: Seq<ShopItem>) -> Option<Seq<SlotIdentity>> {
    if all_identified(slots) {
        Some(slots.map_values(|item: ShopItem| slot_identity(item)))
    } else {
        None
    }
}

/// Whether two stats are the same; a value that is not a number is the same as
/// none.
pub open spec fn same_stat(a: StatIdentity, b: StatIdentity) -> bool {
    a.name == b.name && match (a.value, b.value) {
        (Some(a), Some(b)) => stat_value::equal(a, b),
        (None, None) => true,
        _ => false,
    }
}

/// Whether two slots are the same.
pub open spec fn same_slot(a: SlotIdentity, b: SlotIdentity) -> bool {
    &&& a.id == b.id
    &&& a.price == b.price
    &&& a.grade == b.grade
    &&& a.set == b.set
    &&& a.substats.len() == b.substats.len()
    &&& forall|i: int|
        0 <= i < a.substats.len() ==> same_stat(#[trigger] a.substats[i], b.substats[i])
}

/// Whether two rolls are the same, slot by slot.
pub open spec fn same_roll(a: Seq<SlotIdentity>, b: Seq<SlotIdentity>) -> bool {
    a.len() == b.len() && forall|i: int| 0 <= i < a.len() ==> same_slot(#[trigger] a[i], b[i])
}

/// A slot as a fingerprint keeps it.
struct KeptSlot {
    id: CatalogId,
    price: Option<Gold>,
    grade: Option<u8>,
    set: Option<String>,
    substats: Vec<Substat>,
}

impl View for KeptSlot {
    type V = SlotIdentity;

    closed spec fn view(&self) -> SlotIdentity {
        SlotIdentity {
            id: self.id,
            price: self.price,
            grade: self.grade,
            set: text_of(self.set),
            substats: self.substats@.map_values(|stat: Substat| stat_identity(stat)),
        }
    }
}

/// A roll's identity: its slots, in order.
pub struct Fingerprint {
    slots: Vec<KeptSlot>,
}

impl View for Fingerprint {
    type V = Seq<SlotIdentity>;

    closed spec fn view(&self) -> Seq<SlotIdentity> {
        self.slots@.map_values(|slot: KeptSlot| slot@)
    }
}

/// A copy of an optional text.
pub fn copy_text(text: &Option<String>) -> (copy: Option<String>)
    ensures
        text_of(copy) == text_of(*text),
{
    match text {
        Some(text) => Some(text.clone()),
        None => None,
    }
}

fn copy_stats(stats: &Vec<Substat>) -> (copy: Vec<Substat>)
    ensures
        copy@.map_values(|stat: Substat| stat_identity(stat)) == stats@.map_values(
            |stat: Substat| stat_identity(stat),
        ),
{
    let mut copy: Vec<Substat> = Vec::new();
    for i in 0..stats.len()
        invariant
            copy@.len() == i,
            forall|j: int| 0 <= j < i ==> stat_identity(#[trigger] copy@[j]) == stat_identity(stats@[j]),
    {
        copy.push(Substat { name: stats[i].name.clone(), value: stats[i].value });
    }
    assert(copy@.map_values(|stat: Substat| stat_identity(stat)) =~= stats@.map_values(
        |stat: Substat| stat_identity(stat),
    ));
    copy
}

/// The identity of a snapshot's roll. `None` where a slot has no id: dedup must
/// then fail open rather than guess.
pub fn fingerprint(snapshot: &ShopSnapshot) -> (roll: Option<Fingerprint>)
    ensures
        match roll {
            Some(roll) => roll_of(snapshot.slots@) == Some(roll@),
            None => roll_of(snapshot.slots@) is None,
        },
{
    let mut slots: Vec<KeptSlot> = Vec::new();
    for i in 0..snapshot.slots.len()
        invariant
            slots@.len() == i,
            forall|j: int| 0 <= j < i ==> (#[trigger] snapshot.slots@[j]).id is Some,
            forall|j: int|
                0 <= j < i ==> (#[trigger] slots@[j])@ == slot_identity(snapshot.slots@[j]),
    {
        let item = &snapshot.slots[i];
        match item.id {
            Some(id) => {
                slots.push(
                    KeptSlot {
                        id,
                        price: item.price,
                        grade: item.grade,
                        set: copy_text(&item.set),
                        substats: copy_stats(&item.substats),
                    },
                );
            },
            None => {
                return None;
            },
        }
    }
    let roll = Fingerprint { slots };
    assert(roll@ =~= snapshot.slots@.map_values(|item: ShopItem| slot_identity(item)));
    Some(roll)
}

impl KeptSlot {
    fn same_stats(&self, other: &Self) -> (same: bool)
        ensures
            same == (self.substats@.len() == other.substats@.len() && forall|i: int|
                0 <= i < self.substats@.len() ==> same_stat(
                    stat_identity(#[trigger] self.substats@[i]),
                    stat_identity(other.substats@[i]),
                )),
    {
        if self.substats.len() != other.substats.len() {
            return false;
        }
        for i in 0..self.substats.len()
            invariant
                self.substats@.len() == other.substats@.len(),
                forall|j: int|
                    0 <= j < i ==> same_stat(
                        stat_identity(#[trigger] self.substats@[j]),
                        stat_identity(other.substats@[j]),
                    ),
        {
            let mine = &self.substats[i];
            let theirs = &other.substats[i];
            let same_value = match (mine.value, theirs.value) {
                (Some(a), Some(b)) => a.equals(b),
                (None, None) => true,
                _ => false,
            };
            if mine.name != theirs.name || !same_value {
                return false;
            }
        }
        true
    }

    fn same(&self, other: &Self) -> (same: bool)
        ensures
            same == same_slot(self@, other@),
    {
        let same_set = match (&self.set, &other.set) {
            (Some(a), Some(b)) => *a == *b,
            (None, None) => true,
            _ => false,
        };
        let same_price = match (self.price, other.price) {
            (Some(a), Some(b)) => a == b,
            (None, None) => true,
            _ => false,
        };
        let same_grade = match (self.grade, other.grade) {
            (Some(a), Some(b)) => a == b,
            (None, None) => true,
            _ => false,
        };
        proof {
            assert forall|i: int| 0 <= i < self.substats@.len() implies self@.substats[i]
                == stat_identity(#[trigger] self.substats@[i]) by {}
            assert forall|i: int| 0 <= i < other.substats@.len() implies other@.substats[i]
                == stat_identity(#[trigger] other.substats@[i]) by {}
        }
        self.id == other.id && same_price && same_grade && same_set && self.same_stats(other)
    }
}

impl Fingerprint {
    /// Whether two rolls are the same.
    pub fn same(&self, other: &Self) -> (same: bool)
        ensures
            same == same_roll(self@, other@),
    {
        if self.slots.len() != other.slots.len() {
            return false;
        }
        for i in 0..self.slots.len()
            invariant
                self.slots@.len() == other.slots@.len(),
                forall|j: int| 0 <= j < i ==> same_slot(#[trigger] self@[j], other@[j]),
        {
            if !self.slots[i].same(&other.slots[i]) {
                assert(!same_slot(self@[i as int], other@[i as int]));
                return false;
            }
        }
        true
    }
}

/// A roll is the same as itself, unless one of its stats is not a number.
pub proof fn a_roll_is_itself(slots: Seq<ShopItem>)
    requires
        all_identified(slots),
        forall|i: int, j: int|
            #![trigger slots[i].substats@[j]]
            0 <= i < slots.len() && 0 <= j < slots[i].substats@.len() ==> !(
            slots[i].substats@[j].value matches Some(value) && stat_value::is_nan(value@)),
    ensures
        same_roll(roll_of(slots)->0, roll_of(slots)->0),
{
    let roll = roll_of(slots)->0;
    assert forall|i: int| 0 <= i < roll.len() implies same_slot(#[trigger] roll[i], roll[i]) by {
        assert forall|j: int| 0 <= j < roll[i].substats.len() implies same_stat(
            #[trigger] roll[i].substats[j],
            roll[i].substats[j],
        ) by {
            assert(roll[i].substats[j] == stat_identity(slots[i].substats@[j]));
        }
    }
}

/// Neither purchase limits nor names nor anything else outside a slot's
/// identity tells two rolls apart.
pub proof fn limits_do_not_tell_rolls_apart(a: Seq<ShopItem>, b: Seq<ShopItem>)
    requires
        a.len() == b.len(),
        forall|i: int|
            0 <= i < a.len() ==> {
                &&& (#[trigger] a[i]).id == b[i].id
                &&& a[i].price == b[i].price
                &&& a[i].grade == b[i].grade
                &&& a[i].set == b[i].set
                &&& a[i].substats == b[i].substats
            },
    ensures
        roll_of(a) == roll_of(b),
{
    assert(all_identified(a) <==> all_identified(b)) by {
        assert forall|i: int| 0 <= i < a.len() implies (#[trigger] a[i]).id == b[i].id by {}
        assert forall|i: int| 0 <= i < b.len() implies (#[trigger] b[i]).id == a[i].id by {}
    }
    if all_identified(a) {
        assert(roll_of(a)->0 =~= roll_of(b)->0);
    }
}

/// When two shops are the same roll: both have an id in every slot, and slot by
/// slot the ids, the prices, the grades, the sets and the substats agree, the
/// substats in name and in value. Two values agree where they are numbers with the
/// same bits, or both zero; a value that is no number agrees with nothing.
pub proof fn a_roll_is_told_by_what_it_redraws(a: Seq<ShopItem>, b: Seq<ShopItem>)
    ensures
        roll_of(a) is Some <==> forall|i: int| 0 <= i < a.len() ==> (#[trigger] a[i]).id is Some,
        roll_of(a) is Some && roll_of(b) is Some ==> (same_roll(roll_of(a)->0, roll_of(b)->0) <==> {
            &&& a.len() == b.len()
            &&& forall|i: int|
                0 <= i < a.len() ==> {
                    &&& (#[trigger] a[i]).id == b[i].id
                    &&& a[i].price == b[i].price
                    &&& a[i].grade == b[i].grade
                    &&& a[i].set is Some == b[i].set is Some
                    &&& a[i].set is Some && b[i].set is Some ==> a[i].set->0@ == b[i].set->0@
                    &&& a[i].substats@.len() == b[i].substats@.len()
                    &&& forall|j: int|
                        0 <= j < a[i].substats@.len() ==> {
                            let mine = #[trigger] a[i].substats@[j];
                            let other = b[i].substats@[j];
                            &&& mine.name@ == other.name@
                            &&& mine.value is Some == other.value is Some
                            &&& mine.value is Some && other.value is Some ==> {
                                let (x, y) = (mine.value->0@, other.value->0@);
                                &&& x == y || (x == 0 || x == 0x8000_0000_0000_0000) && (y == 0 || y
                                    == 0x8000_0000_0000_0000)
                                &&& x <= 0x7ff0_0000_0000_0000 || 0x8000_0000_0000_0000 <= x
                                    <= 0xfff0_0000_0000_0000
                            }
                        }
                }
        }),
{
    assert(all_identified(a) <==> forall|i: int| 0 <= i < a.len() ==> (#[trigger] a[i]).id is Some);
    if roll_of(a) is Some && roll_of(b) is Some {
        let (x, y) = (roll_of(a)->0, roll_of(b)->0);
        if a.len() == b.len() {
            assert forall|i: int| 0 <= i < a.len() implies (same_slot(#[trigger] x[i], y[i])
                <==> is_same_item(a[i], b[i])) by {
                assert(x[i] == slot_identity(a[i]));
                assert(y[i] == slot_identity(b[i]));
                an_item_is_told_by_what_it_redraws(a[i], b[i]);
            }
            if same_roll(x, y) {
                assert forall|i: int| 0 <= i < a.len() implies is_same_item(#[trigger] a[i], b[i]) by {
                    assert(same_slot(x[i], y[i]));
                }
            }
            if forall|i: int| 0 <= i < a.len() ==> is_same_item(#[trigger] a[i], b[i]) {
                assert forall|i: int| 0 <= i < x.len() implies same_slot(#[trigger] x[i], y[i]) by {
                    assert(is_same_item(a[i], b[i]));
                }
            }
        }
    }
}

/// Whether two items that have ids are the same by what a roll redraws.
spec fn is_same_item(a: ShopItem, b: ShopItem) -> bool {
    &&& a.id == b.id
    &&& a.price == b.price
    &&& a.grade == b.grade
    &&& a.set is Some == b.set is Some
    &&& a.set is Some && b.set is Some ==> a.set->0@ == b.set->0@
    &&& a.substats@.len() == b.substats@.len()
    &&& forall|j: int|
        0 <= j < a.substats@.len() ==> {
            let mine = #[trigger] a.substats@[j];
            let other = b.substats@[j];
            &&& mine.name@ == other.name@
            &&& mine.value is Some == other.value is Some
            &&& mine.value is Some && other.value is Some ==> {
                let (x, y) = (mine.value->0@, other.value->0@);
                &&& x == y || (x == 0 || x == 0x8000_0000_0000_0000) && (y == 0 || y
                    == 0x8000_0000_0000_0000)
                &&& x <= 0x7ff0_0000_0000_0000 || 0x8000_0000_0000_0000 <= x
                    <= 0xfff0_0000_0000_0000
            }
        }
}

proof fn an_item_is_told_by_what_it_redraws(a: ShopItem, b: ShopItem)
    requires
        a.id is Some,
        b.id is Some,
    ensures
        same_slot(slot_identity(a), slot_identity(b)) <==> is_same_item(a, b),
{
    let (x, y) = (slot_identity(a), slot_identity(b));
    if a.substats@.len() == b.substats@.len() {
        assert forall|j: int| 0 <= j < x.substats.len() implies #[trigger] x.substats[j]
            == stat_identity(a.substats@[j]) && y.substats[j] == stat_identity(b.substats@[j]) by {}
        if same_slot(x, y) {
            assert forall|j: int| 0 <= j < a.substats@.len() implies same_stat(
                stat_identity(#[trigger] a.substats@[j]),
                stat_identity(b.substats@[j]),
            ) by {
                assert(same_stat(x.substats[j], y.substats[j]));
            }
            assert(is_same_item(a, b));
        }
        if is_same_item(a, b) {
            assert forall|j: int| 0 <= j < x.substats.len() implies same_stat(
                #[trigger] x.substats[j],
                y.substats[j],
            ) by {
                let mine = a.substats@[j];
                let other = b.substats@[j];
                assert(mine.name@ == other.name@);
            }
        }
    }
}

} // verus!

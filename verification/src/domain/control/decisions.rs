//! What the refresh loop decides, told by what comes in and what goes out alone.

use crate::domain::control::dedup::{all_identified, roll_of, same_roll, text_of, SlotIdentity};
use crate::domain::control::model::{
    checked_off, first_place, ids_of, known_same, outstanding, plan, Deed, Hunt, Proof, Purse,
    Retry,
};
use crate::domain::control::{BuyTarget, Event, Limits, RefusalReason, Status, StopReason};
use crate::domain::filter::Filter;
use crate::domain::shop::{position_of_is_first, CatalogId, Gold, ShopItem, ShopSnapshot};
use vstd::prelude::*;

verus! {

/// Whether the same criteria, limits, start and link stand.
pub open spec fn keeps_its_setup(hunt: Hunt, next: Hunt) -> bool {
    &&& next.filter == hunt.filter
    &&& next.limits == hunt.limits
    &&& next.started_at == hunt.started_at
    &&& next.recovery == hunt.recovery
    &&& next.link_up == hunt.link_up
}

/// Whether the same roll was acted on, and the same bought of it.
pub open spec fn keeps_its_roll(hunt: Hunt, next: Hunt) -> bool {
    &&& next.acted == hunt.acted
    &&& next.bought == hunt.bought
    &&& next.bought_roll == hunt.bought_roll
}

/// Every match is weighed, and none that can be bought is passed over. There is
/// one target for each slot that the filter accepts, in slot order: `places` are
/// those slots, and `left` is the gold before each of them and after the last. A
/// target names its slot's id exactly where that slot has something left to buy,
/// was not bought before in this roll, and its price is unknown or fits the gold
/// that the earlier buys leave; and each such buy takes its price off that gold.
pub proof fn every_match_is_weighed(
    filter: Filter,
    gold: Option<u32>,
    bought: Seq<CatalogId>,
    slots: Seq<ShopItem>,
) -> (ledger: (Seq<int>, Seq<Option<u32>>))
    ensures
        plan(filter, gold, bought, slots).targets.len() == ledger.0.len(),
        ledger.1.len() == ledger.0.len() + 1,
        ledger.1[0] == gold,
        ledger.1.last() == plan(filter, gold, bought, slots).gold,
        forall|k: int, l: int| 0 <= k < l < ledger.0.len() ==> ledger.0[k] < ledger.0[l],
        forall|k: int|
            0 <= k < ledger.0.len() ==> 0 <= #[trigger] ledger.0[k] < slots.len()
                && filter.accepts(slots[ledger.0[k]]),
        forall|j: int|
            0 <= j < slots.len() && filter.accepts(#[trigger] slots[j]) ==> ledger.0.contains(j),
        forall|k: int|
            0 <= k < ledger.0.len() ==> {
                let item = slots[#[trigger] ledger.0[k]];
                let target = plan(filter, gold, bought, slots).targets[k];
                let sold_out = item.limit matches Some(limit) && limit.remaining == 0;
                let spent = item.id matches Some(id) && bought.contains(id);
                let too_dear = item.price is Some && ledger.1[k] is Some && item.price->0@
                    > ledger.1[k]->0;
                let buys = !sold_out && !spent && !too_dear;
                &&& buys ==> target.id == item.id && plan(filter, gold, bought, slots).buyable
                &&& !buys ==> target.id is None
                &&& item.slot > 0 ==> target.slot == item.slot
                &&& item.slot == 0 && ledger.0[k] < 255 ==> target.slot == ledger.0[k] + 1
                &&& item.slot == 0 && ledger.0[k] >= 255 ==> target.slot == 255
                &&& ledger.1[k] is None || item.price is None || !buys ==> ledger.1[k + 1]
                    == ledger.1[k]
                &&& ledger.1[k] is Some && item.price is Some && buys ==> ledger.1[k + 1] is Some
                    && ledger.1[k + 1]->0 + item.price->0@ == ledger.1[k]->0
            },
        plan(filter, gold, bought, slots).buyable ==> exists|k: int|
            {
                let item = slots[#[trigger] ledger.0[k]];
                &&& 0 <= k < ledger.0.len()
                &&& !(item.limit matches Some(limit) && limit.remaining == 0)
                &&& !(item.id matches Some(id) && bought.contains(id))
                &&& !(item.price is Some && ledger.1[k] is Some && item.price->0@
                    > ledger.1[k]->0)
            },
    decreases slots.len(),
{
    if slots.len() == 0 {
        (Seq::empty(), seq![gold])
    } else {
        let rest = slots.drop_last();
        let (places, left) = every_match_is_weighed(filter, gold, bought, rest);
        let before = plan(filter, gold, bought, rest);
        let now = plan(filter, gold, bought, slots);
        let last = slots.len() - 1;
        let n = places.len() as int;
        assert forall|j: int| 0 <= j < rest.len() implies #[trigger] slots[j] == rest[j] by {}
        assert forall|k: int| 0 <= k < n implies slots[#[trigger] places[k]] == rest[places[k]] by {}
        if !filter.accepts(slots.last()) {
            (places, left)
        } else {
            let more = places.push(last);
            let purse = left.push(now.gold);
            assert forall|k: int| 0 <= k < n implies #[trigger] more[k] == places[k] by {}
            assert(more[n] == last);
            assert(purse[n] == left[n] && purse[n + 1] == now.gold);
            assert forall|j: int|
                0 <= j < slots.len() && filter.accepts(#[trigger] slots[j]) implies more.contains(
                j,
            ) by {
                if j < last {
                    assert(filter.accepts(rest[j]));
                    let k = choose|k: int| 0 <= k < n && places[k] == j;
                    assert(more[k] == j);
                }
            }
            if before.buyable {
                let k = choose|k: int|
                    {
                        let item = rest[#[trigger] places[k]];
                        &&& 0 <= k < n
                        &&& !(item.limit matches Some(limit) && limit.remaining == 0)
                        &&& !(item.id matches Some(id) && bought.contains(id))
                        &&& !(item.price is Some && left[k] is Some && item.price->0@
                            > left[k]->0)
                    };
                assert(more[k] == places[k]);
            }
            (more, purse)
        }
    }
}

/// The ids of a list of targets are those that its targets name, in their order
/// and none left out: `places` are the targets that name one.
pub proof fn every_named_target_is_listed(targets: Seq<BuyTarget>) -> (places: Seq<int>)
    ensures
        ids_of(targets).len() == places.len(),
        forall|k: int, l: int| 0 <= k < l < places.len() ==> places[k] < places[l],
        forall|k: int|
            0 <= k < places.len() ==> 0 <= #[trigger] places[k] < targets.len()
                && targets[places[k]].id == Some(ids_of(targets)[k]),
        forall|i: int|
            0 <= i < targets.len() && (#[trigger] targets[i]).id is Some ==> places.contains(i),
    decreases targets.len(),
{
    if targets.len() == 0 {
        Seq::empty()
    } else {
        let rest = targets.drop_last();
        let places = every_named_target_is_listed(rest);
        let n = places.len() as int;
        assert forall|i: int| 0 <= i < rest.len() implies #[trigger] targets[i] == rest[i] by {}
        assert forall|k: int| 0 <= k < n implies targets[#[trigger] places[k]]
            == rest[places[k]] by {}
        if targets.last().id is None {
            places
        } else {
            let more = places.push(targets.len() - 1);
            assert forall|k: int| 0 <= k < n implies #[trigger] more[k] == places[k] by {}
            assert(more[n] == targets.len() - 1);
            assert forall|i: int|
                0 <= i < targets.len() && (#[trigger] targets[i]).id is Some implies more.contains(
                i,
            ) by {
                if i < targets.len() - 1 {
                    assert(rest[i].id is Some);
                    let k = choose|k: int| 0 <= k < n && places[k] == i;
                    assert(more[k] == i);
                }
            }
            more
        }
    }
}

/// What is clicked again is all that is outstanding: there is one target for each
/// slot whose id is on the checklist, in slot order, with that id and the number
/// that the slot is shown under; `places` are those slots.
pub proof fn all_that_is_outstanding_is_clicked_again(
    slots: Seq<ShopItem>,
    checklist: Seq<CatalogId>,
) -> (places: Seq<int>)
    ensures
        outstanding(slots, checklist).len() == places.len(),
        forall|k: int, l: int| 0 <= k < l < places.len() ==> places[k] < places[l],
        forall|j: int|
            0 <= j < slots.len() ==> (places.contains(j) <==> ((#[trigger] slots[j]).id is Some
                && checklist.contains(slots[j].id->0))),
        forall|k: int|
            0 <= k < places.len() ==> {
                let item = slots[#[trigger] places[k]];
                let target = outstanding(slots, checklist)[k];
                &&& 0 <= places[k] < slots.len()
                &&& item.id is Some && target.id == item.id
                &&& item.slot > 0 ==> target.slot == item.slot
                &&& item.slot == 0 && places[k] < 255 ==> target.slot == places[k] + 1
                &&& item.slot == 0 && places[k] >= 255 ==> target.slot == 255
            },
    decreases slots.len(),
{
    if slots.len() == 0 {
        Seq::empty()
    } else {
        let rest = slots.drop_last();
        let places = all_that_is_outstanding_is_clicked_again(rest, checklist);
        let n = places.len() as int;
        let last = slots.len() - 1;
        assert forall|j: int| 0 <= j < rest.len() implies #[trigger] slots[j] == rest[j] by {}
        assert forall|k: int| 0 <= k < n implies slots[#[trigger] places[k]] == rest[places[k]] by {}
        if slots.last().id is Some && checklist.contains(slots.last().id->0) {
            let more = places.push(last);
            assert forall|k: int| 0 <= k < n implies #[trigger] more[k] == places[k] by {}
            assert(more[n] == last);
            assert forall|j: int| 0 <= j < slots.len() implies (more.contains(j) <==> ((
            #[trigger] slots[j]).id is Some && checklist.contains(slots[j].id->0))) by {
                if j < last {
                    assert(rest[j] == slots[j]);
                    if places.contains(j) {
                        let k = choose|k: int| 0 <= k < n && places[k] == j;
                        assert(more[k] == j);
                    }
                    if more.contains(j) {
                        let k = choose|k: int| 0 <= k < more.len() && more[k] == j;
                        assert(places[k] == j);
                    }
                }
            }
            more
        } else {
            assert forall|j: int| 0 <= j < slots.len() implies (places.contains(j) <==> ((
            #[trigger] slots[j]).id is Some && checklist.contains(slots[j].id->0))) by {
                if j == last && places.contains(j) {
                    let k = choose|k: int| 0 <= k < n && places[k] == j;
                    assert(places[k] < rest.len());
                }
                if j < last {
                    assert(rest[j] == slots[j]);
                }
            }
            places
        }
    }
}

/// Why the next refresh must not go out, by the facts alone: the balance does not
/// cover the cost, the refreshes are used up, the cost would cross the budget,
/// enough matches were found, or the time is up; the first of these in this order
/// is the reason. A cost that the wire does not name, or names as zero, is three
/// crystals.
pub proof fn the_first_limit_reached_is_the_reason(hunt: Hunt, now: u64)
    ensures
        ({
            let cost: int = if hunt.purse is Some && hunt.purse->0.cost != 0 {
                hunt.purse->0.cost as int
            } else {
                3
            };
            let limits = hunt.limits;
            let broke = hunt.purse is Some && hunt.purse->0.balance < cost;
            let counted = limits.max_refreshes is Some && limits.max_refreshes->0 <= hunt.refreshes;
            let dear = limits.max_spend is Some && limits.max_spend->0@ - hunt.spent < cost;
            let enough = limits.max_matches is Some && limits.max_matches->0 <= hunt.matches_found;
            let late = limits.max_duration_ms is Some && hunt.started_at is Some && (
            limits.max_duration_ms->0 == 0 || hunt.started_at->0 + limits.max_duration_ms->0 <= now);
            let reason = hunt.stop_reason(now);
            &&& hunt.cost() == cost
            &&& reason == Some(StopReason::OutOfFunds) <==> broke
            &&& reason == Some(StopReason::MaxRefreshes) <==> counted && !broke
            &&& reason == Some(StopReason::MaxSpend) <==> dear && !counted && !broke
            &&& reason == Some(StopReason::MaxMatches) <==> enough && !dear && !counted && !broke
            &&& reason == Some(StopReason::Timeout) <==> late && !enough && !dear && !counted
                && !broke
            &&& reason is None <==> !late && !enough && !dear && !counted && !broke
            &&& hunt.timed_out(now) <==> late
        }),
{
}

/// A hunt that goes on sends one refresh and pays for it: it counts, its cost is
/// spent and leaves the balance, and with recovery on a new shop is owed within
/// ten seconds. One that must not go on sends one halt with the reason, and
/// counts and pays nothing. Nothing else changes.
pub proof fn going_on_costs_one_refresh(hunt: Hunt, now: u64)
    ensures
        ({
            let (next, done) = hunt.resumed(now);
            &&& done.len() == 1
            &&& hunt.stop_reason(now) matches Some(reason) ==> {
                &&& done[0] == Deed::Halt(reason)
                &&& next.status == Status::Stopped(reason)
                &&& next.checklist.len() == 0 && next.awaited is None
                &&& (next.refreshes, next.spent, next.purse) == (
                    hunt.refreshes,
                    hunt.spent,
                    hunt.purse,
                )
            }
            &&& hunt.stop_reason(now) is None ==> {
                &&& done[0] == Deed::Refresh
                &&& next.status == hunt.status && next.checklist == hunt.checklist
                &&& hunt.refreshes < u32::MAX ==> next.refreshes == hunt.refreshes + 1
                &&& hunt.spent + hunt.cost() <= u32::MAX ==> next.spent == hunt.spent + hunt.cost()
                &&& hunt.refreshes == u32::MAX ==> next.refreshes == u32::MAX
                &&& hunt.spent + hunt.cost() > u32::MAX ==> next.spent == u32::MAX
                &&& hunt.purse is None ==> next.purse is None
                &&& hunt.purse is Some ==> next.purse is Some && next.purse->0.cost
                    == hunt.purse->0.cost && next.purse->0.balance + hunt.cost()
                    == hunt.purse->0.balance
                &&& !hunt.recovery ==> next.awaited == hunt.awaited
                &&& hunt.recovery ==> next.awaited is Some && next.awaited->0.proof
                    == Proof::Snapshot && next.awaited->0.deadline == now + 10_000
                    && next.awaited->0.attempt == 0
            }
            &&& keeps_its_setup(hunt, next) && keeps_its_roll(hunt, next)
            &&& next.matches_found == hunt.matches_found && next.haul == hunt.haul
            &&& next.gold == hunt.gold && next.last_snapshot == hunt.last_snapshot
        }),
{
}

/// Whether everything stays but what is known of the shop: the shop itself and its
/// refresh facts.
pub open spec fn only_learns_of_the_shop(hunt: Hunt, next: Hunt) -> bool {
    &&& keeps_its_setup(hunt, next) && keeps_its_roll(hunt, next)
    &&& next.status == hunt.status && next.checklist == hunt.checklist
    &&& next.refreshes == hunt.refreshes && next.spent == hunt.spent
    &&& next.matches_found == hunt.matches_found && next.haul == hunt.haul
    &&& next.gold == hunt.gold && next.awaited == hunt.awaited
}

/// Every shop is stored, and its refresh facts are believed where it has some. It
/// is answered with a deed exactly where the loop is armed, the shop holds
/// something, its roll is not the one acted on last, and, while a purchase is
/// pending, every slot of it has an id. A shop that is not answered changes
/// nothing else.
pub proof fn a_shop_is_answered_or_only_stored(hunt: Hunt, snapshot: ShopSnapshot, now: u64)
    ensures
        ({
            let (next, done) = hunt.after(Event::Snapshot { snapshot, now_ms: now });
            let slots = snapshot.slots@;
            let named = forall|i: int| 0 <= i < slots.len() ==> (#[trigger] slots[i]).id is Some;
            let answered = slots.len() > 0 && !known_same(roll_of(slots), hunt.acted) && (
            hunt.status == Status::Watching || hunt.status == Status::Paused && named);
            &&& next.last_snapshot == Some(snapshot)
            &&& done.len() > 0 <==> answered
            &&& !answered ==> {
                &&& only_learns_of_the_shop(hunt, next)
                &&& snapshot.refresh is None ==> next.purse == hunt.purse
                &&& snapshot.refresh matches Some(facts) ==> next.purse is Some
                    && next.purse->0.balance == facts.crystal_balance@ && next.purse->0.cost
                    == facts.cost@
            }
        }),
{
    let told = hunt.with_facts(snapshot.refresh);
    let slots = snapshot.slots@;
    assert(all_identified(slots) <==> forall|i: int|
        0 <= i < slots.len() ==> (#[trigger] slots[i]).id is Some);
    if !told.mutes(slots) {
        going_on_costs_one_refresh(told.listed(slots), now);
    }
}

/// What the loop makes of a shop that it answers: it shows the matches, if there
/// are any, and where one of them can be bought it pauses for the ids that were
/// named and sends nothing else, whatever limit is reached. Where none can, it
/// goes on past the shop. What was bought counts against the plan only where it
/// was bought of this roll, or where the roll cannot be told.
pub proof fn a_shop_is_bought_from_or_passed(hunt: Hunt, snapshot: ShopSnapshot, now: u64)
    requires
        hunt.after(Event::Snapshot { snapshot, now_ms: now }).1.len() > 0,
    ensures
        ({
            let (next, done) = hunt.after(Event::Snapshot { snapshot, now_ms: now });
            let slots = snapshot.slots@;
            let roll = roll_of(slots);
            let earlier = if roll is Some && !known_same(roll, hunt.bought_roll) {
                Seq::empty()
            } else {
                hunt.bought
            };
            let planned = plan(hunt.filter, hunt.gold, earlier, slots);
            let found = hunt.matches_found + planned.targets.len();
            let going_on = (Hunt {
                purse: match snapshot.refresh {
                    Some(facts) => Some(
                        Purse { balance: facts.crystal_balance@, cost: facts.cost@ },
                    ),
                    None => hunt.purse,
                },
                matches_found: if found <= u32::MAX {
                    found as u32
                } else {
                    u32::MAX
                },
                ..hunt
            });
            &&& keeps_its_setup(hunt, next)
            &&& next.haul == hunt.haul && next.gold == hunt.gold
            &&& next.last_snapshot == Some(snapshot)
            &&& next.matches_found == going_on.matches_found
            &&& next.bought == earlier
            &&& roll is Some ==> next.acted == roll
            &&& roll is None ==> keeps_its_roll(hunt, next)
            &&& roll is Some ==> next.bought_roll == if known_same(roll, hunt.bought_roll) {
                hunt.bought_roll
            } else {
                roll
            }
            &&& planned.targets.len() > 0 ==> done[0] == Deed::Buy { targets: planned.targets }
            &&& planned.buyable ==> {
                &&& planned.targets.len() > 0 && done.len() == 1
                &&& next.status == Status::Paused
                &&& next.checklist == ids_of(planned.targets)
                &&& next.refreshes == hunt.refreshes && next.spent == hunt.spent
                &&& next.purse == going_on.purse
                &&& next.awaited is Some <==> hunt.recovery && next.checklist.len() > 0
                &&& next.awaited is Some ==> next.awaited->0.proof == Proof::Purchase
                    && next.awaited->0.deadline == now + 10_000 && next.awaited->0.attempt == 0
            }
            &&& !planned.buyable ==> {
                &&& done.len() == if planned.targets.len() > 0 {
                    2int
                } else {
                    1int
                }
                &&& next.checklist.len() == 0
                &&& (next.refreshes, next.spent, next.purse) == (
                    going_on.resumed(now).0.refreshes,
                    going_on.resumed(now).0.spent,
                    going_on.resumed(now).0.purse,
                )
                &&& going_on.stop_reason(now) matches Some(reason) ==> done.last() == Deed::Halt(
                    reason,
                ) && next.status == Status::Stopped(reason) && next.awaited is None
                &&& going_on.stop_reason(now) is None ==> {
                    &&& done.last() == Deed::Refresh && next.status == Status::Watching
                    &&& next.awaited is Some <==> hunt.recovery
                    &&& next.awaited is Some ==> next.awaited->0.proof == Proof::Snapshot
                        && next.awaited->0.deadline == now + 10_000 && next.awaited->0.attempt == 0
                }
            }
        }),
{
    let told = hunt.with_facts(snapshot.refresh);
    let slots = snapshot.slots@;
    let taken = told.taken_up(slots);
    let ledger = every_match_is_weighed(taken.filter, taken.gold, taken.bought, slots);
    let planned = taken.planned(slots);
    if !planned.buyable {
        let places = every_named_target_is_listed(planned.targets);
        assert forall|k: int| 0 <= k < planned.targets.len() implies (
        #[trigger] planned.targets[k]).id is None by {
            assert(0 <= ledger.0[k]);
        }
        if places.len() > 0 {
            assert(planned.targets[places[0]].id is Some);
        }
        assert(ids_of(planned.targets) =~= Seq::empty());
        going_on_costs_one_refresh(told.listed(slots), now);
    }
}

/// Where every slot has an id, a pause always waits for something that can be
/// bought: whatever put it there is on the checklist.
pub proof fn a_pause_over_named_slots_waits_for_something(
    hunt: Hunt,
    snapshot: ShopSnapshot,
    now: u64,
)
    requires
        hunt.after(Event::Snapshot { snapshot, now_ms: now }).1.len() > 0,
        hunt.after(Event::Snapshot { snapshot, now_ms: now }).0.status == Status::Paused,
        forall|i: int|
            0 <= i < snapshot.slots@.len() ==> (#[trigger] snapshot.slots@[i]).id is Some,
    ensures
        hunt.after(Event::Snapshot { snapshot, now_ms: now }).0.checklist.len() > 0,
{
    let told = hunt.with_facts(snapshot.refresh);
    let slots = snapshot.slots@;
    let taken = told.taken_up(slots);
    let planned = taken.planned(slots);
    a_shop_is_bought_from_or_passed(hunt, snapshot, now);
    going_on_costs_one_refresh(told.listed(slots), now);
    let (places, left) = every_match_is_weighed(taken.filter, taken.gold, taken.bought, slots);
    let k = choose|k: int|
        {
            let item = slots[#[trigger] places[k]];
            &&& 0 <= k < places.len()
            &&& !(item.limit matches Some(limit) && limit.remaining == 0)
            &&& !(item.id matches Some(id) && taken.bought.contains(id))
            &&& !(item.price is Some && left[k] is Some && item.price->0@ > left[k]->0)
        };
    assert(slots[places[k]].id is Some);
    assert(planned.targets[k].id is Some);
    let listed = every_named_target_is_listed(planned.targets);
    assert(listed.contains(k));
}

/// An echo is always believed: the gold it tells is the gold there is, and what
/// was bought is spent for this roll. It counts towards the haul once per roll,
/// unless the run is over, under the name of the first slot that bears its id;
/// where no slot does, it does not count.
pub proof fn an_echo_is_recorded(
    hunt: Hunt,
    item: Option<CatalogId>,
    gold: Option<Gold>,
    now: u64,
)
    ensures
        ({
            let next = hunt.after(Event::Purchase { item, gold, now_ms: now }).0;
            let slots = hunt.last_snapshot->0.slots@;
            &&& keeps_its_setup(hunt, next)
            &&& next.last_snapshot == hunt.last_snapshot && next.matches_found
                == hunt.matches_found
            &&& next.acted == hunt.acted && next.bought_roll == hunt.bought_roll
            &&& gold is None ==> next.gold == hunt.gold
            &&& gold is Some ==> next.gold == Some(gold->0@)
            &&& item is None || hunt.bought.contains(item->0) ==> next.bought == hunt.bought
                && next.haul == hunt.haul
            &&& item is Some && !hunt.bought.contains(item->0) ==> {
                &&& next.bought.len() == hunt.bought.len() + 1
                &&& next.bought.last() == item->0 && next.bought.drop_last() == hunt.bought
                &&& hunt.status is Stopped || hunt.last_snapshot is None ==> next.haul == hunt.haul
                &&& hunt.last_snapshot is Some && (forall|j: int|
                    0 <= j < slots.len() ==> (#[trigger] slots[j]).id != item) ==> next.haul
                    == hunt.haul
                &&& !(hunt.status is Stopped) && hunt.last_snapshot is Some ==> forall|j: int|
                    0 <= j < slots.len() && (#[trigger] slots[j]).id == item && (forall|i: int|
                        0 <= i < j ==> (#[trigger] slots[i]).id != item) ==> next.haul
                        == hunt.haul.plus(text_of(slots[j].name))
            }
        }),
{
    let told = hunt.with_gold(gold).with_purchase(item);
    if item is Some {
        going_on_costs_one_refresh(
            Hunt { checklist: checked_off(told.checklist, item->0), status: Status::Watching, ..told },
            now,
        );
        if hunt.last_snapshot is Some {
            position_of_is_first(hunt.last_snapshot->0.slots@, item->0);
        }
        if !hunt.bought.contains(item->0) {
            assert(told.bought.drop_last() =~= hunt.bought);
        }
    }
}

/// An echo takes exactly one entry off the checklist of a paused hunt: one that
/// names it, and every other stays. As long as entries are left the hunt waits on,
/// with a full ten seconds where recovery is on; once none is left, it goes on.
pub proof fn an_echo_checks_off_one(hunt: Hunt, item: CatalogId, gold: Option<Gold>, now: u64)
    requires
        hunt.status == Status::Paused,
        hunt.checklist.contains(item),
    ensures
        ({
            let (next, done) = hunt.after(Event::Purchase { item: Some(item), gold, now_ms: now });
            &&& next.checklist.len() == hunt.checklist.len() - 1
            &&& next.checklist.to_multiset() == hunt.checklist.to_multiset().remove(item)
            &&& forall|other: CatalogId|
                other != item ==> (#[trigger] next.checklist.contains(other)
                    <==> hunt.checklist.contains(other))
            &&& hunt.checklist.len() > 1 ==> {
                &&& done.len() == 0 && next.status == Status::Paused
                &&& next.refreshes == hunt.refreshes && next.spent == hunt.spent && next.purse
                    == hunt.purse
                &&& !hunt.recovery ==> next.awaited == hunt.awaited
                &&& hunt.recovery ==> next.awaited is Some && next.awaited->0.proof
                    == Proof::Purchase && next.awaited->0.deadline == now + 10_000
                    && next.awaited->0.attempt == 0
            }
            &&& hunt.checklist.len() == 1 ==> {
                &&& done.len() == 1
                &&& (next.refreshes, next.spent, next.purse) == (
                    hunt.resumed(now).0.refreshes,
                    hunt.resumed(now).0.spent,
                    hunt.resumed(now).0.purse,
                )
                &&& hunt.stop_reason(now) matches Some(reason) ==> done[0] == Deed::Halt(reason)
                    && next.status == Status::Stopped(reason) && next.awaited is None
                &&& hunt.stop_reason(now) is None ==> done[0] == Deed::Refresh && next.status
                    == Status::Watching && next.awaited == hunt.resumed(now).0.awaited
            }
        }),
{
    let told = hunt.with_gold(gold).with_purchase(Some(item));
    let left = checked_off(told.checklist, item);
    one_entry_is_taken_off(told.checklist, item);
    let cleared = Hunt { checklist: left, status: Status::Watching, ..told };
    let next = hunt.after(Event::Purchase { item: Some(item), gold, now_ms: now }).0;
    going_on_costs_one_refresh(cleared, now);
    the_first_limit_reached_is_the_reason(cleared, now);
    the_first_limit_reached_is_the_reason(hunt, now);
    assert(cleared.stop_reason(now) == hunt.stop_reason(now));
    if left.len() == 0 {
        assert(left =~= Seq::empty());
        assert(next.checklist =~= left);
    }
    assert(next.checklist == left);
}

proof fn one_entry_is_taken_off(checklist: Seq<CatalogId>, item: CatalogId)
    requires
        checklist.contains(item),
    ensures
        checked_off(checklist, item).len() == checklist.len() - 1,
        checked_off(checklist, item).to_multiset() == checklist.to_multiset().remove(item),
        forall|other: CatalogId|
            other != item ==> (#[trigger] checked_off(checklist, item).contains(other)
                <==> checklist.contains(other)),
{
    broadcast use vstd::seq_lib::group_to_multiset_ensures;

    let place = first_place(checklist, item);
    let somewhere = choose|i: int| 0 <= i < checklist.len() && checklist[i] == item;
    a_first_place_exists(checklist, item, somewhere);
    let n = checklist.len() as int;
    let moved = checklist.update(place, checklist.last());
    assert(moved.drop_last() =~= moved.remove(n - 1));
    assert(moved.to_multiset() =~= checklist.to_multiset().insert(checklist.last()).remove(item));
    let left = checked_off(checklist, item);
    assert(left.to_multiset() =~= checklist.to_multiset().remove(item));
    assert forall|other: CatalogId| other != item implies (#[trigger] left.contains(other)
        <==> checklist.contains(other)) by {
        assert(left.contains(other) <==> left.to_multiset().count(other) > 0);
        assert(checklist.contains(other) <==> checklist.to_multiset().count(other) > 0);
    }
}

/// Whatever stands on a checklist stands somewhere first.
proof fn a_first_place_exists(checklist: Seq<CatalogId>, item: CatalogId, at: int)
    requires
        0 <= at < checklist.len(),
        checklist[at] == item,
    ensures
        0 <= first_place(checklist, item) < checklist.len(),
        checklist[first_place(checklist, item)] == item,
    decreases at,
{
    if exists|i: int| 0 <= i < at && checklist[i] == item {
        let i = choose|i: int| 0 <= i < at && checklist[i] == item;
        a_first_place_exists(checklist, item, i);
    } else {
        assert(0 <= at < checklist.len() && checklist[at] == item && forall|j: int|
            0 <= j < at ==> checklist[j] != item);
    }
}

/// An echo that checks nothing off sends nothing: a refresh or a halt answers only
/// the echo of a paused hunt whose checklist is that one item.
pub proof fn only_the_last_buy_ends_a_pause(
    hunt: Hunt,
    item: Option<CatalogId>,
    gold: Option<Gold>,
    now: u64,
)
    ensures
        ({
            let (next, done) = hunt.after(Event::Purchase { item, gold, now_ms: now });
            &&& done.len() > 0 ==> hunt.status == Status::Paused && item is Some && hunt.checklist
                == seq![item->0]
            &&& hunt.status != Status::Paused || item is None || !hunt.checklist.contains(item->0)
                ==> {
                &&& next.status == hunt.status && next.checklist == hunt.checklist
                &&& next.refreshes == hunt.refreshes && next.spent == hunt.spent
                &&& next.purse == hunt.purse && next.awaited == hunt.awaited
            }
        }),
{
    if hunt.status == Status::Paused && item is Some && hunt.checklist.contains(item->0) {
        an_echo_checks_off_one(hunt, item->0, gold, now);
        if hunt.checklist.len() == 1 {
            assert(hunt.checklist =~= seq![item->0]);
        }
    }
}

/// Whether everything stays but the status, the checklist and what is waited for.
pub open spec fn keeps_its_books(hunt: Hunt, next: Hunt) -> bool {
    &&& keeps_its_setup(hunt, next) && keeps_its_roll(hunt, next)
    &&& next.refreshes == hunt.refreshes && next.spent == hunt.spent
    &&& next.matches_found == hunt.matches_found && next.haul == hunt.haul
    &&& next.purse == hunt.purse && next.gold == hunt.gold
    &&& next.last_snapshot == hunt.last_snapshot
}

/// What a tick does. An idle or stopped loop does nothing. A loop that waits for
/// nothing while it watches halts at the first limit reached. One that pauses or
/// waits halts only once its time is up; until then it does nothing while the link
/// is down, while it waits for nothing, or before the deadline.
pub proof fn a_tick_halts_at_a_limit(hunt: Hunt, now: u64)
    ensures
        ({
            let (next, done) = hunt.after(Event::Tick { now_ms: now });
            let watching = hunt.status == Status::Watching;
            let armed = watching || hunt.status == Status::Paused;
            let quiet = watching && hunt.awaited is None;
            let due = hunt.link_up && hunt.awaited is Some && hunt.awaited->0.deadline <= now;
            let reason = if quiet {
                hunt.stop_reason(now)
            } else if hunt.timed_out(now) {
                Some(StopReason::Timeout)
            } else {
                None
            };
            &&& armed && reason is Some ==> {
                &&& done == seq![Deed::Halt(reason->0)]
                &&& next.status == Status::Stopped(reason->0)
                &&& next.checklist.len() == 0 && next.awaited is None
                &&& keeps_its_books(hunt, next)
            }
            &&& !armed || reason is None && (quiet || !due) ==> done.len() == 0 && next == hunt
            &&& armed && reason is None && !quiet && due ==> done.len() == 1
        }),
{
}

/// What a tick past a deadline does, where no limit halts: on the first rung it
/// clicks the confirm again, on the second it sends the refresh or the outstanding
/// buys again, and past that it gives up. A rung that was climbed grants a full
/// ten seconds. Only the refresh that is sent again counts and costs, and it goes
/// out only where a limit does not halt instead.
pub proof fn a_missed_deadline_climbs_one_rung(hunt: Hunt, now: u64)
    requires
        hunt.status == Status::Watching || hunt.status == Status::Paused,
        hunt.link_up,
        hunt.awaited is Some,
        hunt.awaited->0.deadline <= now,
        !hunt.timed_out(now),
    ensures
        ({
            let (next, done) = hunt.after(Event::Tick { now_ms: now });
            let proof_owed = hunt.awaited->0.proof;
            let rung = hunt.awaited->0.attempt;
            let gives_up = rung != 0 && rung != 1;
            let halts = if gives_up {
                Some(StopReason::Unresponsive)
            } else if rung == 1 && proof_owed == Proof::Snapshot {
                hunt.stop_reason(now)
            } else {
                None
            };
            &&& halts is Some ==> {
                &&& done == seq![Deed::Halt(halts->0)]
                &&& next.status == Status::Stopped(halts->0)
                &&& next.checklist.len() == 0 && next.awaited is None
                &&& keeps_its_books(hunt, next)
            }
            &&& halts is None ==> {
                &&& done.len() == 1
                &&& next.status == hunt.status && next.checklist == hunt.checklist
                &&& next.awaited is Some && next.awaited->0.proof == proof_owed
                    && next.awaited->0.deadline == now + 10_000 && next.awaited->0.attempt == rung
                    + 1
                &&& rung == 0 && proof_owed == Proof::Snapshot ==> done[0] == Deed::Recover(
                    Retry::ConfirmRefresh,
                )
                &&& rung == 0 && proof_owed == Proof::Purchase ==> done[0] == Deed::Recover(
                    Retry::ConfirmBuy,
                )
                &&& rung == 1 && proof_owed == Proof::Snapshot ==> done[0] == Deed::Recover(
                    Retry::Refresh,
                ) && (next.refreshes, next.spent, next.purse) == (
                    hunt.resumed(now).0.refreshes,
                    hunt.resumed(now).0.spent,
                    hunt.resumed(now).0.purse,
                )
                &&& rung == 1 && proof_owed == Proof::Purchase ==> done[0] is Recover
                    && done[0]->Recover_0 is Buy && (hunt.last_snapshot matches Some(snapshot)
                    ==> done[0]->Recover_0->targets == outstanding(
                    snapshot.slots@,
                    hunt.checklist,
                )) && (hunt.last_snapshot is None ==> done[0]->Recover_0->targets.len() == 0)
                &&& rung == 0 || proof_owed == Proof::Purchase ==> keeps_its_books(hunt, next)
                &&& keeps_its_setup(hunt, next) && keeps_its_roll(hunt, next)
                &&& next.matches_found == hunt.matches_found && next.haul == hunt.haul
                &&& next.gold == hunt.gold && next.last_snapshot == hunt.last_snapshot
            }
        }),
{
    going_on_costs_one_refresh(hunt, now);
}

/// The click that is sent again for a missed purchase covers every outstanding
/// match: a slot of the stored shop is clicked exactly where its id is still on
/// the checklist.
pub proof fn a_second_click_covers_every_outstanding_match(hunt: Hunt, now: u64, j: int)
    requires
        hunt.status == Status::Paused,
        hunt.link_up,
        hunt.awaited matches Some(awaited) && awaited.proof == Proof::Purchase && awaited.attempt
            == 1 && awaited.deadline <= now,
        !hunt.timed_out(now),
        hunt.last_snapshot is Some,
        0 <= j < hunt.last_snapshot->0.slots@.len(),
        hunt.last_snapshot->0.slots@[j].id is Some,
        hunt.checklist.contains(hunt.last_snapshot->0.slots@[j].id->0),
    ensures
        ({
            let done = hunt.after(Event::Tick { now_ms: now }).1;
            let item = hunt.last_snapshot->0.slots@[j];
            &&& done.len() == 1
            &&& done[0] matches Deed::Recover(Retry::Buy { targets }) && exists|k: int|
                0 <= k < targets.len() && (#[trigger] targets[k]).id == item.id && (item.slot > 0
                    ==> targets[k].slot == item.slot)
        }),
{
    let slots = hunt.last_snapshot->0.slots@;
    a_missed_deadline_climbs_one_rung(hunt, now);
    let places = all_that_is_outstanding_is_clicked_again(slots, hunt.checklist);
    assert(slots[j].id is Some);
    assert(places.contains(j));
    let k = choose|k: int| 0 <= k < places.len() && places[k] == j;
    assert(outstanding(slots, hunt.checklist)[k].id == slots[places[k]].id);
}

/// A start arms only a loop that is not armed and has a target: without one it is
/// refused and changes nothing, and an armed loop does not hear it. A run that
/// starts keeps its setup, the stored shop and what was bought of it, sends
/// nothing, and has nothing else of the run before.
pub proof fn a_start_arms_a_loop_with_a_target(hunt: Hunt, now: u64)
    ensures
        ({
            let (next, done) = hunt.after(Event::Start { now_ms: now });
            let armed = hunt.status == Status::Watching || hunt.status == Status::Paused;
            &&& armed ==> next == hunt && done.len() == 0
            &&& !armed && hunt.filter.unrestricted() ==> next == hunt && done == seq![
                Deed::Refused(RefusalReason::UnrestrictedFilter),
            ]
            &&& !armed && !hunt.filter.unrestricted() ==> {
                &&& done.len() == 0
                &&& next.status == Status::Watching && next.started_at == Some(now)
                &&& next.filter == hunt.filter && next.limits == hunt.limits
                &&& next.recovery == hunt.recovery && next.link_up == hunt.link_up
                &&& next.last_snapshot == hunt.last_snapshot
                &&& next.bought == hunt.bought && next.bought_roll == hunt.bought_roll
                &&& next.acted is None && next.checklist.len() == 0 && next.awaited is None
                &&& next.purse is None && next.gold is None
                &&& next.refreshes == 0 && next.spent == 0 && next.matches_found == 0
                &&& next.haul.named.len() == 0 && next.haul.untitled == 0
            }
        }),
{
}

/// A player's stop, the end of the session and a failing hand each halt an armed
/// loop, for that reason and with nothing left to wait for; a loop that is not
/// armed does not hear them.
pub proof fn a_stop_halts_an_armed_loop(hunt: Hunt, event: Event)
    requires
        event is Stop || event is Shutdown || event is ActuatorFailed,
    ensures
        ({
            let (next, done) = hunt.after(event);
            let armed = hunt.status == Status::Watching || hunt.status == Status::Paused;
            let reason = if event is Stop {
                StopReason::PlayerStopped
            } else if event is Shutdown {
                StopReason::SessionEnded
            } else {
                StopReason::ActuatorFailed
            };
            &&& armed ==> {
                &&& done == seq![Deed::Halt(reason)]
                &&& next.status == Status::Stopped(reason)
                &&& next.checklist.len() == 0 && next.awaited is None
                &&& keeps_its_books(hunt, next)
            }
            &&& !armed ==> next == hunt && done.len() == 0
        }),
{
}

/// New criteria are taken unless they are none, new limits always, and either
/// changes nothing else and sends nothing. A link that drops or comes back changes
/// only that, but for a pending deadline, which a link that is back grants anew.
pub proof fn a_setting_changes_only_itself(
    hunt: Hunt,
    filter: Filter,
    limits: Limits,
    now: u64,
)
    ensures
        ({
            let (next, done) = hunt.after(Event::FilterChanged(filter));
            &&& filter.unrestricted() ==> next == hunt && done == seq![
                Deed::Refused(RefusalReason::UnrestrictedFilter),
            ]
            &&& !filter.unrestricted() ==> done.len() == 0 && next.filter == filter && (Hunt {
                filter: hunt.filter,
                ..next
            }) == hunt
        }),
        ({
            let (next, done) = hunt.after(Event::LimitsChanged(limits));
            done.len() == 0 && next.limits == limits && (Hunt { limits: hunt.limits, ..next })
                == hunt
        }),
        ({
            let (next, done) = hunt.after(Event::LinkDown);
            done.len() == 0 && !next.link_up && (Hunt { link_up: hunt.link_up, ..next }) == hunt
        }),
        ({
            let (next, done) = hunt.after(Event::LinkUp { now_ms: now });
            &&& done.len() == 0 && next.link_up
            &&& (Hunt { link_up: hunt.link_up, awaited: hunt.awaited, ..next }) == hunt
            &&& hunt.awaited is None ==> next.awaited is None
            &&& hunt.awaited is Some ==> next.awaited is Some && next.awaited->0.proof
                == hunt.awaited->0.proof && next.awaited->0.attempt == hunt.awaited->0.attempt
                && next.awaited->0.deadline == now + 10_000
        }),
{
}

/// Switching recovery changes only that; switching it off drops what was waited
/// for, and switching it on does not touch it.
pub proof fn recovery_changes_only_itself(hunt: Hunt, enabled: bool)
    ensures
        hunt.with_recovery(enabled).recovery == enabled,
        hunt.with_recovery(enabled).awaited == if enabled {
            hunt.awaited
        } else {
            None
        },
        (Hunt { recovery: hunt.recovery, awaited: hunt.awaited, ..hunt.with_recovery(enabled) })
            == hunt,
{
}

/// A new loop is idle, with nothing bought, found, spent or waited for, its link
/// up and recovery off.
pub proof fn a_new_loop_is_idle(filter: Filter, limits: Limits)
    ensures
        ({
            let hunt = Hunt::fresh(filter, limits);
            &&& hunt.filter == filter && hunt.limits == limits
            &&& hunt.status == Status::Idle && hunt.started_at is None
            &&& hunt.refreshes == 0 && hunt.spent == 0 && hunt.matches_found == 0
            &&& hunt.haul.named.len() == 0 && hunt.haul.untitled == 0
            &&& hunt.purse is None && hunt.gold is None && hunt.last_snapshot is None
            &&& hunt.checklist.len() == 0 && hunt.acted is None
            &&& hunt.bought.len() == 0 && hunt.bought_roll is None
            &&& !hunt.recovery && hunt.awaited is None && hunt.link_up
        }),
{
}

/// Two rolls are taken for one only where both are known: a shop that cannot be
/// told is never one that was seen before.
pub proof fn a_roll_that_is_unknown_was_never_seen(a: Seq<SlotIdentity>, b: Seq<SlotIdentity>)
    ensures
        known_same(Some(a), Some(b)) <==> same_roll(a, b),
        !known_same(None, Some(b)) && !known_same(Some(a), None) && !known_same(None, None),
{
}

} // verus!

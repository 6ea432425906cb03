//! What holds of the refresh loop as a whole.

use crate::domain::control::dedup::{a_roll_is_itself, all_identified, roll_of, text_of};
use crate::domain::control::haul::{a_buy_counts_under_its_name, capped_sum, names_differ};
use crate::domain::control::model::{
    checked_off, ids_of, in_reach, known_same, outstanding, plan, Deed, Hunt, Proof, Retry,
    EXPECT_MS,
};
use crate::domain::control::{Event, Limits, Status, StopReason};
use crate::domain::filter::Filter;
use crate::domain::shop::{position_of, CatalogId, Gold, ShopItem, ShopSnapshot};
use crate::domain::stat_value;
use vstd::prelude::*;

verus! {

/// No id stands twice.
pub open spec fn ids_differ(ids: Seq<CatalogId>) -> bool {
    forall|i: int, j: int| 0 <= i < j < ids.len() ==> ids[i] != ids[j]
}

/// What every reachable state holds: a deadline runs only while the watchdog is
/// armed and the loop is; a checklist stands only while a purchase is awaited;
/// a loop that has run knows when it started; an armed loop has a target; no
/// bought id is listed twice, and no name is tallied twice.
pub open spec fn valid(hunt: Hunt) -> bool {
    &&& hunt.awaited is Some ==> hunt.recovery && hunt.status.armed()
    &&& hunt.checklist.len() > 0 ==> hunt.status == Status::Paused
    &&& hunt.status != Status::Idle ==> hunt.started_at is Some
    &&& hunt.status.armed() ==> !hunt.filter.unrestricted()
    &&& ids_differ(hunt.bought)
    &&& names_differ(hunt.haul.named)
}

/// A controller starts out valid.
pub proof fn a_fresh_hunt_is_valid(filter: Filter, limits: Limits)
    ensures
        valid(Hunt::fresh(filter, limits)),
{
}

/// Where nothing is in reach, no target has an id.
proof fn out_of_reach_names_no_id(
    filter: Filter,
    gold: Option<u32>,
    bought: Seq<CatalogId>,
    slots: Seq<ShopItem>,
)
    requires
        !plan(filter, gold, bought, slots).buyable,
    ensures
        ids_of(plan(filter, gold, bought, slots).targets).len() == 0,
    decreases slots.len(),
{
    if slots.len() > 0 {
        let before = plan(filter, gold, bought, slots.drop_last());
        let now = plan(filter, gold, bought, slots);
        if filter.accepts(slots.last()) {
            assert(now.targets.drop_last() =~= before.targets);
        }
        out_of_reach_names_no_id(filter, gold, bought, slots.drop_last());
    }
}

/// A confirmed buy keeps the records without repeats.
proof fn a_purchase_keeps_records(hunt: Hunt, item: Option<CatalogId>)
    requires
        ids_differ(hunt.bought),
        names_differ(hunt.haul.named),
    ensures
        ids_differ(hunt.with_purchase(item).bought),
        names_differ(hunt.with_purchase(item).haul.named),
{
    let next = hunt.with_purchase(item);
    if next.haul != hunt.haul {
        let place = position_of(hunt.last_snapshot->0.slots@, item->0);
        let name = text_of(
            hunt.last_snapshot->0.slots@[place->0].name,
        );
        if let Some(name) = name {
            assert(name.push(' ').len() == name.len() + 1);
            a_buy_counts_under_its_name(hunt.haul, name, name.push(' '));
        }
    }
}

proof fn resuming_keeps_valid(hunt: Hunt, now: u64)
    requires
        valid(hunt),
        hunt.status == Status::Watching,
    ensures
        valid(hunt.resumed(now).0),
{
}

proof fn a_snapshot_keeps_valid(hunt: Hunt, snapshot: ShopSnapshot, now: u64)
    requires
        valid(hunt),
    ensures
        valid(hunt.on_snapshot(snapshot, now).0),
{
    let told = hunt.with_facts(snapshot.refresh);
    let slots = snapshot.slots@;
    if !told.mutes(slots) {
        let taken = told.taken_up(slots);
        let planned = taken.planned(slots);
        if !planned.buyable {
            out_of_reach_names_no_id(taken.filter, taken.gold, taken.bought, slots);
            assert(valid(told.listed(slots)));
            resuming_keeps_valid(told.listed(slots), now);
        } else {
            a_buyable_plan_has_targets(taken.filter, taken.gold, taken.bought, slots);
        }
    }
}

proof fn a_purchase_keeps_valid(hunt: Hunt, item: Option<CatalogId>, gold: Option<Gold>, now: u64)
    requires
        valid(hunt),
    ensures
        valid(hunt.on_purchase(item, gold, now).0),
{
    a_purchase_keeps_records(hunt.with_gold(gold), item);
    let told = hunt.with_gold(gold).with_purchase(item);
    assert(valid(told));
    if item is Some && checked_off(told.checklist, item->0).len() == 0 {
        let resumed = Hunt {
            checklist: checked_off(told.checklist, item->0),
            status: Status::Watching,
            ..told
        };
        if told.status == Status::Paused {
            resuming_keeps_valid(Hunt { awaited: resumed.awaited, ..resumed }, now);
        }
    }
}

proof fn a_tick_keeps_valid(hunt: Hunt, now: u64)
    requires
        valid(hunt),
    ensures
        valid(hunt.on_tick(now).0),
{
}

/// Every event keeps a valid state valid.
pub proof fn every_event_keeps_a_hunt_valid(hunt: Hunt, event: Event)
    requires
        valid(hunt),
    ensures
        valid(hunt.after(event).0),
{
    match event {
        Event::Snapshot { snapshot, now_ms } => {
            a_snapshot_keeps_valid(hunt, snapshot, now_ms);
            assert(hunt.after(event) == hunt.on_snapshot(snapshot, now_ms));
        },
        Event::Purchase { item, gold, now_ms } => {
            a_purchase_keeps_valid(hunt, item, gold, now_ms);
            assert(hunt.after(event) == hunt.on_purchase(item, gold, now_ms));
        },
        Event::Tick { now_ms } => {
            a_tick_keeps_valid(hunt, now_ms);
            assert(hunt.after(event) == hunt.on_tick(now_ms));
        },
        _ => {
            assert(valid(hunt.after(event).0));
        },
    }
}

/// Whether the time that an event tells leaves room for one full deadline.
pub open spec fn leaves_room(event: Event) -> bool {
    match event {
        Event::Start { now_ms }
        | Event::Snapshot { now_ms, .. }
        | Event::Purchase { now_ms, .. }
        | Event::LinkUp { now_ms }
        | Event::Tick { now_ms } => now_ms + EXPECT_MS <= u64::MAX,
        _ => true,
    }
}

/// An event whose time leaves room for one full deadline is always taken: every
/// deadline that it sets can be told on the clock.
pub proof fn an_event_with_room_is_taken(hunt: Hunt, event: Event)
    requires
        hunt.on_the_clock(),
        leaves_room(event),
    ensures
        hunt.after(event).0.on_the_clock(),
{
}

/// Arming or disarming the watchdog keeps a valid state valid.
pub proof fn switching_recovery_keeps_a_hunt_valid(hunt: Hunt, enabled: bool)
    requires
        valid(hunt),
    ensures
        valid(hunt.with_recovery(enabled)),
{
}

/// How many of the deeds bill a refresh.
pub open spec fn billed(done: Seq<Deed>) -> nat
    decreases done.len(),
{
    if done.len() == 0 {
        0
    } else {
        billed(done.drop_last()) + if done.last() == Deed::Refresh || done.last() == Deed::Recover(
            Retry::Refresh,
        ) {
            1nat
        } else {
            0nat
        }
    }
}

proof fn billed_of_one(deed: Deed)
    ensures
        billed(seq![deed]) == if deed == Deed::Refresh || deed == Deed::Recover(Retry::Refresh) {
            1nat
        } else {
            0nat
        },
{
    assert(billed(Seq::<Deed>::empty()) == 0);
    assert(seq![deed].drop_last() =~= Seq::<Deed>::empty());
    assert(seq![deed].last() == deed);
}

proof fn billed_of_two(first: Deed, second: Deed)
    ensures
        billed(seq![first] + seq![second]) == billed(seq![first]) + billed(seq![second]),
{
    billed_of_one(first);
    billed_of_one(second);
    assert((seq![first] + seq![second]).drop_last() =~= seq![first]);
    assert((seq![first] + seq![second]).last() == second);
}

proof fn billed_counts(done: Seq<Deed>)
    ensures
        done.len() == 0 ==> billed(done) == 0,
        done.len() == 1 ==> billed(done) == billed(seq![done[0]]),
        done.len() == 2 ==> billed(done) == billed(seq![done[0]]) + billed(seq![done[1]]),
        forall|deed: Deed| #[trigger]
            billed(seq![deed]) == if deed == Deed::Refresh || deed == Deed::Recover(
                Retry::Refresh,
            ) {
                1nat
            } else {
                0nat
            },
{
    assert forall|deed: Deed| #[trigger]
        billed(seq![deed]) == if deed == Deed::Refresh || deed == Deed::Recover(Retry::Refresh) {
            1nat
        } else {
            0nat
        } by {
        billed_of_one(deed);
    }
    if done.len() == 1 {
        assert(done =~= seq![done[0]]);
    } else if done.len() == 2 {
        assert(done =~= seq![done[0]] + seq![done[1]]);
        billed_of_two(done[0], done[1]);
    }
}

/// Resuming sends one deed: a refresh that is counted and paid, or a halt that
/// moves no counter.
proof fn resuming_bills_once(hunt: Hunt, now: u64)
    ensures
        ({
            let (next, done) = hunt.resumed(now);
            &&& done.len() == 1
            &&& match hunt.stop_reason(now) {
                Some(reason) => {
                    &&& done[0] == Deed::Halt(reason)
                    &&& next.status == Status::Stopped(reason)
                    &&& next.refreshes == hunt.refreshes && next.spent == hunt.spent
                },
                None => {
                    &&& done[0] == Deed::Refresh
                    &&& next.status == hunt.status
                    &&& next.refreshes == capped_sum(hunt.refreshes as nat, 1)
                    &&& next.spent == capped_sum(hunt.spent as nat, hunt.cost() as nat)
                    &&& next.cost() == hunt.cost()
                },
            }
        }),
{
}

/// Each refresh that goes out is counted once and paid once, at the cost that
/// stands; at most one goes out per event, and no other event moves the two
/// counters. A start, which resets them, sends none.
pub proof fn every_refresh_is_billed_once(hunt: Hunt, event: Event)
    ensures
        billed(hunt.after(event).1) <= 1,
        event is Start ==> billed(hunt.after(event).1) == 0,
        !(event is Start) ==> hunt.after(event).0.refreshes == capped_sum(
            hunt.refreshes as nat,
            billed(hunt.after(event).1),
        ),
        !(event is Start) ==> hunt.after(event).0.spent == capped_sum(
            hunt.spent as nat,
            billed(hunt.after(event).1) * hunt.after(event).0.cost() as nat,
        ),
{
    let (next, done) = hunt.after(event);
    billed_counts(done);
    match event {
        Event::Snapshot { snapshot, now_ms } => {
            let told = hunt.with_facts(snapshot.refresh);
            let slots = snapshot.slots@;
            if !told.mutes(slots) {
                let taken = told.taken_up(slots);
                let listed = told.listed(slots);
                resuming_bills_once(listed, now_ms);
            }
        },
        Event::Purchase { item, gold, now_ms } => {
            let told = hunt.with_gold(gold).with_purchase(item);
            if item is Some {
                resuming_bills_once(
                    Hunt {
                        checklist: checked_off(told.checklist, item->0),
                        status: Status::Watching,
                        ..told
                    },
                    now_ms,
                );
            }
        },
        Event::Tick { now_ms } => {
            resuming_bills_once(hunt, now_ms);
        },
        _ => {},
    }
    let cost = next.cost() as nat;
    assert(0 * cost == 0 && 1 * cost == cost) by (nonlinear_arith);
}

proof fn resuming_crosses_no_ceiling(hunt: Hunt, now: u64)
    ensures
        hunt.limits.max_spend matches Some(max) ==> hunt.resumed(now).0.spent <= hunt.spent
            || hunt.resumed(now).0.spent <= max@,
        hunt.limits.max_refreshes matches Some(max) ==> hunt.resumed(now).0.refreshes
            <= hunt.refreshes || hunt.resumed(now).0.refreshes <= max,
{
}

/// The crystal budget is a hard ceiling, and so is the count of refreshes: no
/// event moves either counter past its limit.
pub proof fn no_event_crosses_a_ceiling(hunt: Hunt, event: Event)
    ensures
        hunt.limits.max_spend matches Some(max) ==> hunt.after(event).0.spent <= hunt.spent
            || hunt.after(event).0.spent <= max@,
        hunt.limits.max_refreshes matches Some(max) ==> hunt.after(event).0.refreshes
            <= hunt.refreshes || hunt.after(event).0.refreshes <= max,
{
    match event {
        Event::Snapshot { snapshot, now_ms } => {
            let told = hunt.with_facts(snapshot.refresh);
            resuming_crosses_no_ceiling(told.listed(snapshot.slots@), now_ms);
            assert(hunt.after(event) == hunt.on_snapshot(snapshot, now_ms));
        },
        Event::Purchase { item, gold, now_ms } => {
            let told = hunt.with_gold(gold).with_purchase(item);
            resuming_crosses_no_ceiling(
                Hunt {
                    checklist: checked_off(told.checklist, item->0),
                    status: Status::Watching,
                    ..told
                },
                now_ms,
            );
            assert(hunt.after(event) == hunt.on_purchase(item, gold, now_ms));
        },
        Event::Tick { now_ms } => {
            resuming_crosses_no_ceiling(hunt, now_ms);
            assert(hunt.after(event) == hunt.on_tick(now_ms));
        },
        _ => {},
    }
}

/// The way out of every pause and past every shop without a match: either one
/// refresh goes out, which fits the limits, is counted once and paid once; or
/// one halt does, and nothing was counted.
pub proof fn the_hunt_resumes_or_halts(hunt: Hunt, now: u64)
    ensures
        match hunt.stop_reason(now) {
            Some(reason) => {
                &&& hunt.resumed(now).1 == seq![Deed::Halt(reason)]
                &&& hunt.resumed(now).0.spent == hunt.spent
                &&& hunt.resumed(now).0.refreshes == hunt.refreshes
                &&& hunt.resumed(now).0.matches_found == hunt.matches_found
            },
            None => {
                &&& hunt.resumed(now).1 == seq![Deed::Refresh]
                &&& hunt.resumed(now).0.spent == capped_sum(
                    hunt.spent as nat,
                    hunt.cost() as nat,
                )
                &&& hunt.resumed(now).0.refreshes == capped_sum(hunt.refreshes as nat, 1)
                &&& hunt.limits.max_spend matches Some(max) ==> hunt.spent + hunt.cost() <= max@
                    && hunt.resumed(now).0.spent == hunt.spent + hunt.cost()
                &&& hunt.limits.max_refreshes matches Some(max) ==> hunt.refreshes < max
                    && hunt.resumed(now).0.refreshes == hunt.refreshes + 1
            },
        },
{
}

/// A refresh that goes out fits the budget and the count that are set, and the
/// two counters move by exactly its cost and by one.
pub proof fn a_refresh_fits_the_limits(hunt: Hunt, event: Event)
    requires
        billed(hunt.after(event).1) > 0,
    ensures
        ({
            let next = hunt.after(event).0;
            &&& hunt.limits.max_spend matches Some(max) ==> next.spent == hunt.spent + next.cost()
                && next.spent <= max@
            &&& hunt.limits.max_refreshes matches Some(max) ==> next.refreshes == hunt.refreshes + 1
                && next.refreshes <= max
        }),
{
    let (next, done) = hunt.after(event);
    billed_counts(done);
    match event {
        Event::Snapshot { snapshot, now_ms } => {
            let told = hunt.with_facts(snapshot.refresh);
            let slots = snapshot.slots@;
            if !told.mutes(slots) {
                let listed = told.listed(slots);
                the_hunt_resumes_or_halts(listed, now_ms);
                resuming_bills_once(listed, now_ms);
            }
        },
        Event::Purchase { item, gold, now_ms } => {
            let told = hunt.with_gold(gold).with_purchase(item);
            if item is Some {
                let cleared = Hunt {
                    checklist: checked_off(told.checklist, item->0),
                    status: Status::Watching,
                    ..told
                };
                the_hunt_resumes_or_halts(cleared, now_ms);
                resuming_bills_once(cleared, now_ms);
            }
        },
        Event::Tick { now_ms } => {
            the_hunt_resumes_or_halts(hunt, now_ms);
            resuming_bills_once(hunt, now_ms);
        },
        _ => {},
    }
}

/// The state after all of `events`.
pub open spec fn after_all(hunt: Hunt, events: Seq<Event>) -> Hunt
    decreases events.len(),
{
    if events.len() == 0 {
        hunt
    } else {
        after_all(hunt, events.drop_last()).after(events.last()).0
    }
}

/// Whether both counters are within the limits that are set.
pub open spec fn within_limits(hunt: Hunt) -> bool {
    &&& hunt.limits.max_spend matches Some(max) ==> hunt.spent <= max@
    &&& hunt.limits.max_refreshes matches Some(max) ==> hunt.refreshes <= max
}

/// As long as the limits are not changed, no run of events, however long, takes
/// what was spent past the budget, nor the refreshes past their count.
pub proof fn no_run_crosses_a_ceiling(hunt: Hunt, events: Seq<Event>)
    requires
        within_limits(hunt),
        forall|i: int| 0 <= i < events.len() ==> !((#[trigger] events[i]) is LimitsChanged),
    ensures
        after_all(hunt, events).limits == hunt.limits,
        within_limits(after_all(hunt, events)),
    decreases events.len(),
{
    if events.len() > 0 {
        let rest = events.drop_last();
        assert forall|i: int| 0 <= i < rest.len() implies !((#[trigger] rest[i])
            is LimitsChanged) by {
            assert(rest[i] == events[i]);
        }
        no_run_crosses_a_ceiling(hunt, rest);
        no_event_crosses_a_ceiling(after_all(hunt, rest), events.last());
    }
}

/// From its start on, whatever happens, a run stays within the budget and the
/// count that it was started with, as long as the limits are not changed.
pub proof fn a_run_stays_within_its_limits(hunt: Hunt, now: u64, events: Seq<Event>)
    requires
        !hunt.status.armed(),
        !hunt.filter.unrestricted(),
        forall|i: int| 0 <= i < events.len() ==> !((#[trigger] events[i]) is LimitsChanged),
    ensures
        after_all(hunt.on_start(now).0, events).limits == hunt.limits,
        within_limits(after_all(hunt.on_start(now).0, events)),
{
    no_run_crosses_a_ceiling(hunt.on_start(now).0, events);
}

/// A refresh goes out only where the known balance covers its cost.
pub proof fn no_refresh_goes_out_unpaid(hunt: Hunt, event: Event)
    requires
        billed(hunt.after(event).1) > 0,
        hunt.after(event).0.purse is Some,
    ensures
        match event {
            Event::Snapshot { snapshot, now_ms } => hunt.with_facts(snapshot.refresh),
            _ => hunt,
        }.purse matches Some(purse) && purse.balance == hunt.after(event).0.purse->0.balance
            + hunt.after(event).0.cost(),
{
    let done = hunt.after(event).1;
    if done.len() == 1 {
        assert(done =~= seq![done[0]]);
        billed_of_one(done[0]);
    } else if done.len() == 2 {
        assert(done =~= seq![done[0]] + seq![done[1]]);
        billed_of_two(done[0], done[1]);
        billed_of_one(done[0]);
        billed_of_one(done[1]);
    } else if done.len() == 0 {
        assert(done =~= Seq::<Deed>::empty());
    }
}

/// Refreshes are reactive: one goes out only on a snapshot or a purchase, and a
/// retry only on a tick.
pub proof fn refreshes_are_reactive(hunt: Hunt, event: Event, i: int)
    requires
        0 <= i < hunt.after(event).1.len(),
    ensures
        hunt.after(event).1[i] == Deed::Refresh ==> event is Snapshot || event is Purchase,
        hunt.after(event).1[i] is Buy ==> event is Snapshot,
        hunt.after(event).1[i] is Recover ==> event is Tick,
{
    match event {
        Event::Snapshot { snapshot, now_ms } => {
            let told = hunt.with_facts(snapshot.refresh);
            resuming_bills_once(told.listed(snapshot.slots@), now_ms);
        },
        Event::Purchase { item, gold, now_ms } => {
            let told = hunt.with_gold(gold).with_purchase(item);
            resuming_bills_once(
                Hunt {
                    checklist: checked_off(told.checklist, item->0),
                    status: Status::Watching,
                    ..told
                },
                now_ms,
            );
        },
        _ => {},
    }
}

/// A loop that is not armed acts on nothing: the one thing it ever says is that
/// it refuses a filter without criteria, and its counters stand still until a
/// start resets them.
pub proof fn an_unarmed_loop_acts_on_nothing(hunt: Hunt, event: Event)
    requires
        !hunt.status.armed(),
    ensures
        forall|i: int| 0 <= i < hunt.after(event).1.len() ==> hunt.after(event).1[i] is Refused,
        !(event is Start) ==> {
            &&& hunt.after(event).0.status == hunt.status
            &&& hunt.after(event).0.refreshes == hunt.refreshes
            &&& hunt.after(event).0.spent == hunt.spent
            &&& hunt.after(event).0.matches_found == hunt.matches_found
        },
        event is Snapshot ==> hunt.after(event).0.last_snapshot == Some(event->snapshot),
{
}

/// A refusal changes nothing.
pub proof fn a_refusal_changes_nothing(hunt: Hunt, event: Event, i: int)
    requires
        0 <= i < hunt.after(event).1.len(),
        hunt.after(event).1[i] is Refused,
    ensures
        hunt.after(event).0 == hunt,
{
    match event {
        Event::Snapshot { snapshot, now_ms } => {
            let told = hunt.with_facts(snapshot.refresh);
            resuming_bills_once(told.listed(snapshot.slots@), now_ms);
            assert(!(hunt.on_snapshot(snapshot, now_ms).1[i] is Refused));
        },
        Event::Purchase { item, gold, now_ms } => {
            let told = hunt.with_gold(gold).with_purchase(item);
            resuming_bills_once(
                Hunt {
                    checklist: checked_off(told.checklist, item->0),
                    status: Status::Watching,
                    ..told
                },
                now_ms,
            );
            assert(!(hunt.on_purchase(item, gold, now_ms).1[i] is Refused));
        },
        Event::Tick { now_ms } => {
            assert(!(hunt.on_tick(now_ms).1[i] is Refused));
        },
        _ => {},
    }
}

/// A stop is announced exactly when it happens, with the reason it keeps: once
/// stopped, only a start changes the status.
pub proof fn a_stop_is_never_relabelled(hunt: Hunt, event: Event)
    ensures
        hunt.status is Stopped && !(event is Start) ==> hunt.after(event).0.status == hunt.status,
        hunt.after(event).0.status matches Status::Stopped(reason) ==> hunt.status
            == Status::Stopped(reason) || hunt.after(event).1.last() == Deed::Halt(reason),
        hunt.after(event).0.status is Stopped && !(hunt.status is Stopped)
            ==> hunt.after(event).0.checklist.len() == 0 && hunt.after(event).0.awaited is None,
{
    match event {
        Event::Snapshot { snapshot, now_ms } => {
            let told = hunt.with_facts(snapshot.refresh);
            resuming_bills_once(told.listed(snapshot.slots@), now_ms);
        },
        Event::Purchase { item, gold, now_ms } => {
            let told = hunt.with_gold(gold).with_purchase(item);
            resuming_bills_once(
                Hunt {
                    checklist: checked_off(told.checklist, item->0),
                    status: Status::Watching,
                    ..told
                },
                now_ms,
            );
        },
        _ => {},
    }
}

/// A start on an unarmed loop with a target opens a new run: counters, haul,
/// balances and deadlines are forgotten, while the stored shop and what was
/// bought of its roll are kept. Mid-session it changes nothing.
pub proof fn a_start_opens_a_new_run(hunt: Hunt, now: u64)
    ensures
        hunt.status.armed() ==> hunt.after(Event::Start { now_ms: now }) == (hunt, Seq::<Deed>::empty()),
        !hunt.status.armed() && !hunt.filter.unrestricted() ==> {
            let next = hunt.after(Event::Start { now_ms: now }).0;
            &&& next.status == Status::Watching
            &&& next.started_at == Some(now)
            &&& next.refreshes == 0 && next.spent == 0 && next.matches_found == 0
            &&& next.haul.named.len() == 0 && next.haul.untitled == 0
            &&& next.purse is None && next.gold is None && next.awaited is None
            &&& next.acted is None && next.checklist.len() == 0
            &&& next.last_snapshot == hunt.last_snapshot
            &&& next.bought == hunt.bought && next.bought_roll == hunt.bought_roll
        },
{
}

/// A shop whose roll was already acted on bills nothing and buys nothing.
pub proof fn a_duplicate_is_muted(hunt: Hunt, snapshot: ShopSnapshot, now: u64)
    requires
        known_same(roll_of(snapshot.slots@), hunt.acted),
    ensures
        hunt.on_snapshot(snapshot, now).1.len() == 0,
        hunt.on_snapshot(snapshot, now).0 == (Hunt {
            last_snapshot: Some(snapshot),
            ..hunt.with_facts(snapshot.refresh)
        }),
{
}

/// The same roll delivered twice is acted on once, whatever the purchase limits
/// of the second delivery say.
pub proof fn a_roll_is_acted_on_once(
    hunt: Hunt,
    first: ShopSnapshot,
    then_ms: u64,
    second: ShopSnapshot,
    now: u64,
)
    requires
        hunt.status.armed(),
        first.slots@.len() > 0,
        all_identified(first.slots@),
        forall|i: int, j: int|
            #![trigger first.slots@[i].substats@[j]]
            0 <= i < first.slots@.len() && 0 <= j < first.slots@[i].substats@.len() ==> !(
            first.slots@[i].substats@[j].value matches Some(value) && stat_value::is_nan(value@)),
        roll_of(second.slots@) == roll_of(first.slots@),
    ensures
        hunt.on_snapshot(first, then_ms).0.on_snapshot(second, now).1.len() == 0,
        hunt.on_snapshot(first, then_ms).0.on_snapshot(second, now).0.refreshes
            == hunt.on_snapshot(first, then_ms).0.refreshes,
        hunt.on_snapshot(first, then_ms).0.on_snapshot(second, now).0.spent == hunt.on_snapshot(
            first,
            then_ms,
        ).0.spent,
        hunt.on_snapshot(first, then_ms).0.on_snapshot(second, now).0.checklist == hunt.on_snapshot(
            first,
            then_ms,
        ).0.checklist,
{
    a_roll_is_itself(first.slots@);
    let next = hunt.on_snapshot(first, then_ms).0;
    assert(known_same(roll_of(first.slots@), next.acted));
}

/// A match in reach is never halted over and never refreshed over: the loop
/// pauses for it, whatever limit it reaches.
pub proof fn a_match_in_reach_always_pauses(hunt: Hunt, snapshot: ShopSnapshot, now: u64)
    requires
        !hunt.with_facts(snapshot.refresh).mutes(snapshot.slots@),
        hunt.taken_up(snapshot.slots@).planned(snapshot.slots@).buyable,
    ensures
        hunt.on_snapshot(snapshot, now).0.status == Status::Paused,
        hunt.on_snapshot(snapshot, now).1 == seq![
            Deed::Buy { targets: hunt.taken_up(snapshot.slots@).planned(snapshot.slots@).targets },
        ],
        hunt.on_snapshot(snapshot, now).0.refreshes == hunt.refreshes,
{
    a_buyable_plan_has_targets(
        hunt.filter,
        hunt.gold,
        hunt.taken_up(snapshot.slots@).bought,
        snapshot.slots@,
    );
}

proof fn a_buyable_plan_has_targets(
    filter: Filter,
    gold: Option<u32>,
    bought: Seq<CatalogId>,
    slots: Seq<ShopItem>,
)
    requires
        plan(filter, gold, bought, slots).buyable,
    ensures
        plan(filter, gold, bought, slots).targets.len() > 0,
    decreases slots.len(),
{
    if slots.len() > 0 && !filter.accepts(slots.last()) {
        a_buyable_plan_has_targets(filter, gold, bought, slots.drop_last());
    }
}

/// A clickable target names a slot on offer that the filter accepts, that is
/// not sold out, and that was not bought before in this roll.
pub proof fn a_clickable_target_can_be_bought(
    filter: Filter,
    gold: Option<u32>,
    bought: Seq<CatalogId>,
    slots: Seq<ShopItem>,
    i: int,
)
    requires
        0 <= i < plan(filter, gold, bought, slots).targets.len(),
        plan(filter, gold, bought, slots).targets[i].id is Some,
    ensures
        exists|j: int|
            {
                &&& 0 <= j < slots.len()
                &&& (#[trigger] slots[j]).id == plan(filter, gold, bought, slots).targets[i].id
                &&& slots[j].shown_slot(j) == plan(filter, gold, bought, slots).targets[i].slot
                &&& filter.accepts(slots[j])
                &&& !slots[j].sold_out()
            },
        !bought.contains(plan(filter, gold, bought, slots).targets[i].id->0),
    decreases slots.len(),
{
    if slots.len() > 0 {
        let rest = slots.drop_last();
        let before = plan(filter, gold, bought, rest);
        if i < before.targets.len() {
            a_clickable_target_can_be_bought(filter, gold, bought, rest, i);
            let j = choose|j: int|
                {
                    &&& 0 <= j < rest.len()
                    &&& (#[trigger] rest[j]).id == before.targets[i].id
                    &&& rest[j].shown_slot(j) == before.targets[i].slot
                    &&& filter.accepts(rest[j])
                    &&& !rest[j].sold_out()
                };
            assert(slots[j] == rest[j]);
        } else {
            let j = slots.len() - 1;
            assert(slots[j] == slots.last());
        }
    }
}

/// What the planned buys of a roll cost, as far as their prices are known.
pub open spec fn planned_cost(
    filter: Filter,
    gold: Option<u32>,
    bought: Seq<CatalogId>,
    slots: Seq<ShopItem>,
) -> nat
    decreases slots.len(),
{
    if slots.len() == 0 {
        0
    } else {
        let item = slots.last();
        let before = planned_cost(filter, gold, bought, slots.drop_last());
        if filter.accepts(item) && item.price is Some && in_reach(
            item,
            plan(filter, gold, bought, slots.drop_last()).gold,
            bought,
        ) {
            before + item.price->0@ as nat
        } else {
            before
        }
    }
}

/// The planned buys never cost more than the gold that is known to be there.
pub proof fn planned_buys_fit_the_purse(
    filter: Filter,
    gold: u32,
    bought: Seq<CatalogId>,
    slots: Seq<ShopItem>,
)
    ensures
        plan(filter, Some(gold), bought, slots).gold matches Some(left) && left + planned_cost(
            filter,
            Some(gold),
            bought,
            slots,
        ) == gold,
    decreases slots.len(),
{
    if slots.len() > 0 {
        planned_buys_fit_the_purse(filter, gold, bought, slots.drop_last());
    }
}

/// An echo that is not on the checklist moves nothing: no deed, and the loop
/// waits on as before.
pub proof fn a_stray_echo_moves_nothing(
    hunt: Hunt,
    item: Option<CatalogId>,
    gold: Option<Gold>,
    now: u64,
)
    requires
        item is None || !hunt.checklist.contains(item->0),
    ensures
        hunt.on_purchase(item, gold, now).1.len() == 0,
        hunt.on_purchase(item, gold, now).0.status == hunt.status,
        hunt.on_purchase(item, gold, now).0.checklist == hunt.checklist,
        hunt.on_purchase(item, gold, now).0.awaited == hunt.awaited,
{
}

/// The buy that clears the last checklist entry resumes the hunt through the
/// limits: it refreshes, or it halts.
pub proof fn the_last_buy_resumes_the_hunt(
    hunt: Hunt,
    item: CatalogId,
    gold: Option<Gold>,
    now: u64,
)
    requires
        hunt.status == Status::Paused,
        hunt.checklist == seq![item],
    ensures
        hunt.on_purchase(Some(item), gold, now).1 == seq![Deed::Refresh]
            && hunt.on_purchase(Some(item), gold, now).0.status == Status::Watching
            || exists|reason: StopReason|
            hunt.on_purchase(Some(item), gold, now).1 == seq![Deed::Halt(reason)]
                && hunt.on_purchase(Some(item), gold, now).0.status == Status::Stopped(reason),
        hunt.on_purchase(Some(item), gold, now).0.checklist.len() == 0,
{
    let told = hunt.with_gold(gold).with_purchase(Some(item));
    assert(told.checklist[0] == item);
    assert(told.checklist.contains(item));
    let resumed = Hunt {
        checklist: checked_off(told.checklist, item),
        status: Status::Watching,
        ..told
    };
    match resumed.stop_reason(now) {
        Some(reason) => {
            assert(hunt.on_purchase(Some(item), gold, now).1 == seq![Deed::Halt(reason)]);
        },
        None => {},
    }
}

/// An id is spent for the rest of its roll, and a repeated echo is tallied
/// once: the second changes neither the haul nor what was bought.
pub proof fn a_repeated_echo_is_tallied_once(
    hunt: Hunt,
    item: CatalogId,
    gold: Option<Gold>,
    then_ms: u64,
    again: Option<Gold>,
    now: u64,
)
    ensures
        hunt.on_purchase(Some(item), gold, then_ms).0.bought.contains(item),
        hunt.on_purchase(Some(item), gold, then_ms).0.on_purchase(Some(item), again, now).0.haul
            == hunt.on_purchase(Some(item), gold, then_ms).0.haul,
        hunt.on_purchase(Some(item), gold, then_ms).0.on_purchase(Some(item), again, now).0.bought
            == hunt.on_purchase(Some(item), gold, then_ms).0.bought,
{
    let told = hunt.with_gold(gold).with_purchase(Some(item));
    if !hunt.bought.contains(item) {
        assert(told.bought.last() == item);
        assert(told.bought.contains(item));
    }
}

/// No retry goes out while the link is down, nor once recovery is switched off;
/// switching it on again brings no deadline back.
pub proof fn no_retry_without_a_running_deadline(hunt: Hunt, now: u64)
    ensures
        !hunt.link_up || hunt.awaited is None ==> forall|i: int|
            0 <= i < hunt.on_tick(now).1.len() ==> hunt.on_tick(now).1[i] is Halt,
        hunt.with_recovery(false).awaited is None,
        hunt.with_recovery(false).with_recovery(true).awaited is None,
{
}

/// A link that comes back grants the pending proof a full window on the rung it
/// stood on.
pub proof fn a_link_up_regrants_the_window(hunt: Hunt, now: u64)
    requires
        hunt.awaited is Some,
    ensures
        hunt.on_link_up(now).awaited matches Some(awaited) && awaited.deadline == now + EXPECT_MS
            && awaited.attempt == hunt.awaited->0.attempt && awaited.proof
            == hunt.awaited->0.proof,
{
}

/// A missed snapshot is nudged, then paid for again, then given up on: three
/// ticks past their deadlines re-click the confirm, re-issue the refresh unless
/// a limit halts instead, and halt.
pub proof fn the_snapshot_ladder_has_three_rungs(hunt: Hunt, t1: u64, t2: u64, t3: u64)
    requires
        hunt.status == Status::Watching,
        hunt.link_up,
        hunt.awaited matches Some(awaited) && awaited.proof == Proof::Snapshot && awaited.attempt
            == 0 && awaited.deadline <= t1,
        t1 + EXPECT_MS <= t2,
        t2 + EXPECT_MS <= t3,
        !hunt.timed_out(t1) && !hunt.timed_out(t2) && !hunt.timed_out(t3),
    ensures
        ({
            let (first, done1) = hunt.on_tick(t1);
            let (second, done2) = first.on_tick(t2);
            let (third, done3) = second.on_tick(t3);
            &&& done1 == seq![Deed::Recover(Retry::ConfirmRefresh)]
            &&& first.refreshes == hunt.refreshes
            &&& match hunt.stop_reason(t2) {
                Some(reason) => done2 == seq![Deed::Halt(reason)] && second.status
                    == Status::Stopped(reason) && second.refreshes == hunt.refreshes,
                None => done2 == seq![Deed::Recover(Retry::Refresh)] && second.refreshes
                    == capped_sum(hunt.refreshes as nat, 1) && done3 == seq![
                    Deed::Halt(StopReason::Unresponsive),
                ] && third.status == Status::Stopped(StopReason::Unresponsive),
            }
        }),
{
}

/// A missed purchase is nudged, then re-issued for what is still outstanding,
/// then given up on.
pub proof fn the_purchase_ladder_has_three_rungs(hunt: Hunt, t1: u64, t2: u64, t3: u64)
    requires
        hunt.status == Status::Paused,
        hunt.link_up,
        hunt.awaited matches Some(awaited) && awaited.proof == Proof::Purchase && awaited.attempt
            == 0 && awaited.deadline <= t1,
        t1 + EXPECT_MS <= t2,
        t2 + EXPECT_MS <= t3,
        !hunt.timed_out(t1) && !hunt.timed_out(t2) && !hunt.timed_out(t3),
    ensures
        ({
            let (first, done1) = hunt.on_tick(t1);
            let (second, done2) = first.on_tick(t2);
            let (third, done3) = second.on_tick(t3);
            &&& done1 == seq![Deed::Recover(Retry::ConfirmBuy)]
            &&& done2 == seq![
                Deed::Recover(
                    Retry::Buy {
                        targets: match hunt.last_snapshot {
                            Some(snapshot) => outstanding(
                                snapshot.slots@,
                                hunt.checklist,
                            ),
                            None => Seq::empty(),
                        },
                    },
                ),
            ]
            &&& done3 == seq![Deed::Halt(StopReason::Unresponsive)]
            &&& third.status == Status::Stopped(StopReason::Unresponsive)
            &&& third.refreshes == hunt.refreshes && third.spent == hunt.spent
        }),
{
}

} // verus!

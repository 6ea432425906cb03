//! What the controller decides: its state as plain values, and the state and
//! the actions that each event leads to.

use crate::domain::control::dedup::{roll_of, same_roll, text_of, SlotIdentity};
use crate::domain::control::haul::{capped_sum, Take};
use crate::domain::control::{
    Action, BuyTarget, Event, Limits, Recovery, RefusalReason, Status, StopReason,
};
use crate::domain::filter::Filter;
use crate::domain::shop::{position_of, CatalogId, Gold, RefreshMeta, ShopItem, ShopSnapshot};
use vstd::prelude::*;

verus! {

/// A refresh costs this many crystals, unless the wire names another cost.
pub const REFRESH_COST: u32 = 3;

/// How long the proof of an issued refresh or buy may take.
pub const EXPECT_MS: u64 = 10_000;

/// The wire proof owed after an issued action: a snapshot for a refresh,
/// purchase echoes for buys.
#[derive(Debug, Clone, Copy, PartialEq, Eq, Structural)]
pub enum Proof {
    Snapshot,
    Purchase,
}

/// What the watchdog waits on, and the rung of the recovery ladder that was
/// already climbed.
pub struct Awaited {
    pub proof: Proof,
    pub deadline: int,
    pub attempt: int,
}

/// A retry, with its targets as a sequence.
#[verifier::ext_equal]
pub enum Retry {
    ConfirmRefresh,
    ConfirmBuy,
    Refresh,
    Buy { targets: Seq<BuyTarget> },
}

/// An action, with its targets as a sequence.
#[verifier::ext_equal]
pub enum Deed {
    Refresh,
    Buy { targets: Seq<BuyTarget> },
    Recover(Retry),
    Halt(StopReason),
    Refused(RefusalReason),
}

impl View for Recovery {
    type V = Retry;

    open spec fn view(&self) -> Retry {
        match self {
            Recovery::ConfirmRefresh => Retry::ConfirmRefresh,
            Recovery::ConfirmBuy => Retry::ConfirmBuy,
            Recovery::Refresh => Retry::Refresh,
            Recovery::Buy { targets } => Retry::Buy { targets: targets@ },
        }
    }
}

impl View for Action {
    type V = Deed;

    open spec fn view(&self) -> Deed {
        match self {
            Action::Refresh => Deed::Refresh,
            Action::Buy { targets } => Deed::Buy { targets: targets@ },
            Action::Recover(recovery) => Deed::Recover(recovery@),
            Action::Halt(reason) => Deed::Halt(*reason),
            Action::Refused(reason) => Deed::Refused(*reason),
        }
    }
}

/// The deeds of a list of actions.
pub open spec fn deeds(actions: Seq<Action>) -> Seq<Deed> {
    actions.map_values(|action: Action| action@)
}

/// A refresh session's balance and cost.
pub struct Purse {
    pub balance: u32,
    pub cost: u32,
}

/// The amounts of a refresh session.
pub open spec fn purse_of(meta: Option<RefreshMeta>) -> Option<Purse> {
    match meta {
        Some(meta) => Some(Purse { balance: meta.crystal_balance@, cost: meta.cost@ }),
        None => None,
    }
}

/// The amount of a gold balance.
pub open spec fn amount_of(gold: Option<Gold>) -> Option<u32> {
    match gold {
        Some(gold) => Some(gold@),
        None => None,
    }
}

/// The controller's state.
#[verifier::ext_equal]
pub struct Hunt {
    pub filter: Filter,
    pub limits: Limits,
    pub status: Status,
    pub started_at: Option<u64>,
    pub refreshes: u32,
    pub spent: u32,
    pub matches_found: u32,
    pub haul: Take,
    /// Last balance and cost seen this session, debited per refresh.
    pub purse: Option<Purse>,
    /// Last gold balance that a purchase echoed.
    pub gold: Option<u32>,
    pub last_snapshot: Option<ShopSnapshot>,
    /// Ids matched and not yet bought, of the last evaluated snapshot.
    pub checklist: Seq<CatalogId>,
    /// The last roll evaluated while armed.
    pub acted: Option<Seq<SlotIdentity>>,
    /// Ids bought in the current roll.
    pub bought: Seq<CatalogId>,
    /// The roll that `bought` is scoped to.
    pub bought_roll: Option<Seq<SlotIdentity>>,
    pub recovery: bool,
    pub awaited: Option<Awaited>,
    pub link_up: bool,
}

/// Whether two rolls are known and the same.
pub open spec fn known_same(a: Option<Seq<SlotIdentity>>, b: Option<Seq<SlotIdentity>>) -> bool {
    a is Some && b is Some && same_roll(a->0, b->0)
}

/// Whether the gold at hand covers the item; an unknown balance or price
/// covers.
pub open spec fn affordable(gold: Option<u32>, item: ShopItem) -> bool {
    gold is Some && item.price is Some ==> item.price->0@ <= gold->0
}

/// Whether a buy can land on the item.
pub open spec fn in_reach(item: ShopItem, gold: Option<u32>, bought: Seq<CatalogId>) -> bool {
    &&& !item.sold_out()
    &&& affordable(gold, item)
    &&& !(item.id is Some && bought.contains(item.id->0))
}

/// What is planned for a roll: the matched slots, the gold left after the
/// planned buys, and whether anything is in reach.
#[verifier::ext_equal]
pub struct Plan {
    pub targets: Seq<BuyTarget>,
    pub gold: Option<u32>,
    pub buyable: bool,
}

/// The target of a matched item.
pub open spec fn target_of(item: ShopItem, index: int, reached: bool) -> BuyTarget {
    BuyTarget {
        slot: item.shown_slot(index) as u8,
        id: if reached {
            item.id
        } else {
            None
        },
    }
}

/// The plan for `slots`, in slot order: each planned buy is debited before the
/// next slot is weighed.
pub open spec fn plan(
    filter: Filter,
    gold: Option<u32>,
    bought: Seq<CatalogId>,
    slots: Seq<ShopItem>,
) -> Plan
    decreases slots.len(),
{
    if slots.len() == 0 {
        Plan { targets: Seq::empty(), gold, buyable: false }
    } else {
        let before = plan(filter, gold, bought, slots.drop_last());
        let item = slots.last();
        if !filter.accepts(item) {
            before
        } else {
            let reached = in_reach(item, before.gold, bought);
            Plan {
                targets: before.targets.push(target_of(item, slots.len() - 1, reached)),
                gold: if reached && before.gold is Some && item.price is Some {
                    Some((before.gold->0 - item.price->0@) as u32)
                } else {
                    before.gold
                },
                buyable: before.buyable || reached,
            }
        }
    }
}

/// The ids of the targets that have one, in order.
pub open spec fn ids_of(targets: Seq<BuyTarget>) -> Seq<CatalogId>
    decreases targets.len(),
{
    if targets.len() == 0 {
        Seq::empty()
    } else {
        match targets.last().id {
            Some(id) => ids_of(targets.drop_last()).push(id),
            None => ids_of(targets.drop_last()),
        }
    }
}

/// The slots whose id is on the checklist, as buy targets, in slot order.
pub open spec fn outstanding(slots: Seq<ShopItem>, checklist: Seq<CatalogId>) -> Seq<BuyTarget>
    decreases slots.len(),
{
    if slots.len() == 0 {
        Seq::empty()
    } else {
        let before = outstanding(slots.drop_last(), checklist);
        let item = slots.last();
        if item.id is Some && checklist.contains(item.id->0) {
            before.push(target_of(item, slots.len() - 1, true))
        } else {
            before
        }
    }
}

/// The first place of `id` on a checklist that holds it.
pub open spec fn first_place(checklist: Seq<CatalogId>, id: CatalogId) -> int {
    choose|i: int|
        0 <= i < checklist.len() && checklist[i] == id && forall|j: int|
            0 <= j < i ==> checklist[j] != id
}

/// The checklist with its first `id` taken out, and its last entry moved into
/// that place.
pub open spec fn checked_off(checklist: Seq<CatalogId>, id: CatalogId) -> Seq<CatalogId> {
    checklist.update(first_place(checklist, id), checklist.last()).drop_last()
}

impl Hunt {
    /// The controller as it is made.
    pub open spec fn fresh(filter: Filter, limits: Limits) -> Self {
        Hunt {
            filter,
            limits,
            status: Status::Idle,
            started_at: None,
            refreshes: 0,
            spent: 0,
            matches_found: 0,
            haul: Take::nothing(),
            purse: None,
            gold: None,
            last_snapshot: None,
            checklist: Seq::empty(),
            acted: None,
            bought: Seq::empty(),
            bought_roll: None,
            recovery: false,
            awaited: None,
            link_up: true,
        }
    }

    /// What one refresh costs. A wire-sent zero is not believed: it would
    /// switch both money gates off.
    pub open spec fn cost(self) -> u32 {
        match self.purse {
            Some(purse) => if purse.cost > 0 {
                purse.cost
            } else {
                REFRESH_COST
            },
            None => REFRESH_COST,
        }
    }

    /// The duration limit has run out.
    pub open spec fn timed_out(self, now: u64) -> bool {
        &&& self.limits.max_duration_ms is Some
        &&& self.started_at is Some
        &&& now - self.started_at->0 >= self.limits.max_duration_ms->0
            || self.limits.max_duration_ms->0 == 0
    }

    /// The next refresh cannot be paid for.
    pub open spec fn broke(self) -> bool {
        self.purse is Some && self.purse->0.balance < self.cost()
    }

    /// The next refresh would cross the crystal budget.
    pub open spec fn over_budget(self) -> bool {
        self.limits.max_spend is Some && self.spent + self.cost() > self.limits.max_spend->0@
    }

    /// Why the next refresh must not be issued; the order is the priority
    /// order.
    pub open spec fn stop_reason(self, now: u64) -> Option<StopReason> {
        if self.broke() {
            Some(StopReason::OutOfFunds)
        } else if self.limits.max_refreshes is Some && self.refreshes
            >= self.limits.max_refreshes->0 {
            Some(StopReason::MaxRefreshes)
        } else if self.over_budget() {
            Some(StopReason::MaxSpend)
        } else if self.limits.max_matches is Some && self.matches_found
            >= self.limits.max_matches->0 {
            Some(StopReason::MaxMatches)
        } else if self.timed_out(now) {
            Some(StopReason::Timeout)
        } else {
            None
        }
    }

    /// Stopped for `reason`, with nothing left to wait for.
    pub open spec fn halted(self, reason: StopReason) -> Self {
        Hunt {
            status: Status::Stopped(reason),
            checklist: Seq::empty(),
            awaited: None,
            ..self
        }
    }

    /// With one refresh issued: counted, debited and, with recovery on,
    /// expected to produce a snapshot in time.
    pub open spec fn refreshed(self, now: u64) -> Self {
        let cost = self.cost();
        Hunt {
            refreshes: capped_sum(self.refreshes as nat, 1) as u32,
            spent: capped_sum(self.spent as nat, cost as nat) as u32,
            purse: match self.purse {
                Some(purse) => Some(
                    Purse {
                        balance: if purse.balance >= cost {
                            (purse.balance - cost) as u32
                        } else {
                            0
                        },
                        cost: purse.cost,
                    },
                ),
                None => None,
            },
            awaited: if self.recovery {
                Some(fresh_wait(Proof::Snapshot, now))
            } else {
                self.awaited
            },
            ..self
        }
    }

    /// Halted at the first limit reached, refreshed otherwise.
    pub open spec fn resumed(self, now: u64) -> (Self, Seq<Deed>) {
        match self.stop_reason(now) {
            Some(reason) => (self.halted(reason), seq![Deed::Halt(reason)]),
            None => (self.refreshed(now), seq![Deed::Refresh]),
        }
    }

    /// After a start. Ignored while armed, and refused without a criterion to
    /// hunt with.
    pub open spec fn on_start(self, now: u64) -> (Self, Seq<Deed>) {
        if self.status.armed() {
            (self, Seq::empty())
        } else if self.filter.unrestricted() {
            (self, seq![Deed::Refused(RefusalReason::UnrestrictedFilter)])
        } else {
            (
                Hunt {
                    refreshes: 0,
                    spent: 0,
                    matches_found: 0,
                    haul: Take::nothing(),
                    started_at: Some(now),
                    purse: None,
                    gold: None,
                    checklist: Seq::empty(),
                    acted: None,
                    awaited: None,
                    status: Status::Watching,
                    ..self
                },
                Seq::empty(),
            )
        }
    }

    /// After a stop of any kind: only an armed loop stops.
    pub open spec fn on_halt_request(self, reason: StopReason) -> (Self, Seq<Deed>) {
        if self.status.armed() {
            (self.halted(reason), seq![Deed::Halt(reason)])
        } else {
            (self, Seq::empty())
        }
    }

    /// A snapshot the loop must not act on: it is not armed, the shop is empty,
    /// the roll was acted on before, or it cannot be told from the roll whose
    /// purchase is pending.
    pub open spec fn mutes(self, slots: Seq<ShopItem>) -> bool {
        ||| !self.status.armed()
        ||| slots.len() == 0
        ||| known_same(roll_of(slots), self.acted)
        ||| roll_of(slots) is None && self.status == Status::Paused
    }

    /// With this roll taken up: it is the one acted on, what was bought in
    /// another roll is forgotten, and the awaited proof has arrived.
    pub open spec fn taken_up(self, slots: Seq<ShopItem>) -> Self {
        let roll = roll_of(slots);
        if roll is Some {
            Hunt {
                acted: roll,
                bought: if known_same(roll, self.bought_roll) {
                    self.bought
                } else {
                    Seq::empty()
                },
                bought_roll: if known_same(roll, self.bought_roll) {
                    self.bought_roll
                } else {
                    roll
                },
                awaited: None,
                ..self
            }
        } else {
            Hunt { awaited: None, ..self }
        }
    }

    /// The plan for this roll, as the loop stands.
    pub open spec fn planned(self, slots: Seq<ShopItem>) -> Plan {
        plan(self.filter, self.gold, self.bought, slots)
    }

    /// With this roll taken up and its matches listed, watching on.
    pub open spec fn listed(self, slots: Seq<ShopItem>) -> Self {
        let taken = self.taken_up(slots);
        let planned = taken.planned(slots);
        Hunt {
            checklist: ids_of(planned.targets),
            matches_found: capped_sum(taken.matches_found as nat, planned.targets.len()) as u32,
            status: Status::Watching,
            ..taken
        }
    }

    /// The decision on a snapshot, before it is stored.
    pub open spec fn evaluated(self, slots: Seq<ShopItem>, now: u64) -> (Self, Seq<Deed>) {
        if self.mutes(slots) {
            (self, Seq::empty())
        } else {
            let planned = self.taken_up(slots).planned(slots);
            let listed = self.listed(slots);
            if planned.targets.len() == 0 {
                listed.resumed(now)
            } else if !planned.buyable {
                let (next, after) = listed.resumed(now);
                (next, seq![Deed::Buy { targets: planned.targets }] + after)
            } else {
                (
                    Hunt {
                        status: Status::Paused,
                        awaited: if self.recovery && listed.checklist.len() > 0 {
                            Some(fresh_wait(Proof::Purchase, now))
                        } else {
                            None
                        },
                        ..listed
                    },
                    seq![Deed::Buy { targets: planned.targets }],
                )
            }
        }
    }

    /// With the refresh facts of a snapshot that carries them.
    pub open spec fn with_facts(self, refresh: Option<RefreshMeta>) -> Self {
        if refresh is Some {
            Hunt { purse: purse_of(refresh), ..self }
        } else {
            self
        }
    }

    /// After a snapshot: its refresh facts are believed, it is evaluated, and
    /// it is stored whatever was decided.
    pub open spec fn on_snapshot(self, snapshot: ShopSnapshot, now: u64) -> (Self, Seq<Deed>) {
        let (next, done) = self.with_facts(snapshot.refresh).evaluated(snapshot.slots@, now);
        (Hunt { last_snapshot: Some(snapshot), ..next }, done)
    }

    /// With a confirmed buy of `item` recorded: it is spent for the rest of the
    /// roll, and it counts towards the haul unless the run is over or the item
    /// is not in the stored roll. A repeated echo changes nothing.
    pub open spec fn with_purchase(self, item: Option<CatalogId>) -> Self {
        if item is Some && !self.bought.contains(item->0) {
            let place = match self.last_snapshot {
                Some(snapshot) => position_of(snapshot.slots@, item->0),
                None => None,
            };
            Hunt {
                bought: self.bought.push(item->0),
                haul: if !(self.status is Stopped) && place is Some {
                    self.haul.plus(text_of(self.last_snapshot->0.slots@[place->0].name))
                } else {
                    self.haul
                },
                ..self
            }
        } else {
            self
        }
    }

    /// With the gold balance of an echo that carries one.
    pub open spec fn with_gold(self, gold: Option<Gold>) -> Self {
        if gold is Some {
            Hunt { gold: amount_of(gold), ..self }
        } else {
            self
        }
    }

    /// After a confirmed buy: the echo is recorded and, while paused, the item
    /// is checked off; clearing the last entry resumes the hunt.
    pub open spec fn on_purchase(self, item: Option<CatalogId>, gold: Option<Gold>, now: u64) -> (
        Self,
        Seq<Deed>,
    ) {
        let told = self.with_gold(gold).with_purchase(item);
        if told.status != Status::Paused || item is None || !told.checklist.contains(item->0) {
            (told, Seq::empty())
        } else {
            let left = checked_off(told.checklist, item->0);
            if left.len() > 0 {
                (
                    Hunt {
                        checklist: left,
                        awaited: if told.recovery {
                            Some(fresh_wait(Proof::Purchase, now))
                        } else {
                            told.awaited
                        },
                        ..told
                    },
                    Seq::empty(),
                )
            } else {
                (Hunt { checklist: left, status: Status::Watching, ..told }).resumed(now)
            }
        }
    }

    /// After the uplink came back: a pending proof gets a fresh full deadline
    /// on the rung it stands on.
    pub open spec fn on_link_up(self, now: u64) -> Self {
        Hunt {
            link_up: true,
            awaited: match self.awaited {
                Some(awaited) => Some(regranted(awaited, now)),
                None => None,
            },
            ..self
        }
    }

    /// The recovery ladder: a missed deadline first re-clicks the confirm, then
    /// re-issues, then halts. It does not run while the link is down.
    pub open spec fn watchdog(self, now: u64) -> (Self, Seq<Deed>) {
        if !self.link_up || self.awaited is None || now < self.awaited->0.deadline {
            (self, Seq::empty())
        } else {
            let awaited = self.awaited->0;
            let climbed = Hunt { awaited: Some(escalated(awaited, now)), ..self };
            if awaited.attempt == 0 && awaited.proof == Proof::Snapshot {
                (climbed, seq![Deed::Recover(Retry::ConfirmRefresh)])
            } else if awaited.attempt == 0 {
                (climbed, seq![Deed::Recover(Retry::ConfirmBuy)])
            } else if awaited.attempt == 1 && awaited.proof == Proof::Snapshot {
                match self.stop_reason(now) {
                    Some(reason) => (self.halted(reason), seq![Deed::Halt(reason)]),
                    None => (
                        Hunt { awaited: Some(escalated(awaited, now)), ..self.refreshed(now) },
                        seq![Deed::Recover(Retry::Refresh)],
                    ),
                }
            } else if awaited.attempt == 1 {
                let targets = match self.last_snapshot {
                    Some(snapshot) => outstanding(snapshot.slots@, self.checklist),
                    None => Seq::empty(),
                };
                (climbed, seq![Deed::Recover(Retry::Buy { targets })])
            } else {
                (
                    self.halted(StopReason::Unresponsive),
                    seq![Deed::Halt(StopReason::Unresponsive)],
                )
            }
        }
    }

    /// After a tick. Quietly watching, every stop reason applies; with a proof
    /// pending or a purchase awaited, only time may halt, and then the watchdog
    /// runs.
    pub open spec fn on_tick(self, now: u64) -> (Self, Seq<Deed>) {
        if !self.status.armed() {
            (self, Seq::empty())
        } else if self.status == Status::Watching && self.awaited is None {
            match self.stop_reason(now) {
                Some(reason) => (self.halted(reason), seq![Deed::Halt(reason)]),
                None => (self, Seq::empty()),
            }
        } else if self.timed_out(now) {
            (self.halted(StopReason::Timeout), seq![Deed::Halt(StopReason::Timeout)])
        } else {
            self.watchdog(now)
        }
    }

    /// The state and the actions that an event leads to.
    pub open spec fn after(self, event: Event) -> (Self, Seq<Deed>) {
        match event {
            Event::Start { now_ms } => self.on_start(now_ms),
            Event::Stop => self.on_halt_request(StopReason::PlayerStopped),
            Event::Shutdown => self.on_halt_request(StopReason::SessionEnded),
            Event::ActuatorFailed => self.on_halt_request(StopReason::ActuatorFailed),
            Event::Snapshot { snapshot, now_ms } => self.on_snapshot(snapshot, now_ms),
            Event::Purchase { item, gold, now_ms } => self.on_purchase(item, gold, now_ms),
            Event::FilterChanged(filter) => if filter.unrestricted() {
                (self, seq![Deed::Refused(RefusalReason::UnrestrictedFilter)])
            } else {
                (Hunt { filter, ..self }, Seq::empty())
            },
            Event::LimitsChanged(limits) => (Hunt { limits, ..self }, Seq::empty()),
            Event::LinkDown => (Hunt { link_up: false, ..self }, Seq::empty()),
            Event::LinkUp { now_ms } => (self.on_link_up(now_ms), Seq::empty()),
            Event::Tick { now_ms } => self.on_tick(now_ms),
        }
    }

    /// With the recovery watchdog armed or disarmed; disarming drops the
    /// deadline it was waiting on.
    pub open spec fn with_recovery(self, enabled: bool) -> Self {
        Hunt {
            recovery: enabled,
            awaited: if enabled {
                self.awaited
            } else {
                None
            },
            ..self
        }
    }

    /// Every deadline can be told on the clock.
    pub open spec fn on_the_clock(self) -> bool {
        self.awaited matches Some(awaited) ==> awaited.deadline <= u64::MAX
    }
}

/// A rung-zero expectation with a full deadline.
pub open spec fn fresh_wait(proof: Proof, now: u64) -> Awaited {
    Awaited { proof, deadline: now + EXPECT_MS, attempt: 0 }
}

/// The same proof and rung, with a fresh full deadline.
pub open spec fn regranted(awaited: Awaited, now: u64) -> Awaited {
    Awaited { deadline: now + EXPECT_MS, ..awaited }
}

/// One rung higher, with a fresh full deadline.
pub open spec fn escalated(awaited: Awaited, now: u64) -> Awaited {
    Awaited {
        deadline: now + EXPECT_MS,
        attempt: if awaited.attempt < u8::MAX {
            awaited.attempt + 1
        } else {
            awaited.attempt
        },
        ..awaited
    }
}

} // verus!

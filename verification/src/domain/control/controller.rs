//! The controller itself.

use crate::domain::control::dedup::{copy_text, fingerprint, Fingerprint};
use crate::domain::control::haul::Haul;
use crate::domain::control::model::{
    affordable, amount_of, checked_off, deeds, first_place, ids_of, in_reach, known_same,
    outstanding, purse_of, Awaited, Deed, Hunt, Proof, REFRESH_COST,
};
use crate::domain::control::watchdog::{a_deadline_is_on_the_clock, Expectation};
use crate::domain::control::{
    Action, BuyTarget, Event, Limits, Progress, Recovery, RefusalReason, Status, StopReason,
};
use crate::domain::filter::Filter;
use crate::domain::shop::{
    position_of_is_first, CatalogId, Crystals, Gold, RefreshMeta, ShopSnapshot,
};
use vstd::prelude::*;

verus! {

/// Refreshes are reactive: one is requested only for a snapshot without a match
/// in reach, for the purchase that clears the last checklist entry, or for a
/// retry of one that went unanswered. Duplicates and snapshots that arrive
/// unarmed never trigger one, though they are still stored for the view.
pub struct Controller {
    filter: Filter,
    limits: Limits,
    status: Status,
    started_at: Option<u64>,
    progress: Progress,
    haul: Haul,
    refresh_meta: Option<RefreshMeta>,
    gold_balance: Option<Gold>,
    last_snapshot: Option<ShopSnapshot>,
    checklist: Vec<CatalogId>,
    acted_fingerprint: Option<Fingerprint>,
    bought: Vec<CatalogId>,
    bought_fingerprint: Option<Fingerprint>,
    recovery: bool,
    expectation: Option<Expectation>,
    link_up: bool,
}

/// The identity that a fingerprint holds.
pub open spec fn roll_in(fingerprint: Option<Fingerprint>) -> Option<
    Seq<crate::domain::control::dedup::SlotIdentity>,
> {
    match fingerprint {
        Some(fingerprint) => Some(fingerprint@),
        None => None,
    }
}

/// What an expectation waits on.
pub open spec fn wait_in(expectation: Option<Expectation>) -> Option<Awaited> {
    match expectation {
        Some(expectation) => Some(expectation@),
        None => None,
    }
}

impl View for Controller {
    type V = Hunt;

    closed spec fn view(&self) -> Hunt {
        Hunt {
            filter: self.filter,
            limits: self.limits,
            status: self.status,
            started_at: self.started_at,
            refreshes: self.progress.refreshes,
            spent: self.progress.spent@,
            matches_found: self.progress.matches_found,
            haul: self.haul@,
            purse: purse_of(self.refresh_meta),
            gold: amount_of(self.gold_balance),
            last_snapshot: self.last_snapshot,
            checklist: self.checklist@,
            acted: roll_in(self.acted_fingerprint),
            bought: self.bought@,
            bought_roll: roll_in(self.bought_fingerprint),
            recovery: self.recovery,
            awaited: wait_in(self.expectation),
            link_up: self.link_up,
        }
    }
}

/// Whether a list of ids holds `id`.
fn holds(ids: &Vec<CatalogId>, id: CatalogId) -> (held: bool)
    ensures
        held == ids@.contains(id),
{
    for i in 0..ids.len()
        invariant
            forall|j: int| 0 <= j < i ==> ids@[j] != id,
    {
        if ids[i] == id {
            return true;
        }
    }
    false
}

/// Whether two fingerprints are known and the same.
fn same_known(a: &Option<Fingerprint>, b: &Option<Fingerprint>) -> (same: bool)
    ensures
        same == known_same(roll_in(*a), roll_in(*b)),
{
    match (a, b) {
        (Some(a), Some(b)) => a.same(b),
        _ => false,
    }
}

/// A list of one action.
fn only(action: Action) -> (actions: Vec<Action>)
    ensures
        deeds(actions@) == seq![action@],
{
    let mut actions: Vec<Action> = Vec::new();
    actions.push(action);
    assert(deeds(actions@) =~= seq![action@]);
    actions
}

/// No action.
fn nothing() -> (actions: Vec<Action>)
    ensures
        deeds(actions@) == Seq::<Deed>::empty(),
{
    let actions: Vec<Action> = Vec::new();
    assert(deeds(actions@) =~= Seq::<Deed>::empty());
    actions
}

impl Controller {
    /// A controller that hunts with `filter` within `limits`, not yet started.
    pub fn new(filter: Filter, limits: Limits) -> (controller: Self)
        ensures
            controller@ == Hunt::fresh(filter, limits),
    {
        let controller = Controller {
            filter,
            limits,
            status: Status::Idle,
            started_at: None,
            progress: Progress::default(),
            haul: Haul::default(),
            refresh_meta: None,
            gold_balance: None,
            last_snapshot: None,
            checklist: Vec::new(),
            acted_fingerprint: None,
            bought: Vec::new(),
            bought_fingerprint: None,
            recovery: false,
            expectation: None,
            link_up: true,
        };
        assert(controller@.checklist =~= Seq::empty());
        assert(controller@.bought =~= Seq::empty());
        controller
    }

    /// Arms or disarms the recovery watchdog: while armed, every issued refresh
    /// or buy gets a deadline. Disarming drops the pending one, and re-arming
    /// does not restore it.
    pub fn set_recovery(&mut self, enabled: bool)
        ensures
            final(self)@ == old(self)@.with_recovery(enabled),
    {
        self.recovery = enabled;
        if !enabled {
            self.expectation = None;
        }
    }

    /// Whether the recovery watchdog is armed right now.
    pub fn is_recovery_enabled(&self) -> (enabled: bool)
        ensures
            enabled == self@.recovery,
    {
        self.recovery
    }

    /// Where the loop is.
    pub fn status(&self) -> (status: Status)
        ensures
            status == self@.status,
    {
        self.status
    }

    /// The last snapshot that arrived, acted on or not.
    pub fn last_snapshot(&self) -> (snapshot: Option<&ShopSnapshot>)
        ensures
            match snapshot {
                Some(snapshot) => self@.last_snapshot == Some(*snapshot),
                None => self@.last_snapshot is None,
            },
    {
        self.last_snapshot.as_ref()
    }

    /// The run's counters.
    pub fn progress(&self) -> (progress: Progress)
        ensures
            progress.refreshes == self@.refreshes,
            progress.spent@ == self@.spent,
            progress.matches_found == self@.matches_found,
    {
        self.progress
    }

    /// The run's take.
    pub fn haul(&self) -> (haul: &Haul)
        ensures
            haul@ == self@.haul,
    {
        &self.haul
    }

    /// The stop limits.
    pub fn limits(&self) -> (limits: &Limits)
        ensures
            *limits == self@.limits,
    {
        &self.limits
    }

    /// The criteria.
    pub fn filter(&self) -> (filter: &Filter)
        ensures
            *filter == self@.filter,
    {
        &self.filter
    }

    /// The refresh facts that the stop logic enforces: server-sent, locally
    /// debited, discarded on start.
    pub fn refresh_meta(&self) -> (meta: Option<RefreshMeta>)
        ensures
            purse_of(meta) == self@.purse,
    {
        self.refresh_meta
    }

    /// Ids bought from the roll at hand, in the order of their echoes.
    pub fn bought(&self) -> (bought: &[CatalogId])
        ensures
            bought@ == self@.bought,
    {
        self.bought.as_slice()
    }

    /// Ids matched and not yet bought.
    pub fn checklist(&self) -> (checklist: &[CatalogId])
        ensures
            checklist@ == self@.checklist,
    {
        self.checklist.as_slice()
    }

    /// Last gold balance echoed by a purchase this run.
    pub fn gold_balance(&self) -> (gold: Option<Gold>)
        ensures
            amount_of(gold) == self@.gold,
    {
        self.gold_balance
    }

    /// What the watchdog is waiting on, if anything.
    pub fn expectation(&self) -> (expectation: Option<Expectation>)
        ensures
            wait_in(expectation) == self@.awaited,
    {
        self.expectation
    }

    fn refresh_cost(&self) -> (cost: Crystals)
        ensures
            cost@ == self@.cost(),
    {
        match self.refresh_meta {
            Some(meta) => {
                if meta.cost.get() > 0 {
                    meta.cost
                } else {
                    Crystals::new(REFRESH_COST)
                }
            },
            None => Crystals::new(REFRESH_COST),
        }
    }

    /// An instant before the start counts as zero elapsed.
    fn has_duration_elapsed(&self, now_ms: u64) -> (yes: bool)
        ensures
            yes == self@.timed_out(now_ms),
    {
        match (self.limits.max_duration_ms, self.started_at) {
            (Some(max), Some(started)) => now_ms.saturating_sub(started) >= max,
            _ => false,
        }
    }

    fn stop_reason(&self, now_ms: u64) -> (reason: Option<StopReason>)
        ensures
            reason == self@.stop_reason(now_ms),
    {
        let cost = self.refresh_cost();
        if let Some(meta) = self.refresh_meta {
            if meta.crystal_balance.get() < cost.get() {
                return Some(StopReason::OutOfFunds);
            }
        }
        if let Some(max) = self.limits.max_refreshes {
            if self.progress.refreshes >= max {
                return Some(StopReason::MaxRefreshes);
            }
        }
        if let Some(max) = self.limits.max_spend {
            let crosses = match self.progress.spent.checked_add(cost) {
                Some(next) => next.get() > max.get(),
                None => true,
            };
            if crosses {
                return Some(StopReason::MaxSpend);
            }
        }
        if let Some(max) = self.limits.max_matches {
            if self.progress.matches_found >= max {
                return Some(StopReason::MaxMatches);
            }
        }
        if self.has_duration_elapsed(now_ms) {
            return Some(StopReason::Timeout);
        }
        None
    }

    fn halt(&mut self, reason: StopReason) -> (actions: Vec<Action>)
        ensures
            final(self)@ == old(self)@.halted(reason),
            deeds(actions@) == seq![Deed::Halt(reason)],
    {
        self.status = Status::Stopped(reason);
        self.checklist.clear();
        self.expectation = None;
        assert(self@ =~= old(self)@.halted(reason));
        only(Action::Halt(reason))
    }

    /// The single emission point: every refresh is counted and debited before
    /// it goes out.
    fn emit_refresh(&mut self, now_ms: u64) -> (action: Action)
        requires
            old(self)@.refreshed(now_ms).on_the_clock(),
        ensures
            final(self)@ == old(self)@.refreshed(now_ms),
            action@ == Deed::Refresh,
    {
        let cost = self.refresh_cost();
        self.progress.refreshes = self.progress.refreshes.saturating_add(1);
        self.progress.spent = self.progress.spent.saturating_add(cost);
        if let Some(meta) = self.refresh_meta {
            self.refresh_meta = Some(
                RefreshMeta {
                    crystal_balance: meta.crystal_balance.saturating_sub(cost),
                    cost: meta.cost,
                },
            );
        }
        if self.recovery {
            self.expectation = Some(Expectation::snapshot(now_ms));
        }
        assert(self@ =~= old(self)@.refreshed(now_ms));
        Action::Refresh
    }

    fn refresh_or_halt(&mut self, now_ms: u64) -> (actions: Vec<Action>)
        requires
            old(self)@.resumed(now_ms).0.on_the_clock(),
        ensures
            final(self)@ == old(self)@.resumed(now_ms).0,
            deeds(actions@) == old(self)@.resumed(now_ms).1,
    {
        match self.stop_reason(now_ms) {
            Some(reason) => self.halt(reason),
            None => only(self.emit_refresh(now_ms)),
        }
    }

    fn on_start(&mut self, now_ms: u64) -> (actions: Vec<Action>)
        ensures
            final(self)@ == old(self)@.on_start(now_ms).0,
            deeds(actions@) == old(self)@.on_start(now_ms).1,
    {
        if self.status.is_armed() {
            return nothing();
        }
        if self.filter.is_unrestricted() {
            return only(Action::Refused(RefusalReason::UnrestrictedFilter));
        }
        self.progress = Progress::default();
        self.haul = Haul::default();
        self.started_at = Some(now_ms);
        self.refresh_meta = None;
        self.gold_balance = None;
        self.checklist.clear();
        self.acted_fingerprint = None;
        self.expectation = None;
        self.status = Status::Watching;
        assert(self@ =~= old(self)@.on_start(now_ms).0);
        nothing()
    }

    fn on_halt_request(&mut self, reason: StopReason) -> (actions: Vec<Action>)
        ensures
            final(self)@ == old(self)@.on_halt_request(reason).0,
            deeds(actions@) == old(self)@.on_halt_request(reason).1,
    {
        if !self.status.is_armed() {
            return nothing();
        }
        self.halt(reason)
    }

    /// The matched slots, clickable or display-only, planned against the last
    /// echoed gold balance debited in click order, and whether anything is in
    /// reach of a buy.
    fn plan_targets(&self, snapshot: &ShopSnapshot) -> (planned: (Vec<BuyTarget>, bool))
        ensures
            planned.0@ == self@.planned(snapshot.slots@).targets,
            planned.1 == self@.planned(snapshot.slots@).buyable,
    {
        let mut targets: Vec<BuyTarget> = Vec::new();
        let mut gold = self.gold_balance;
        let mut buyable = false;
        for i in 0..snapshot.slots.len()
            invariant
                targets@ == self@.planned(snapshot.slots@.take(i as int)).targets,
                amount_of(gold) == self@.planned(snapshot.slots@.take(i as int)).gold,
                buyable == self@.planned(snapshot.slots@.take(i as int)).buyable,
        {
            let item = &snapshot.slots[i];
            let ghost before = snapshot.slots@.take(i as int);
            let ghost upto = snapshot.slots@.take(i + 1);
            proof {
                assert(upto.drop_last() =~= before);
                assert(upto.last() == *item);
            }
            if self.filter.matches(item) {
                let affordable = match (gold, item.price) {
                    (Some(balance), Some(price)) => price.get() <= balance.get(),
                    _ => true,
                };
                let already_bought = match item.id {
                    Some(id) => holds(&self.bought, id),
                    None => false,
                };
                let reached = !item.is_sold_out() && affordable && !already_bought;
                assert(reached == in_reach(*item, amount_of(gold), self@.bought));
                if reached {
                    if let (Some(balance), Some(price)) = (gold, item.price) {
                        gold = Some(balance.saturating_sub(price));
                    }
                    buyable = true;
                }
                let id = if reached {
                    item.id
                } else {
                    None
                };
                targets.push(BuyTarget { slot: item.effective_slot(i), id });
            }
        }
        assert(snapshot.slots@.take(snapshot.slots@.len() as int) =~= snapshot.slots@);
        (targets, buyable)
    }

    /// The ids that the targets name, in order.
    fn clickable(targets: &Vec<BuyTarget>) -> (ids: Vec<CatalogId>)
        ensures
            ids@ == ids_of(targets@),
    {
        let mut ids: Vec<CatalogId> = Vec::new();
        for i in 0..targets.len()
            invariant
                ids@ == ids_of(targets@.take(i as int)),
        {
            assert(targets@.take(i + 1).drop_last() =~= targets@.take(i as int));
            if let Some(id) = targets[i].id {
                ids.push(id);
            }
        }
        assert(targets@.take(targets@.len() as int) =~= targets@);
        ids
    }

    /// The decision on a snapshot; it never stores the snapshot.
    fn evaluate_snapshot(&mut self, snapshot: &ShopSnapshot, now_ms: u64) -> (actions: Vec<Action>)
        requires
            old(self)@.evaluated(snapshot.slots@, now_ms).0.on_the_clock(),
        ensures
            final(self)@ == old(self)@.evaluated(snapshot.slots@, now_ms).0,
            deeds(actions@) == old(self)@.evaluated(snapshot.slots@, now_ms).1,
    {
        if !self.status.is_armed() || snapshot.slots.is_empty() {
            return nothing();
        }
        let roll = fingerprint(snapshot);
        if same_known(&roll, &self.acted_fingerprint) {
            return nothing();
        }
        if roll.is_none() && self.status == Status::Paused {
            return nothing();
        }
        assert(!old(self)@.mutes(snapshot.slots@));
        if roll.is_some() {
            if !same_known(&roll, &self.bought_fingerprint) {
                self.bought.clear();
                self.bought_fingerprint = fingerprint(snapshot);
            }
            self.acted_fingerprint = roll;
        }
        self.expectation = None;
        let ghost taken = old(self)@.taken_up(snapshot.slots@);
        assert(self@ =~= taken);
        let (targets, buyable) = self.plan_targets(snapshot);
        self.checklist = Self::clickable(&targets);
        self.status = Status::Watching;
        let found: u32 = if targets.len() < u32::MAX as usize {
            targets.len() as u32
        } else {
            u32::MAX
        };
        self.progress.matches_found = self.progress.matches_found.saturating_add(found);
        let ghost planned = taken.planned(snapshot.slots@);
        let ghost listed = self@;
        assert(listed.checklist == ids_of(planned.targets));
        if targets.is_empty() {
            return self.refresh_or_halt(now_ms);
        }
        if !buyable {
            let mut actions = only(Action::Buy { targets });
            let mut after = self.refresh_or_halt(now_ms);
            let ghost first = actions@;
            let ghost second = after@;
            actions.append(&mut after);
            assert(deeds(actions@) =~= deeds(first) + deeds(second));
            return actions;
        }
        self.status = Status::Paused;
        if self.recovery && !self.checklist.is_empty() {
            self.expectation = Some(Expectation::purchase(now_ms));
        }
        assert(self@ =~= old(self)@.evaluated(snapshot.slots@, now_ms).0);
        only(Action::Buy { targets })
    }

    fn on_snapshot(&mut self, snapshot: ShopSnapshot, now_ms: u64) -> (actions: Vec<Action>)
        requires
            old(self)@.on_snapshot(snapshot, now_ms).0.on_the_clock(),
        ensures
            final(self)@ == old(self)@.on_snapshot(snapshot, now_ms).0,
            deeds(actions@) == old(self)@.on_snapshot(snapshot, now_ms).1,
    {
        if snapshot.refresh.is_some() {
            self.refresh_meta = snapshot.refresh;
        }
        assert(self@ =~= old(self)@.with_facts(snapshot.refresh));
        let actions = self.evaluate_snapshot(&snapshot, now_ms);
        self.last_snapshot = Some(snapshot);
        assert(self@ =~= old(self)@.on_snapshot(snapshot, now_ms).0);
        actions
    }

    /// Records a confirmed buy: the echoed gold balance, the spent slot, and
    /// the run's take.
    fn record_purchase(&mut self, item: Option<CatalogId>, gold: Option<Gold>)
        ensures
            final(self)@ == old(self)@.with_gold(gold).with_purchase(item),
    {
        if gold.is_some() {
            self.gold_balance = gold;
        }
        let ghost told = old(self)@.with_gold(gold);
        assert(self@ =~= told);
        if let Some(item) = item {
            if !holds(&self.bought, item) {
                self.bought.push(item);
                let stopped = matches!(self.status, Status::Stopped(_));
                if !stopped {
                    let mut name: Option<Option<String>> = None;
                    if let Some(snapshot) = &self.last_snapshot {
                        proof {
                            position_of_is_first(snapshot.slots@, item);
                        }
                        if let Some(slot) = snapshot.slot_by_id(item) {
                            name = Some(copy_text(&slot.name));
                        }
                    }
                    if let Some(name) = name {
                        self.haul.record(name);
                    }
                }
            }
        }
        assert(self@ =~= told.with_purchase(item));
    }

    /// Where the checklist first holds `item`.
    fn place_on_checklist(&self, item: CatalogId) -> (place: Option<usize>)
        ensures
            match place {
                Some(place) => self@.checklist.contains(item) && place < self@.checklist.len()
                    && place == first_place(self@.checklist, item),
                None => !self@.checklist.contains(item),
            },
    {
        for i in 0..self.checklist.len()
            invariant
                forall|j: int| 0 <= j < i ==> self.checklist@[j] != item,
        {
            if self.checklist[i] == item {
                proof {
                    let found = first_place(self@.checklist, item);
                    assert(0 <= i < self@.checklist.len() && self@.checklist[i as int] == item);
                    assert(found == i) by {
                        if found < i {
                            assert(self@.checklist[found] == item);
                        } else if found > i {
                            assert(self@.checklist[i as int] != item);
                        }
                    }
                }
                return Some(i);
            }
        }
        None
    }

    fn on_purchase(
        &mut self,
        item: Option<CatalogId>,
        gold: Option<Gold>,
        now_ms: u64,
    ) -> (actions: Vec<Action>)
        requires
            old(self)@.on_purchase(item, gold, now_ms).0.on_the_clock(),
        ensures
            final(self)@ == old(self)@.on_purchase(item, gold, now_ms).0,
            deeds(actions@) == old(self)@.on_purchase(item, gold, now_ms).1,
    {
        self.record_purchase(item, gold);
        let ghost told = self@;
        if self.status != Status::Paused {
            return nothing();
        }
        let item = match item {
            Some(item) => item,
            None => {
                return nothing();
            },
        };
        let place = match self.place_on_checklist(item) {
            Some(place) => place,
            None => {
                return nothing();
            },
        };
        self.checklist.swap_remove(place);
        assert(self.checklist@ =~= checked_off(told.checklist, item));
        if !self.checklist.is_empty() {
            if self.recovery {
                self.expectation = Some(Expectation::purchase(now_ms));
            }
            assert(self@ =~= old(self)@.on_purchase(Some(item), gold, now_ms).0);
            return nothing();
        }
        self.status = Status::Watching;
        assert(self@ =~= (Hunt {
            checklist: checked_off(told.checklist, item),
            status: Status::Watching,
            ..told
        }));
        self.refresh_or_halt(now_ms)
    }

    /// The outstanding buys, rebuilt by identity from the checklist against the
    /// stored snapshot, never filtered again.
    fn recovery_buy_targets(&self) -> (targets: Vec<BuyTarget>)
        ensures
            targets@ == match self@.last_snapshot {
                Some(snapshot) => outstanding(snapshot.slots@, self@.checklist),
                None => Seq::empty(),
            },
    {
        let mut targets: Vec<BuyTarget> = Vec::new();
        if let Some(snapshot) = &self.last_snapshot {
            for i in 0..snapshot.slots.len()
                invariant
                    self.last_snapshot == Some(*snapshot),
                    targets@ == outstanding(snapshot.slots@.take(i as int), self@.checklist),
            {
                let item = &snapshot.slots[i];
                assert(snapshot.slots@.take(i + 1).drop_last() =~= snapshot.slots@.take(i as int));
                if let Some(id) = item.id {
                    if holds(&self.checklist, id) {
                        targets.push(BuyTarget { slot: item.effective_slot(i), id: Some(id) });
                    }
                }
            }
            assert(snapshot.slots@.take(snapshot.slots@.len() as int) =~= snapshot.slots@);
        }
        targets
    }

    /// The recovery ladder, run from ticks once a deadline lapses.
    fn watchdog(&mut self, now_ms: u64) -> (actions: Vec<Action>)
        requires
            old(self)@.watchdog(now_ms).0.on_the_clock(),
        ensures
            final(self)@ == old(self)@.watchdog(now_ms).0,
            deeds(actions@) == old(self)@.watchdog(now_ms).1,
    {
        if !self.link_up {
            return nothing();
        }
        let expectation = match self.expectation {
            Some(expectation) => expectation,
            None => {
                return nothing();
            },
        };
        if !expectation.is_due(now_ms) {
            return nothing();
        }
        match (expectation.proof_owed(), expectation.rung()) {
            (Proof::Snapshot, 0) => {
                self.expectation = Some(expectation.escalate(now_ms));
                only(Action::Recover(Recovery::ConfirmRefresh))
            },
            (Proof::Snapshot, 1) => {
                match self.stop_reason(now_ms) {
                    Some(reason) => self.halt(reason),
                    None => {
                        assert(old(self)@.refreshed(now_ms).on_the_clock());
                        let _ = self.emit_refresh(now_ms);
                        self.expectation = Some(expectation.escalate(now_ms));
                        only(Action::Recover(Recovery::Refresh))
                    },
                }
            },
            (Proof::Purchase, 0) => {
                self.expectation = Some(expectation.escalate(now_ms));
                only(Action::Recover(Recovery::ConfirmBuy))
            },
            (Proof::Purchase, 1) => {
                let targets = self.recovery_buy_targets();
                self.expectation = Some(expectation.escalate(now_ms));
                only(Action::Recover(Recovery::Buy { targets }))
            },
            _ => self.halt(StopReason::Unresponsive),
        }
    }

    fn on_link_up(&mut self, now_ms: u64) -> (actions: Vec<Action>)
        requires
            old(self)@.on_link_up(now_ms).on_the_clock(),
        ensures
            final(self)@ == old(self)@.on_link_up(now_ms),
            deeds(actions@) == Seq::<Deed>::empty(),
    {
        self.link_up = true;
        if let Some(expectation) = self.expectation {
            self.expectation = Some(expectation.regrant(now_ms));
        }
        nothing()
    }

    fn on_tick(&mut self, now_ms: u64) -> (actions: Vec<Action>)
        requires
            old(self)@.on_tick(now_ms).0.on_the_clock(),
        ensures
            final(self)@ == old(self)@.on_tick(now_ms).0,
            deeds(actions@) == old(self)@.on_tick(now_ms).1,
    {
        if !self.status.is_armed() {
            return nothing();
        }
        if self.status == Status::Watching && self.expectation.is_none() {
            return match self.stop_reason(now_ms) {
                Some(reason) => self.halt(reason),
                None => nothing(),
            };
        }
        if self.has_duration_elapsed(now_ms) {
            return self.halt(StopReason::Timeout);
        }
        self.watchdog(now_ms)
    }

    /// The returned actions are the decision; the state mutation alone is not
    /// the output.
    #[must_use]
    pub fn handle(&mut self, event: Event) -> (actions: Vec<Action>)
        requires
            old(self)@.after(event).0.on_the_clock(),
        ensures
            final(self)@ == old(self)@.after(event).0,
            deeds(actions@) == old(self)@.after(event).1,
    {
        match event {
            Event::Start { now_ms } => self.on_start(now_ms),
            Event::Stop => self.on_halt_request(StopReason::PlayerStopped),
            Event::Shutdown => self.on_halt_request(StopReason::SessionEnded),
            Event::ActuatorFailed => self.on_halt_request(StopReason::ActuatorFailed),
            Event::Snapshot { snapshot, now_ms } => self.on_snapshot(snapshot, now_ms),
            Event::Purchase { item, gold, now_ms } => self.on_purchase(item, gold, now_ms),
            Event::FilterChanged(filter) => {
                if filter.is_unrestricted() {
                    return only(Action::Refused(RefusalReason::UnrestrictedFilter));
                }
                self.filter = filter;
                nothing()
            },
            Event::LimitsChanged(limits) => {
                self.limits = limits;
                nothing()
            },
            Event::LinkDown => {
                self.link_up = false;
                nothing()
            },
            Event::LinkUp { now_ms } => self.on_link_up(now_ms),
            Event::Tick { now_ms } => self.on_tick(now_ms),
        }
    }
}

/// Whatever a controller went through, its deadline can be told on the clock.
pub proof fn a_controller_keeps_time(controller: Controller)
    ensures
        controller@.on_the_clock(),
{
    if let Some(expectation) = controller.expectation {
        a_deadline_is_on_the_clock(expectation);
    }
}

} // verus!

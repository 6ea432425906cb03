//! The refresh-loop controller: a pure state machine that confronts each shop
//! snapshot with the player's [`Filter`] and decides whether to refresh again,
//! pause for a purchase, or stop.
//!
//! Time comes in through the events' `now_ms`, assumed monotonic, and the
//! controller performs no I/O: executing the returned [`Action`]s is the
//! caller's job.

pub mod controller;
pub mod decisions;
pub mod dedup;
pub mod haul;
pub mod laws;
pub mod model;
pub mod watchdog;

pub use crate::domain::control::controller::Controller;
pub use crate::domain::control::haul::Haul;

use crate::domain::filter::Filter;
use crate::domain::shop::{CatalogId, Crystals, Gold, ShopSnapshot};
use vstd::prelude::*;

verus! {

/// A watchdog-issued retry, apart from a bare refresh or buy because it reaches
/// the caller from a tick.
#[derive(Debug, Clone, PartialEq, Eq)]
pub enum Recovery {
    /// Blind confirm re-click after a missed refresh confirm.
    ConfirmRefresh,
    /// Blind confirm re-click after a missed buy confirm.
    ConfirmBuy,
    /// Full refresh re-issue, counted and debited like any other refresh.
    Refresh,
    /// Full re-issue of the outstanding buys, rebuilt by identity from the
    /// checklist.
    Buy { targets: Vec<BuyTarget> },
}

/// Stop limits, all optional; the loop halts at the first one reached.
#[derive(Debug, Clone, Copy, PartialEq, Eq, Structural)]
pub struct Limits {
    pub max_refreshes: Option<u32>,
    /// Crystal budget, a hard ceiling: a refresh that would cross it is never
    /// issued.
    pub max_spend: Option<Crystals>,
    /// Matched items in all, not purchases.
    pub max_matches: Option<u32>,
    pub max_duration_ms: Option<u64>,
}

impl Default for Limits {
    fn default() -> (limits: Self)
        ensures
            limits.max_refreshes is None,
            limits.max_spend is None,
            limits.max_matches is None,
            limits.max_duration_ms is None,
    {
        Limits { max_refreshes: None, max_spend: None, max_matches: None, max_duration_ms: None }
    }
}

/// Why a hunt stopped: the player, a machine fault, or a limit the player set.
#[derive(Debug, Clone, Copy, PartialEq, Eq, Structural)]
pub enum StopReason {
    PlayerStopped,
    /// The relay pipeline ended while armed.
    SessionEnded,
    /// The click executor could not act safely.
    ActuatorFailed,
    /// The game answered nothing through the whole recovery ladder.
    Unresponsive,
    OutOfFunds,
    MaxRefreshes,
    MaxSpend,
    MaxMatches,
    Timeout,
}

/// Where the refresh loop is. Only `Watching` and `Paused` are armed.
#[derive(Debug, Clone, Copy, PartialEq, Eq, Structural)]
pub enum Status {
    Idle,
    Watching,
    /// A slot matched; waiting for purchases.
    Paused,
    Stopped(StopReason),
}

impl Status {
    /// Whether the loop acts on what arrives.
    pub open spec fn armed(self) -> bool {
        self == Status::Watching || self == Status::Paused
    }

    /// Whether the loop acts on what arrives.
    pub fn is_armed(&self) -> (yes: bool)
        ensures
            yes == self.armed(),
    {
        matches!(self, Status::Watching | Status::Paused)
    }
}

/// Everything that can move the loop: player commands, decoded wire arrivals,
/// link transitions, and the clock.
#[derive(Debug, Clone)]
pub enum Event {
    /// Arms the watch.
    Start { now_ms: u64 },
    Stop,
    /// The relay is going away underneath the loop.
    Shutdown,
    /// The click executor cannot act safely.
    ActuatorFailed,
    Snapshot { snapshot: ShopSnapshot, now_ms: u64 },
    /// A server-confirmed buy.
    Purchase {
        /// The bought item's catalog id, `None` when the server omitted it.
        item: Option<CatalogId>,
        /// Gold balance after the buy. `None` fails open; a balance of zero is
        /// an empty purse that vetoes every priced match.
        gold: Option<Gold>,
        now_ms: u64,
    },
    FilterChanged(Filter),
    /// The player retuned the stop limits.
    LimitsChanged(Limits),
    /// The uplink dropped: no proof can arrive.
    LinkDown,
    /// The uplink is back.
    LinkUp { now_ms: u64 },
    /// The clock.
    Tick { now_ms: u64 },
}

/// One matched slot. `id` is present exactly when the item is in reach of a buy
/// and an echo can name it; a target without one is display-only.
#[derive(Debug, Clone, Copy, PartialEq, Eq, Structural)]
pub struct BuyTarget {
    pub slot: u8,
    pub id: Option<CatalogId>,
}

/// What the caller is to do. Actions are consumed in order.
#[derive(Debug, Clone, PartialEq, Eq)]
pub enum Action {
    Refresh,
    Buy { targets: Vec<BuyTarget> },
    /// A watchdog retry to execute.
    Recover(Recovery),
    Halt(StopReason),
    /// The event was rejected; nothing changed.
    Refused(RefusalReason),
}

/// Why an event was rejected.
#[derive(Debug, Clone, Copy, PartialEq, Eq, Structural)]
pub enum RefusalReason {
    /// Arming with, or swapping to, a filter that matches everything.
    UnrestrictedFilter,
}

impl Action {
    /// Whether this is the explicit rejection verdict.
    pub fn is_refusal(&self) -> (yes: bool)
        ensures
            yes == (*self is Refused),
    {
        matches!(self, Action::Refused(_))
    }
}

/// Counters exposed to the view.
#[derive(Debug, Clone, Copy, PartialEq, Eq, Structural)]
pub struct Progress {
    pub refreshes: u32,
    /// Crystals committed to refreshes.
    pub spent: Crystals,
    /// Items matched, not purchases.
    pub matches_found: u32,
}

impl Default for Progress {
    fn default() -> (progress: Self)
        ensures
            progress.refreshes == 0,
            progress.spent@ == 0,
            progress.matches_found == 0,
    {
        Progress { refreshes: 0, spent: Crystals::new(0), matches_found: 0 }
    }
}

} // verus!

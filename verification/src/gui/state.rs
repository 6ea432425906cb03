//! A run as the window sees it: its status, its counts and how it ended.

use crate::text;
use vstd::prelude::*;
use vstd::string::*;

verus! {

/// The name that mystic medals go by.
pub const MYSTIC_MEDAL: &'static str = "mystic_medal";

/// The name that covenant bookmarks go by.
pub const COVENANT: &'static str = "covenant";

/// Where a run stands.
#[derive(Debug, Clone, Copy, PartialEq, Eq, Structural)]
pub enum BotStatus {
    Idle,
    Running,
    Stopping,
    Finished,
    Failed,
}

impl Default for BotStatus {
    fn default() -> (status: Self)
        ensures
            status == BotStatus::Idle,
    {
        BotStatus::Idle
    }
}

impl BotStatus {
    /// The word for a status.
    pub fn label(&self) -> (label: &'static str)
        ensures
            label@ == match *self {
                BotStatus::Idle => "Idle"@,
                BotStatus::Running => "Running"@,
                BotStatus::Stopping => "Stopping…"@,
                BotStatus::Finished => "Finished"@,
                BotStatus::Failed => "Failed"@,
            },
    {
        match self {
            BotStatus::Idle => "Idle",
            BotStatus::Running => "Running",
            BotStatus::Stopping => "Stopping…",
            BotStatus::Finished => "Finished",
            BotStatus::Failed => "Failed",
        }
    }

    /// Whether a worker is at work.
    pub open spec fn active(self) -> bool {
        self is Running || self is Stopping
    }

    /// Whether a worker is at work.
    pub fn is_active(&self) -> (active: bool)
        ensures
            active == self.active(),
    {
        match self {
            BotStatus::Running | BotStatus::Stopping => true,
            _ => false,
        }
    }
}

/// What the window knows of a run.
#[derive(Debug)]
pub struct BotStats {
    pub status: BotStatus,
    pub round: u32,
    pub total_rounds: u32,
    pub items_bought: u32,
    pub mystic_bought: u32,
    pub covenant_bought: u32,
    pub last_error: Option<String>,
    /// What the worker is busy with, where that is worth a line.
    pub sub_status: Option<String>,
    /// Why the run ended by itself, until the window has taken note.
    pub finish_reason: Option<String>,
    /// The machine was sent to sleep, until the window has taken note.
    pub sleep_consumed: bool,
}

/// A run as the window sees it.
pub struct Stats {
    pub status: BotStatus,
    pub round: u32,
    pub total_rounds: u32,
    pub items_bought: u32,
    pub mystic_bought: u32,
    pub covenant_bought: u32,
    pub last_error: Option<Seq<char>>,
    pub sub_status: Option<Seq<char>>,
    pub finish_reason: Option<Seq<char>>,
    pub sleep_consumed: bool,
}

/// A text that may be missing.
pub open spec fn text_view(text: Option<String>) -> Option<Seq<char>> {
    match text {
        Some(text) => Some(text@),
        None => None,
    }
}

impl View for BotStats {
    type V = Stats;

    open spec fn view(&self) -> Stats {
        Stats {
            status: self.status,
            round: self.round,
            total_rounds: self.total_rounds,
            items_bought: self.items_bought,
            mystic_bought: self.mystic_bought,
            covenant_bought: self.covenant_bought,
            last_error: text_view(self.last_error),
            sub_status: text_view(self.sub_status),
            finish_reason: text_view(self.finish_reason),
            sleep_consumed: self.sleep_consumed,
        }
    }
}

fn copy_of(text: &Option<String>) -> (copy: Option<String>)
    ensures
        text_view(copy) == text_view(*text),
{
    match text {
        Some(text) => Some(text.as_str().to_owned()),
        None => None,
    }
}

impl Clone for BotStats {
    fn clone(&self) -> (copy: Self)
        ensures
            copy@ == self@,
    {
        BotStats {
            status: self.status,
            round: self.round,
            total_rounds: self.total_rounds,
            items_bought: self.items_bought,
            mystic_bought: self.mystic_bought,
            covenant_bought: self.covenant_bought,
            last_error: copy_of(&self.last_error),
            sub_status: copy_of(&self.sub_status),
            finish_reason: copy_of(&self.finish_reason),
            sleep_consumed: self.sleep_consumed,
        }
    }
}

impl Stats {
    /// No run yet.
    pub open spec fn none() -> Self {
        Stats {
            status: BotStatus::Idle,
            round: 0,
            total_rounds: 0,
            items_bought: 0,
            mystic_bought: 0,
            covenant_bought: 0,
            last_error: None,
            sub_status: None,
            finish_reason: None,
            sleep_consumed: false,
        }
    }

    /// How many of one kind were bought.
    pub open spec fn bought(self, alias: Seq<char>) -> u32 {
        if alias == MYSTIC_MEDAL@ {
            self.mystic_bought
        } else if alias == COVENANT@ {
            self.covenant_bought
        } else {
            0
        }
    }

    /// After a round began.
    pub open spec fn in_round(self, round: u32, total: u32) -> Self {
        Stats {
            round,
            total_rounds: total,
            status: if self.status is Stopping {
                BotStatus::Stopping
            } else {
                BotStatus::Running
            },
            ..self
        }
    }

    /// After one more item was bought.
    pub open spec fn with_bought(self, alias: Seq<char>) -> Self {
        Stats {
            items_bought: (self.items_bought + 1) as u32,
            mystic_bought: if alias == MYSTIC_MEDAL@ {
                (self.mystic_bought + 1) as u32
            } else {
                self.mystic_bought
            },
            covenant_bought: if alias != MYSTIC_MEDAL@ && alias == COVENANT@ {
                (self.covenant_bought + 1) as u32
            } else {
                self.covenant_bought
            },
            ..self
        }
    }

    /// Whether another item can be counted.
    pub open spec fn has_room(self) -> bool {
        self.items_bought < u32::MAX && self.mystic_bought < u32::MAX && self.covenant_bought
            < u32::MAX
    }

    /// At the start of a run.
    pub open spec fn started(self) -> Self {
        Stats {
            status: BotStatus::Running,
            round: 0,
            items_bought: 0,
            mystic_bought: 0,
            covenant_bought: 0,
            last_error: None,
            sub_status: None,
            finish_reason: None,
            ..self
        }
    }

    /// After the worker ended with an error, or died.
    pub open spec fn broken(self, error: Seq<char>) -> Self {
        Stats {
            status: BotStatus::Failed,
            last_error: Some(error),
            sub_status: None,
            finish_reason: None,
            ..self
        }
    }
}

impl Default for BotStats {
    fn default() -> (stats: Self)
        ensures
            stats@ == Stats::none(),
    {
        BotStats {
            status: BotStatus::Idle,
            round: 0,
            total_rounds: 0,
            items_bought: 0,
            mystic_bought: 0,
            covenant_bought: 0,
            last_error: None,
            sub_status: None,
            finish_reason: None,
            sleep_consumed: false,
        }
    }
}

/// The run that the worker reports to and the window reads.
#[derive(Debug)]
pub struct SharedStats(BotStats);

impl View for SharedStats {
    type V = Stats;

    closed spec fn view(&self) -> Stats {
        self.0@
    }
}

impl Default for SharedStats {
    fn default() -> (stats: Self)
        ensures
            stats@ == Stats::none(),
    {
        SharedStats(BotStats::default())
    }
}

impl SharedStats {
    pub fn new() -> (stats: Self)
        ensures
            stats@ == Stats::none(),
    {
        SharedStats::default()
    }

    /// The run as it stands.
    pub fn snapshot(&self) -> (stats: BotStats)
        ensures
            stats@ == self@,
    {
        self.0.clone()
    }

    /// Puts what a change makes of the run in its place.
    pub fn update<F: FnOnce(BotStats) -> BotStats>(&mut self, change: F)
        requires
            forall|stats: BotStats| stats@ == old(self)@ ==> call_requires(change, (stats,)),
        ensures
            exists|before: BotStats, after: BotStats|
                before@ == old(self)@ && after@ == final(self)@ && call_ensures(
                    change,
                    (before,),
                    after,
                ),
    {
        let before = self.0.clone();
        let ghost was = before;
        self.0 = change(before);
        assert(was@ == old(self)@ && self.0@ == self@ && call_ensures(change, (was,), self.0));
    }

    /// A round began. A stop that was asked for stays asked for.
    pub fn round_started(&mut self, round: u32, total: u32)
        ensures
            final(self)@ == old(self)@.in_round(round, total),
    {
        self.0.round = round;
        self.0.total_rounds = total;
        if self.0.status != BotStatus::Stopping {
            self.0.status = BotStatus::Running;
        }
    }

    /// An item was bought.
    pub fn item_bought(&mut self, alias: &str)
        requires
            old(self)@.has_room(),
        ensures
            final(self)@ == old(self)@.with_bought(alias@),
    {
        self.0.items_bought = self.0.items_bought + 1;
        if text::same_text(alias, MYSTIC_MEDAL) {
            self.0.mystic_bought = self.0.mystic_bought + 1;
        } else if text::same_text(alias, COVENANT) {
            self.0.covenant_bought = self.0.covenant_bought + 1;
        }
    }

    /// How many of one kind were bought in this run.
    pub fn bought_count(&self, alias: &str) -> (count: u32)
        ensures
            count == self@.bought(alias@),
    {
        if text::same_text(alias, MYSTIC_MEDAL) {
            self.0.mystic_bought
        } else if text::same_text(alias, COVENANT) {
            self.0.covenant_bought
        } else {
            0
        }
    }

    /// The run came to its end.
    pub fn finished(&mut self)
        ensures
            final(self)@ == (Stats {
                status: BotStatus::Finished,
                last_error: None,
                ..old(self)@
            }),
    {
        self.0.status = BotStatus::Finished;
        self.0.last_error = None;
    }

    /// The run failed.
    pub fn failed(&mut self, error: &str)
        ensures
            final(self)@ == (Stats {
                status: BotStatus::Failed,
                last_error: Some(error@),
                ..old(self)@
            }),
    {
        self.0.status = BotStatus::Failed;
        self.0.last_error = Some(error.to_owned());
    }

    /// A run starts: the counts and what was left of the last one are gone.
    pub fn start_bot(&mut self)
        ensures
            final(self)@ == old(self)@.started(),
    {
        self.0.status = BotStatus::Running;
        self.0.round = 0;
        self.0.items_bought = 0;
        self.0.mystic_bought = 0;
        self.0.covenant_bought = 0;
        self.0.last_error = None;
        self.0.sub_status = None;
        self.0.finish_reason = None;
    }

    /// A stop is asked for. Without a worker there is nothing to stop, and the
    /// window's stop button clears what it shows instead: `false`.
    pub fn stop_bot(&mut self, has_worker: bool) -> (asked: bool)
        ensures
            asked == has_worker,
            final(self)@ == if has_worker {
                (Stats { status: BotStatus::Stopping, ..old(self)@ })
            } else {
                old(self)@
            },
    {
        if has_worker {
            self.0.status = BotStatus::Stopping;
        }
        has_worker
    }

    /// Clears everything.
    pub fn reset(&mut self)
        ensures
            final(self)@ == Stats::none(),
    {
        self.0 = BotStats::default();
    }

    /// The worker is over. One that ended with an error, or died, leaves the
    /// run failed, whatever it had reported.
    pub fn poll_bot(&mut self, ended: WorkerEnd)
        ensures
            final(self)@ == match ended {
                WorkerEnd::Cleanly => old(self)@,
                WorkerEnd::WithError(error) => old(self)@.broken(error@),
                WorkerEnd::Panicked => old(self)@.broken("worker thread panicked"@),
            },
    {
        match ended {
            WorkerEnd::Cleanly => {},
            WorkerEnd::WithError(error) => self.break_with(error),
            WorkerEnd::Panicked => self.break_with("worker thread panicked".to_owned()),
        }
    }

    fn break_with(&mut self, error: String)
        ensures
            final(self)@ == old(self)@.broken(error@),
    {
        self.0.status = BotStatus::Failed;
        self.0.last_error = Some(error);
        self.0.sub_status = None;
        self.0.finish_reason = None;
    }

    /// Takes note that the run ended by itself: `true` once per end.
    pub fn consume_finish_reason(&mut self) -> (noted: bool)
        ensures
            noted == old(self)@.finish_reason is Some,
            final(self)@ == (Stats { finish_reason: None, ..old(self)@ }),
    {
        let noted = self.0.finish_reason.is_some();
        if noted {
            self.0.finish_reason = None;
        }
        noted
    }

    /// Takes note that the machine was sent to sleep: `true` once, for which the
    /// window unticks its box.
    pub fn consume_sleep_flag(&mut self) -> (noted: bool)
        ensures
            noted == old(self)@.sleep_consumed,
            final(self)@ == (Stats { sleep_consumed: false, ..old(self)@ }),
    {
        let noted = self.0.sleep_consumed;
        if noted {
            self.0.sleep_consumed = false;
        }
        noted
    }
}

/// How a worker came to its end.
#[derive(Debug)]
pub enum WorkerEnd {
    Cleanly,
    WithError(String),
    Panicked,
}

/// The status that a worker's life and its reports add up to.
pub open spec fn effective(worker_runs: bool, reported: BotStatus) -> BotStatus {
    if worker_runs && reported is Idle {
        BotStatus::Running
    } else {
        reported
    }
}

/// The status to show: a worker that runs and has not reported yet is running.
pub fn effective_status(worker_runs: bool, reported: BotStatus) -> (status: BotStatus)
    ensures
        status == effective(worker_runs, reported),
{
    if worker_runs && reported == BotStatus::Idle {
        BotStatus::Running
    } else {
        reported
    }
}

/// A stop that was asked for is not forgotten by a new round.
pub proof fn a_stop_outlasts_a_round(stats: Stats, round: u32, total: u32)
    requires
        stats.status is Stopping,
    ensures
        stats.in_round(round, total).status is Stopping,
{
}

/// Every item bought counts once in all, once under its own kind, and under
/// no other.
pub proof fn an_item_counts_once(stats: Stats, alias: Seq<char>, other: Seq<char>)
    requires
        stats.has_room(),
        other != alias,
    ensures
        stats.with_bought(alias).items_bought == stats.items_bought + 1,
        alias == MYSTIC_MEDAL@ || alias == COVENANT@ ==> stats.with_bought(alias).bought(alias)
            == stats.bought(alias) + 1,
        stats.with_bought(alias).bought(other) == stats.bought(other),
{
}

/// A worker that runs is never shown as idle.
pub proof fn a_running_worker_is_never_idle(reported: BotStatus)
    ensures
        !(effective(true, reported) is Idle),
        effective(false, reported) == reported,
{
}

/// One sample of a run.
#[derive(Debug, Clone, Copy, PartialEq, Eq, Structural)]
pub struct RunHistoryPoint {
    pub round: u32,
    pub mystic: u32,
    pub covenant: u32,
}

/// The samples of a run, one per round.
#[derive(Debug)]
pub struct RunHistory {
    points: Vec<RunHistoryPoint>,
    last_recorded_round: u32,
}

impl View for RunHistory {
    type V = (Seq<RunHistoryPoint>, u32);

    closed spec fn view(&self) -> (Seq<RunHistoryPoint>, u32) {
        (self.points@, self.last_recorded_round)
    }
}

impl Default for RunHistory {
    fn default() -> (history: Self)
        ensures
            history@ == (Seq::<RunHistoryPoint>::empty(), 0u32),
    {
        RunHistory { points: Vec::new(), last_recorded_round: 0 }
    }
}

/// The sample of a run as it stands.
pub open spec fn sample(stats: Stats) -> RunHistoryPoint {
    RunHistoryPoint {
        round: stats.round,
        mystic: stats.mystic_bought,
        covenant: stats.covenant_bought,
    }
}

impl RunHistory {
    /// Takes a sample where the round is not the one sampled last.
    pub fn record_run_progress(&mut self, stats: &BotStats)
        ensures
            final(self)@ == if stats.round == old(self)@.1 {
                old(self)@
            } else {
                (old(self)@.0.push(sample(stats@)), stats.round)
            },
    {
        if stats.round == self.last_recorded_round {
            return ;
        }
        self.points.push(
            RunHistoryPoint {
                round: stats.round,
                mystic: stats.mystic_bought,
                covenant: stats.covenant_bought,
            },
        );
        self.last_recorded_round = stats.round;
    }

    /// Forgets every sample.
    pub fn clear(&mut self)
        ensures
            final(self)@ == (Seq::<RunHistoryPoint>::empty(), 0u32),
    {
        self.points.clear();
        self.last_recorded_round = 0;
    }

    /// The samples, oldest first.
    pub fn points(&self) -> (points: &Vec<RunHistoryPoint>)
        ensures
            points@ == self@.0,
    {
        &self.points
    }
}

/// What every handle of a run sees after changes, each made through the handle
/// that it is tagged with.
pub open spec fn stats_after(stats: Stats, changes: Seq<(nat, spec_fn(Stats) -> Stats)>) -> Stats
    decreases changes.len(),
{
    if changes.len() == 0 {
        stats
    } else {
        (changes.last().1)(stats_after(stats, changes.drop_last()))
    }
}

/// A run goes by the changes that were made to it alone, whichever of its handles
/// each was made through.
pub proof fn whichever_handle_reports(
    stats: Stats,
    changes: Seq<(nat, spec_fn(Stats) -> Stats)>,
    others: Seq<(nat, spec_fn(Stats) -> Stats)>,
)
    requires
        changes.len() == others.len(),
        forall|i: int| 0 <= i < changes.len() ==> (#[trigger] changes[i]).1 == others[i].1,
    ensures
        stats_after(stats, changes) == stats_after(stats, others),
    decreases changes.len(),
{
    if changes.len() > 0 {
        assert(changes[changes.len() - 1].1 == others[changes.len() - 1].1);
        assert forall|i: int| 0 <= i < changes.len() - 1 implies (
        #[trigger] changes.drop_last()[i]).1 == others.drop_last()[i].1 by {
            assert(changes[i].1 == others[i].1);
        }
        whichever_handle_reports(stats, changes.drop_last(), others.drop_last());
    }
}

/// A change through any handle is seen through every one: each then sees what the
/// change makes of what was seen before. What was seen earlier stays as it was
/// seen.
pub proof fn a_change_is_seen_by_every_handle(
    stats: Stats,
    changes: Seq<(nat, spec_fn(Stats) -> Stats)>,
    handle: nat,
    change: spec_fn(Stats) -> Stats,
)
    ensures
        stats_after(stats, changes.push((handle, change))) == change(stats_after(stats, changes)),
        stats_after(stats, changes.push((handle, change)).take(changes.len() as int))
            == stats_after(stats, changes),
{
    let more = changes.push((handle, change));
    assert(more.drop_last() =~= changes);
    assert(more.take(changes.len() as int) =~= changes);
}

/// Whether two runs have the same counts.
pub open spec fn same_counts(a: Stats, b: Stats) -> bool {
    a.items_bought == b.items_bought && a.mystic_bought == b.mystic_bought && a.covenant_bought
        == b.covenant_bought
}

/// A new round changes the round and its total, and sets the run running unless it
/// is stopping; nothing else.
pub proof fn a_round_changes_only_where_the_run_is(stats: Stats, round: u32, total: u32)
    ensures
        ({
            let next = stats.in_round(round, total);
            &&& next.round == round && next.total_rounds == total
            &&& stats.status is Stopping ==> next.status is Stopping
            &&& !(stats.status is Stopping) ==> next.status is Running
            &&& same_counts(next, stats)
            &&& next.last_error == stats.last_error && next.sub_status == stats.sub_status
            &&& next.finish_reason == stats.finish_reason && next.sleep_consumed
                == stats.sleep_consumed
        }),
{
}

/// A run that starts runs, at no round and with nothing bought, and shows nothing
/// of the one before; how many rounds there are and whether the machine slept are
/// not its to forget.
pub proof fn a_run_starts_from_nothing(stats: Stats)
    ensures
        ({
            let next = stats.started();
            &&& next.status is Running && next.round == 0
            &&& next.items_bought == 0 && next.mystic_bought == 0 && next.covenant_bought == 0
            &&& next.last_error is None && next.sub_status is None && next.finish_reason is None
            &&& next.total_rounds == stats.total_rounds && next.sleep_consumed
                == stats.sleep_consumed
        }),
        ({
            let none = Stats::none();
            &&& none.status is Idle && none.round == 0 && none.total_rounds == 0
            &&& none.items_bought == 0 && none.mystic_bought == 0 && none.covenant_bought == 0
            &&& none.last_error is None && none.sub_status is None && none.finish_reason is None
            &&& !none.sleep_consumed
        }),
{
}

/// A run that breaks is failed and says why; what it was busy with and any end of
/// its own are gone, and what it came to stays.
pub proof fn a_broken_run_keeps_what_it_came_to(stats: Stats, error: Seq<char>)
    ensures
        ({
            let next = stats.broken(error);
            &&& next.status is Failed && next.last_error == Some(error)
            &&& next.sub_status is None && next.finish_reason is None
            &&& next.round == stats.round && next.total_rounds == stats.total_rounds
            &&& same_counts(next, stats) && next.sleep_consumed == stats.sleep_consumed
        }),
{
}

/// What was bought counts in all, and under its kind where that is medals or
/// bookmarks; nothing else of the run changes. Each kind has a count of its own,
/// and any other has none.
pub proof fn a_buy_counts_in_all_and_under_its_kind(stats: Stats, alias: Seq<char>)
    requires
        stats.has_room(),
    ensures
        ({
            let next = stats.with_bought(alias);
            &&& next.items_bought == stats.items_bought + 1
            &&& next.mystic_bought - stats.mystic_bought == if alias == "mystic_medal"@ {
                1int
            } else {
                0int
            }
            &&& next.covenant_bought - stats.covenant_bought == if alias == "covenant"@ {
                1int
            } else {
                0int
            }
            &&& next.status == stats.status && next.round == stats.round && next.total_rounds
                == stats.total_rounds
            &&& next.last_error == stats.last_error && next.sub_status == stats.sub_status
            &&& next.finish_reason == stats.finish_reason && next.sleep_consumed
                == stats.sleep_consumed
        }),
        stats.bought("mystic_medal"@) == stats.mystic_bought,
        stats.bought("covenant"@) == stats.covenant_bought,
        alias != "mystic_medal"@ && alias != "covenant"@ ==> stats.bought(alias) == 0,
{
    reveal_strlit("mystic_medal");
    reveal_strlit("covenant");
    assert("mystic_medal"@.len() == 12 && "covenant"@.len() == 8);
}

/// A worker that runs and has not reported is shown running, and every report is
/// shown as it is; a run is active exactly while it runs or stops.
pub proof fn a_report_is_shown_as_it_is(worker_runs: bool, reported: BotStatus)
    ensures
        reported != BotStatus::Idle ==> effective(worker_runs, reported) == reported,
        effective(true, BotStatus::Idle) is Running,
        effective(false, BotStatus::Idle) is Idle,
        reported.active() <==> reported == BotStatus::Running || reported == BotStatus::Stopping,
        !BotStatus::Idle.active() && !BotStatus::Finished.active() && !BotStatus::Failed.active(),
{
}

/// A sample is the round with the counts of both kinds as they stand.
pub proof fn a_sample_is_the_run_as_it_stands(stats: Stats)
    ensures
        sample(stats).round == stats.round,
        sample(stats).mystic == stats.mystic_bought,
        sample(stats).covenant == stats.covenant_bought,
{
}

} // verus!

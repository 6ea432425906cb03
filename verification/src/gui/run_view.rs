//! The run tab: what its button does, what it shows, and how its limits read.

use super::parsers::{format_gold, format_minutes, gold_shown, minutes_shown};
use super::state::BotStatus;
use crate::text;
use vstd::prelude::*;
use vstd::string::*;

verus! {

/// What a click on the row's button does.
#[derive(Debug, Clone, Copy, PartialEq, Eq, Structural)]
pub enum RowAction {
    Start,
    Stop,
    OpenSetup,
    Nothing,
}

/// The sign in front of the status.
#[derive(Debug, Clone, Copy, PartialEq, Eq, Structural)]
pub enum Glyph {
    Play,
    Hourglass,
    Check,
    Warning,
}

/// How something is coloured.
#[derive(Debug, Clone, Copy, PartialEq, Eq, Structural)]
pub enum Tone {
    Good,
    Caution,
    Bad,
    Accent,
}

/// The row at the top of the run tab.
#[derive(Debug, Clone, Copy)]
pub struct ActionRow {
    pub glyph: Glyph,
    pub status: &'static str,
    pub tone: Tone,
    /// The button's label and colour, where there is a button.
    pub button: Option<(&'static str, Tone)>,
    pub action: RowAction,
    pub enabled: bool,
}

/// Whether a run can start: there is a window and a detector, and no run.
pub open spec fn startable(has_window: bool, has_detector: bool, effective: BotStatus) -> bool {
    has_window && has_detector && !effective.active()
}

/// Whether a run can start.
pub fn can_start(has_window: bool, has_detector: bool, effective: BotStatus) -> (yes: bool)
    ensures
        yes == startable(has_window, has_detector, effective),
{
    has_window && has_detector && !effective.is_active()
}

/// What the row does.
pub open spec fn row_action(effective: BotStatus, can_start: bool, has_window: bool) -> RowAction {
    if effective is Running {
        RowAction::Stop
    } else if effective is Stopping {
        RowAction::Nothing
    } else if can_start {
        RowAction::Start
    } else if !has_window {
        RowAction::Nothing
    } else {
        RowAction::OpenSetup
    }
}

/// What the row says.
pub open spec fn row_status(effective: BotStatus, can_start: bool, has_window: bool) -> Seq<char> {
    if effective is Running {
        "Running"@
    } else if effective is Stopping {
        "Stopping…"@
    } else if can_start {
        "Ready to run"@
    } else if !has_window {
        "Waiting for Epic Seven"@
    } else {
        "Setup incomplete"@
    }
}

/// The label of the button of an action.
pub open spec fn button_label(action: RowAction) -> Option<Seq<char>> {
    match action {
        RowAction::Start => Some("Start"@),
        RowAction::Stop => Some("Stop"@),
        RowAction::OpenSetup => Some("Setup"@),
        RowAction::Nothing => None,
    }
}

/// The row at the top of the run tab. It is enabled exactly where it does
/// something, and only a stop is coloured as a danger.
pub fn action_row(effective: BotStatus, can_start: bool, has_window: bool) -> (row: ActionRow)
    ensures
        row.action == row_action(effective, can_start, has_window),
        row.status@ == row_status(effective, can_start, has_window),
        row.enabled == !(row.action is Nothing),
        match row.button {
            Some((label, tone)) => button_label(row.action) == Some(label@) && tone == if row.action
                is Stop {
                Tone::Bad
            } else {
                Tone::Accent
            },
            None => button_label(row.action) is None,
        },
        row.tone == if row.action is Stop || row.action is Start {
            Tone::Good
        } else {
            Tone::Caution
        },
        row.glyph == if effective is Running {
            Glyph::Play
        } else if effective is Stopping {
            Glyph::Hourglass
        } else if can_start {
            Glyph::Check
        } else {
            Glyph::Warning
        },
{
    match effective {
        BotStatus::Running => ActionRow {
            glyph: Glyph::Play,
            status: "Running",
            tone: Tone::Good,
            button: Some(("Stop", Tone::Bad)),
            action: RowAction::Stop,
            enabled: true,
        },
        BotStatus::Stopping => ActionRow {
            glyph: Glyph::Hourglass,
            status: "Stopping…",
            tone: Tone::Caution,
            button: None,
            action: RowAction::Nothing,
            enabled: false,
        },
        _ => {
            if can_start {
                ActionRow {
                    glyph: Glyph::Check,
                    status: "Ready to run",
                    tone: Tone::Good,
                    button: Some(("Start", Tone::Accent)),
                    action: RowAction::Start,
                    enabled: true,
                }
            } else if !has_window {
                ActionRow {
                    glyph: Glyph::Warning,
                    status: "Waiting for Epic Seven",
                    tone: Tone::Caution,
                    button: None,
                    action: RowAction::Nothing,
                    enabled: false,
                }
            } else {
                ActionRow {
                    glyph: Glyph::Warning,
                    status: "Setup incomplete",
                    tone: Tone::Caution,
                    button: Some(("Setup", Tone::Accent)),
                    action: RowAction::OpenSetup,
                    enabled: true,
                }
            }
        },
    }
}

/// Nothing offers to start a second run: the row starts one only where there
/// is a window and a detector and no run, and stops one only where it runs.
pub proof fn no_second_run_is_offered(effective: BotStatus, has_window: bool, has_detector: bool)
    ensures
        ({
            let action = row_action(
                effective,
                startable(has_window, has_detector, effective),
                has_window,
            );
            &&& action is Start ==> has_window && has_detector && !effective.active()
            &&& action is Stop ==> effective is Running
        }),
{
}

/// Which parts of the run tab are shown.
#[derive(Debug, Clone, Copy, PartialEq, Eq, Structural)]
pub struct Shown {
    /// The line that says the status: not beside a start button, which says it.
    pub status_line: bool,
    /// The counts: during a run, and after one.
    pub stats: bool,
    /// The graph: once there is a round.
    pub graph: bool,
    /// What the worker is busy with: during a run, and at its end.
    pub sub_status: bool,
}

/// Which parts of the run tab are shown.
pub fn shown(effective: BotStatus, action: RowAction, round: u32) -> (shown: Shown)
    ensures
        shown.status_line == !(action is Start),
        shown.stats == (effective.active() || round > 0),
        shown.graph == (round > 0),
        shown.sub_status == (effective is Running || effective is Stopping || effective
            is Finished),
{
    let status_line = match action {
        RowAction::Start => false,
        _ => true,
    };
    let sub_status = match effective {
        BotStatus::Running | BotStatus::Stopping | BotStatus::Finished => true,
        _ => false,
    };
    Shown { status_line, stats: effective.is_active() || round > 0, graph: round > 0, sub_status }
}

/// What ends a run; a limit of zero is none.
#[derive(Debug, Clone, Copy, PartialEq, Eq, Structural)]
pub struct StopLimits {
    pub max_refreshes: u32,
    pub stop_after_minutes: u32,
    pub stop_when_mystic_medals: u32,
    pub stop_when_covenants: u32,
    pub stop_when_gold_spent: u32,
}

/// A list with `part` behind it where a limit is set.
pub open spec fn with_limit(parts: Seq<Seq<char>>, limit: u32, part: Seq<char>) -> Seq<Seq<char>> {
    if limit > 0 {
        parts.push(part)
    } else {
        parts
    }
}

/// The limits that are set, in words.
pub open spec fn limits_worded(limits: StopLimits) -> Seq<Seq<char>> {
    let none = Seq::<Seq<char>>::empty();
    let a = with_limit(
        none,
        limits.max_refreshes,
        text::decimal(limits.max_refreshes as nat) + " refreshes"@,
    );
    let b = with_limit(
        a,
        limits.stop_after_minutes,
        minutes_shown(limits.stop_after_minutes as nat),
    );
    let c = with_limit(
        b,
        limits.stop_when_mystic_medals,
        text::decimal(limits.stop_when_mystic_medals as nat) + " mystic"@,
    );
    let d = with_limit(
        c,
        limits.stop_when_covenants,
        text::decimal(limits.stop_when_covenants as nat) + " covenant"@,
    );
    with_limit(d, limits.stop_when_gold_spent, gold_shown(limits.stop_when_gold_spent as nat))
}

fn add_limit(parts: &mut Vec<String>, limit: u32, part: String)
    ensures
        text::views(final(parts)@) == with_limit(text::views(old(parts)@), limit, part@),
{
    if limit > 0 {
        let ghost before = parts@;
        parts.push(part);
        assert(text::views(parts@) =~= text::views(before).push(part@));
    }
}

fn counted(n: u32, unit: &str) -> (s: String)
    ensures
        s@ == text::decimal(n as nat) + unit@,
{
    let mut s = text::decimal_text(n as u64);
    s.append(unit);
    s
}

/// The limits that are set, in words and separated by commas.
pub fn stop_conditions_summary(limits: &StopLimits) -> (summary: String)
    ensures
        summary@ == text::joined(limits_worded(*limits), ", "@),
{
    let mut parts: Vec<String> = Vec::new();
    assert(text::views(parts@) =~= Seq::<Seq<char>>::empty());
    add_limit(&mut parts, limits.max_refreshes, counted(limits.max_refreshes, " refreshes"));
    add_limit(&mut parts, limits.stop_after_minutes, format_minutes(limits.stop_after_minutes));
    add_limit(
        &mut parts,
        limits.stop_when_mystic_medals,
        counted(limits.stop_when_mystic_medals, " mystic"),
    );
    add_limit(
        &mut parts,
        limits.stop_when_covenants,
        counted(limits.stop_when_covenants, " covenant"),
    );
    add_limit(&mut parts, limits.stop_when_gold_spent, format_gold(limits.stop_when_gold_spent));
    text::join(&parts, ", ")
}

/// Whether any limit is set.
pub open spec fn any_limit(limits: StopLimits) -> bool {
    limits.max_refreshes > 0 || limits.stop_after_minutes > 0 || limits.stop_when_mystic_medals > 0
        || limits.stop_when_covenants > 0 || limits.stop_when_gold_spent > 0
}

/// The line under the limits.
pub fn limits_line(limits: &StopLimits) -> (line: String)
    ensures
        line@ == if any_limit(*limits) {
            "Active limits: "@ + text::joined(limits_worded(*limits), ", "@)
        } else {
            "No auto-stop — manual Stop only."@
        },
{
    if limits.max_refreshes > 0 || limits.stop_after_minutes > 0
        || limits.stop_when_mystic_medals > 0 || limits.stop_when_covenants > 0
        || limits.stop_when_gold_spent > 0 {
        let mut line = "Active limits: ".to_owned();
        line.append(stop_conditions_summary(limits).as_str());
        line
    } else {
        "No auto-stop — manual Stop only.".to_owned()
    }
}

/// The summary is empty exactly where no limit is set.
pub proof fn a_summary_is_empty_without_limits(limits: StopLimits)
    ensures
        limits_worded(limits).len() == 0 <==> !any_limit(limits),
{
}

/// The count of rounds: out of how many, where that is known.
pub fn round_text(round: u32, total_rounds: u32) -> (s: String)
    ensures
        s@ == if total_rounds > 0 {
            text::decimal(round as nat) + " / "@ + text::decimal(total_rounds as nat)
        } else {
            text::decimal(round as nat)
        },
{
    let mut s = text::decimal_text(round as u64);
    if total_rounds > 0 {
        s.append(" / ");
        s.append(text::decimal_text(total_rounds as u64).as_str());
    }
    s
}

/// What the row offers, by what the run does: to stop one that runs, nothing while
/// one stops, and otherwise to start one where that can be done, the setup where
/// the window is there and something else is missing, and nothing without a
/// window. What it says goes with what it offers.
pub proof fn the_row_offers_what_can_be_done(
    effective: BotStatus,
    can_start: bool,
    has_window: bool,
    has_detector: bool,
)
    ensures
        ({
            let action = row_action(effective, can_start, has_window);
            let said = row_status(effective, can_start, has_window);
            &&& effective == BotStatus::Running ==> action is Stop && said == "Running"@
            &&& effective == BotStatus::Stopping ==> action is Nothing && said == "Stopping…"@
            &&& effective != BotStatus::Running && effective != BotStatus::Stopping ==> {
                &&& can_start ==> action is Start && said == "Ready to run"@
                &&& !can_start && has_window ==> action is OpenSetup && said == "Setup incomplete"@
                &&& !can_start && !has_window ==> action is Nothing && said
                    == "Waiting for Epic Seven"@
            }
        }),
        startable(has_window, has_detector, effective) <==> has_window && has_detector && effective
            != BotStatus::Running && effective != BotStatus::Stopping,
        button_label(RowAction::Start) == Some("Start"@) && button_label(RowAction::Stop) == Some(
            "Stop"@,
        ),
        button_label(RowAction::OpenSetup) == Some("Setup"@) && button_label(RowAction::Nothing)
            is None,
{
}

/// Every limit that is set is worded, each once and in a fixed order, and none that
/// is not: with `n` set, `n` parts. A limit counts as set exactly above zero.
pub proof fn every_limit_that_is_set_is_worded(limits: StopLimits)
    ensures
        ({
            let parts = limits_worded(limits);
            let a: int = if limits.max_refreshes > 0 { 1 } else { 0 };
            let b: int = if limits.stop_after_minutes > 0 { 1 } else { 0 };
            let c: int = if limits.stop_when_mystic_medals > 0 { 1 } else { 0 };
            let d: int = if limits.stop_when_covenants > 0 { 1 } else { 0 };
            let e: int = if limits.stop_when_gold_spent > 0 { 1 } else { 0 };
            &&& parts.len() == a + b + c + d + e
            &&& any_limit(limits) <==> a + b + c + d + e > 0
            &&& a > 0 ==> parts[0] == text::decimal(limits.max_refreshes as nat) + " refreshes"@
            &&& b > 0 ==> parts[a] == minutes_shown(limits.stop_after_minutes as nat)
            &&& c > 0 ==> parts[a + b] == text::decimal(limits.stop_when_mystic_medals as nat)
                + " mystic"@
            &&& d > 0 ==> parts[a + b + c] == text::decimal(limits.stop_when_covenants as nat)
                + " covenant"@
            &&& e > 0 ==> parts[a + b + c + d] == gold_shown(limits.stop_when_gold_spent as nat)
        }),
{
}

} // verus!

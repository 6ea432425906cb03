//! The window's own state: the run, its log, its tabs and its settings.

use arkyve_refresh_shop::gui::auto_save::{AutoSave, SaveStep};
use arkyve_refresh_shop::gui::knobs::{moved_by, Knob};
use arkyve_refresh_shop::gui::logs::{LogBuffer, LogLine, MessageVisitor, MAX_LOG_LINES};
use arkyve_refresh_shop::gui::run_view::{
    action_row, can_start, limits_line, round_text, shown, stop_conditions_summary, RowAction,
    StopLimits, Tone,
};
use arkyve_refresh_shop::gui::snapshot::BuyDragHandle;
use arkyve_refresh_shop::gui::state::{
    effective_status, BotStatus, RunHistory, SharedStats, WorkerEnd, COVENANT, MYSTIC_MEDAL,
};
use arkyve_refresh_shop::gui::updates::{
    format_download_progress, UpdateEvent, UpdateProgress, UpdateStart, UpdateState,
};
use arkyve_refresh_shop::gui::window::{
    auto_refresh_window_status, start_bot, Found, GameWindow, Launch, Upkeep, WindowPoll,
};
use arkyve_refresh_shop::level::{level_glyph, LogLevel};
use std::sync::{Arc, Mutex};

#[test]
fn a_stop_survives_the_next_round() {
    let mut stats = SharedStats::new();
    stats.round_started(1, 10);
    assert_eq!(stats.snapshot().status, BotStatus::Running);
    assert!(stats.stop_bot(true));
    stats.round_started(2, 10);
    let now = stats.snapshot();
    assert_eq!((now.status, now.round, now.total_rounds), (BotStatus::Stopping, 2, 10));
    assert!(!stats.stop_bot(false));
}

#[test]
fn each_item_counts_under_its_name() {
    let mut stats = SharedStats::new();
    stats.item_bought(MYSTIC_MEDAL);
    stats.item_bought(COVENANT);
    stats.item_bought(COVENANT);
    stats.item_bought("friendship");
    assert_eq!(stats.snapshot().items_bought, 4);
    assert_eq!(stats.bought_count(MYSTIC_MEDAL), 1);
    assert_eq!(stats.bought_count(COVENANT), 2);
    assert_eq!(stats.bought_count("friendship"), 0);
    stats.start_bot();
    assert_eq!(stats.bought_count(COVENANT), 0);
    stats.reset();
    assert_eq!(stats.snapshot().status, BotStatus::Idle);
}

#[test]
fn a_run_ends_as_its_worker_does() {
    let mut stats = SharedStats::new();
    stats.start_bot();
    stats.finished();
    stats.poll_bot(WorkerEnd::Cleanly);
    assert_eq!(stats.snapshot().status, BotStatus::Finished);
    stats.poll_bot(WorkerEnd::Panicked);
    assert_eq!(stats.snapshot().last_error.as_deref(), Some("worker thread panicked"));
    stats.failed("no window");
    stats.poll_bot(WorkerEnd::WithError("lost".to_owned()));
    let now = stats.snapshot();
    assert_eq!((now.status, now.last_error.as_deref()), (BotStatus::Failed, Some("lost")));
    stats.update(|mut stats| {
        stats.finish_reason = Some("max".to_owned());
        stats.sleep_consumed = true;
        stats
    });
    assert!(stats.consume_finish_reason());
    assert!(!stats.consume_finish_reason());
    assert!(stats.consume_sleep_flag());
    assert!(!stats.consume_sleep_flag());
}

#[test]
fn a_live_worker_is_not_idle() {
    assert_eq!(effective_status(true, BotStatus::Idle), BotStatus::Running);
    assert_eq!(effective_status(true, BotStatus::Stopping), BotStatus::Stopping);
    assert_eq!(effective_status(false, BotStatus::Idle), BotStatus::Idle);
    assert_eq!(BotStatus::Stopping.label(), "Stopping…");
    assert!(BotStatus::Stopping.is_active() && !BotStatus::Finished.is_active());
}

#[test]
fn a_round_is_sampled_once() {
    let mut stats = SharedStats::new();
    let mut history = RunHistory::default();
    history.record_run_progress(&stats.snapshot());
    assert!(history.points().is_empty());
    stats.round_started(1, 0);
    stats.item_bought(MYSTIC_MEDAL);
    history.record_run_progress(&stats.snapshot());
    history.record_run_progress(&stats.snapshot());
    assert_eq!(history.points().len(), 1);
    assert_eq!(history.points()[0].mystic, 1);
    history.clear();
    assert!(history.points().is_empty());
}

#[test]
fn the_log_keeps_its_newest_lines() {
    let mut log = LogBuffer::new();
    for i in 0..MAX_LOG_LINES + 3 {
        log.push(LogLine {
            level: LogLevel::Info,
            text: format!("{i}"),
        });
    }
    let lines = log.snapshot();
    assert_eq!(lines.len(), MAX_LOG_LINES);
    assert_eq!(lines[0].text, "3");
    log.clear();
    assert!(log.snapshot().is_empty());
}

#[test]
fn an_event_reads_as_target_message_and_fields() {
    let mut log = LogBuffer::new();
    let mut carried = MessageVisitor::default();
    carried.record("round", "3".to_owned());
    carried.record("message", "bought".to_owned());
    carried.record("item", "covenant".to_owned());
    log.on_event(LogLevel::Warn, "shop", carried);
    log.on_event(LogLevel::Info, "shop", MessageVisitor::default());
    let mut bare = MessageVisitor::default();
    bare.record("a", "1".to_owned());
    log.on_event(LogLevel::Info, "", bare);
    let texts: Vec<String> = log.snapshot().into_iter().map(|line| line.text).collect();
    assert_eq!(texts, ["shop  bought round=3 item=covenant", "shop", "a=1"]);
}

#[test]
fn the_panel_shows_what_is_grave_enough() {
    let mut log = LogBuffer::new();
    for (level, text) in [
        (LogLevel::Info, "a"),
        (LogLevel::Debug, "b"),
        (LogLevel::Error, "c"),
    ] {
        log.push(LogLine {
            level,
            text: text.to_owned(),
        });
    }
    let texts = |least| -> Vec<String> {
        let lines = log.shown_from(least);
        lines.into_iter().map(|line| line.text).collect()
    };
    assert_eq!(texts(LogLevel::Info), ["INFO   a", "ERROR  c"]);
    assert_eq!(texts(LogLevel::Trace), ["INFO   a", "DEBUG  b", "ERROR  c"]);
}

#[test]
fn severities_are_filtered_by_gravity() {
    assert!(LogLevel::Error.is_shown_from(LogLevel::Warn));
    assert!(!LogLevel::Info.is_shown_from(LogLevel::Warn));
    assert_eq!(level_glyph(LogLevel::Warn), "WARN ");
    assert_eq!(LogLevel::all().len(), 5);
}

#[test]
fn the_button_does_what_can_be_done() {
    let row = |status, has_window, has_detector| {
        action_row(status, can_start(has_window, has_detector, status), has_window)
    };
    let running = row(BotStatus::Running, true, true);
    assert_eq!((running.action, running.status), (RowAction::Stop, "Running"));
    assert_eq!(running.button, Some(("Stop", Tone::Bad)));
    assert_eq!(row(BotStatus::Stopping, true, true).button, None);
    let ready = row(BotStatus::Idle, true, true);
    assert_eq!((ready.action, ready.button), (RowAction::Start, Some(("Start", Tone::Accent))));
    let waiting = row(BotStatus::Finished, false, false);
    assert_eq!((waiting.action, waiting.status), (RowAction::Nothing, "Waiting for Epic Seven"));
    let unset = row(BotStatus::Failed, true, false);
    assert_eq!((unset.action, unset.status), (RowAction::OpenSetup, "Setup incomplete"));
    assert!(!shown(BotStatus::Idle, RowAction::Start, 0).status_line);
    assert!(!shown(BotStatus::Idle, RowAction::Start, 0).stats);
    assert!(shown(BotStatus::Finished, RowAction::Start, 3).graph);
    assert!(shown(BotStatus::Finished, RowAction::Start, 3).sub_status);
}

#[test]
fn the_limits_read_in_order() {
    let none = StopLimits {
        max_refreshes: 0,
        stop_after_minutes: 0,
        stop_when_mystic_medals: 0,
        stop_when_covenants: 0,
        stop_when_gold_spent: 0,
    };
    assert_eq!(stop_conditions_summary(&none), "");
    assert_eq!(limits_line(&none), "No auto-stop — manual Stop only.");
    let all = StopLimits {
        max_refreshes: 7,
        stop_after_minutes: 90,
        stop_when_mystic_medals: 5,
        stop_when_covenants: 6,
        stop_when_gold_spent: 500_000,
    };
    assert_eq!(
        stop_conditions_summary(&all),
        "7 refreshes, 1h30, 5 mystic, 6 covenant, 500Kg"
    );
    let one = StopLimits {
        stop_when_covenants: 6,
        ..none
    };
    assert_eq!(limits_line(&one), "Active limits: 6 covenant");
    assert_eq!(round_text(3, 10), "3 / 10");
    assert_eq!(round_text(3, 0), "3");
}

fn found(size: Option<(u32, u32)>) -> Result<Found, String> {
    Ok(Found {
        size,
        title: Some("Epic Seven".to_owned()),
    })
}

#[test]
fn a_window_is_held_while_it_is_there() {
    let mut window = GameWindow::default();
    assert!(window.shows_footer());
    let upkeep = window.try_acquire_window(found(Some((1495, 872))));
    assert_eq!(upkeep, Upkeep { adopt: true, let_go: false, rebuild: true });
    window.try_build_detector(Ok(()));
    assert!(window.has_capture() && window.has_detector() && !window.shows_footer());
    let upkeep = window.passive_recheck_window(found(Some((1495, 872))));
    assert_eq!(upkeep, Upkeep { adopt: false, let_go: false, rebuild: false });
    let upkeep = window.passive_recheck_window(found(Some((1920, 1080))));
    assert!(upkeep.rebuild);
    window.try_build_detector(Err("no templates".to_owned()));
    assert!(window.has_detector(), "the last good one stays");
    assert_eq!(window.error(), Some("no templates"));
    let upkeep = window.passive_recheck_window(Err("closed".to_owned()));
    assert!(upkeep.let_go);
    assert!(!window.has_capture() && !window.has_detector());
    assert_eq!(window.size(), None);
    window.try_build_detector(Ok(()));
    assert!(!window.has_detector(), "there is no size to build one for");
    let upkeep = window.passive_recheck_window(found(None));
    assert_eq!(upkeep, Upkeep { adopt: true, let_go: false, rebuild: false });
    window.resized((800, 600));
    assert_eq!(window.size(), Some((800, 600)));
}

#[test]
fn the_window_is_looked_for_now_and_again() {
    assert_eq!(auto_refresh_window_status(true, None), WindowPoll::Leave);
    assert_eq!(auto_refresh_window_status(false, None), WindowPoll::LookNow);
    assert_eq!(auto_refresh_window_status(false, Some(1_999)), WindowPoll::Later);
    assert_eq!(auto_refresh_window_status(false, Some(2_000)), WindowPoll::LookNow);
}

#[test]
fn a_value_stays_within_what_can_be_typed() {
    assert_eq!(Knob::PathSteps.range(), (1, 50));
    assert_eq!(Knob::PathSteps.keep(0), 1);
    assert_eq!(Knob::PathSteps.keep(17), 17);
    assert_eq!(Knob::ScrollAmount.keep(-31), -30);
    assert_eq!(moved_by(BuyDragHandle::Box), Knob::BuyOffset);
    assert_eq!(moved_by(BuyDragHandle::Line), Knob::BuyReference);
    assert_eq!(Knob::BuyOffset.keep(900), 150);
    assert!(Knob::BuyOffset.counts_thousandths());
    assert!(!Knob::Gold.counts_thousandths());
}

#[test]
fn a_run_starts_at_the_size_its_templates_have() {
    let base = (1495, 872);
    assert_eq!(start_bot(false, true, None, base), Launch::NoWindow);
    assert_eq!(start_bot(true, false, None, base), Launch::NoDetector);
    assert_eq!(start_bot(true, true, None, base), Launch::Go { resize: false });
    assert_eq!(start_bot(true, true, Some(base), base), Launch::Go { resize: false });
    assert_eq!(start_bot(true, true, Some((1, 1)), base), Launch::Go { resize: true });
}

#[test]
fn edits_are_written_once_they_settle() {
    let mut save = AutoSave::default();
    assert_eq!(save.auto_save_if_dirty(true, 0), SaveStep::Clean);
    assert_eq!(save.auto_save_if_dirty(false, 1_000), SaveStep::Wait);
    assert_eq!(save.auto_save_if_dirty(false, 1_249), SaveStep::Wait);
    assert_eq!(save.auto_save_if_dirty(false, 1_250), SaveStep::Write);
    save.written(Err("locked".to_owned()));
    assert_eq!(save.error(), Some("locked"));
    assert_eq!(save.auto_save_if_dirty(false, 1_251), SaveStep::Write);
    save.written(Ok(()));
    assert_eq!(save.error(), None);
    assert_eq!(save.auto_save_if_dirty(false, 1_300), SaveStep::Wait);
    assert_eq!(save.auto_save_if_dirty(true, 1_301), SaveStep::Clean);
}

#[test]
fn an_update_runs_once_and_can_be_tried_again() {
    let mut update = UpdateProgress::default();
    assert!(matches!(update.start_auto_update(false, Ok(())), UpdateStart::Refused));
    assert!(matches!(update.start_auto_update(true, Ok(())), UpdateStart::Install));
    assert!(matches!(update.start_auto_update(true, Ok(())), UpdateStart::Refused));
    assert!(matches!(
        update.state,
        Some(UpdateState::Downloading { bytes: 0, total: None })
    ));
    update.poll_update_progress(UpdateEvent::Verifying);
    assert!(matches!(update.state, Some(UpdateState::Verifying)));
    update.poll_update_progress(UpdateEvent::InstallingAndRestarting);
    assert!(matches!(update.state, Some(UpdateState::Installing)));
    update.poll_update_progress(UpdateEvent::Failed("bad hash".to_owned()));
    assert!(matches!(&update.state, Some(UpdateState::Failed(why)) if why == "bad hash"));
    update.retry();
    assert!(matches!(
        update.start_auto_update(true, Err("no asset".to_owned())),
        UpdateStart::Unfit(why) if why == "no asset"
    ));
    update.poll_update_progress(UpdateEvent::Verifying);
    assert!(matches!(&update.state, Some(UpdateState::Failed(_))), "nothing reports");
}

#[test]
fn an_update_says_how_it_fares() {
    let downloading = UpdateState::Downloading {
        bytes: 1_572_864,
        total: None,
    };
    assert_eq!(downloading.line(), "Downloading… 1.5 MB");
    assert_eq!(UpdateState::Verifying.line(), "Verifying…");
    assert_eq!(
        UpdateState::Installing.line(),
        "Installing — app will restart…"
    );
    assert_eq!(
        UpdateState::Failed("bad hash".to_owned()).line(),
        "Update failed: bad hash"
    );
}

#[test]
fn a_download_reads_in_megabytes() {
    assert_eq!(format_download_progress(0, None), "Downloading… 0.0 MB");
    assert_eq!(
        format_download_progress(1_572_864, Some(10_485_760)),
        "Downloading… 1.5 / 10.0 MB"
    );
    assert_eq!(format_download_progress(5, Some(0)), "Downloading… 0.0 MB");
    for bytes in [
        1u64, 52_428, 52_429, 104_857, 262_144, 786_432, 1_310_720, 16_777_217, 33_554_435,
        123_456_789, 9_999_999_999, u64::MAX,
    ] {
        let shown = bytes as f32 / (1024.0 * 1024.0);
        assert_eq!(
            format_download_progress(bytes, None),
            format!("Downloading… {shown:.1} MB"),
            "{bytes}"
        );
    }
}

#[test]
fn a_log_is_the_same_through_every_handle() {
    let one = Arc::new(Mutex::new(LogBuffer::new()));
    let other = Arc::clone(&one);
    let line = |text: &str| LogLine {
        level: LogLevel::Info,
        text: text.to_owned(),
    };
    let seen = |handle: &Mutex<LogBuffer>| -> Vec<String> {
        let lines = handle.lock().unwrap().snapshot();
        lines.into_iter().map(|line| line.text).collect()
    };
    one.lock().unwrap().push(line("a"));
    other.lock().unwrap().push(line("b"));
    assert_eq!(seen(&one), ["a", "b"]);
    assert_eq!(seen(&one), seen(&other));
    other.lock().unwrap().clear();
    assert!(seen(&one).is_empty() && seen(&other).is_empty());
    one.lock().unwrap().push(line("c"));
    assert_eq!(seen(&one), ["c"]);
    assert_eq!(seen(&other), ["c"]);
}

#[test]
fn a_run_is_the_same_through_every_handle() {
    let one = Arc::new(Mutex::new(SharedStats::new()));
    let other = Arc::clone(&one);
    one.lock().unwrap().round_started(2, 9);
    let earlier = other.lock().unwrap().snapshot();
    other.lock().unwrap().update(|mut stats| {
        stats.round += 1;
        stats
    });
    assert_eq!(earlier.round, 2);
    assert_eq!(one.lock().unwrap().snapshot().round, 3);
    assert_eq!(other.lock().unwrap().snapshot().round, 3);
    assert_eq!(one.lock().unwrap().snapshot().total_rounds, 9);
}

//! Startup and shutdown policy: where the app's files live, what a player is
//! told about retired settings, and what the process exits with.

use crate::error::Error;
use crate::level::LogLevel;
use crate::text;
use vstd::prelude::*;
use vstd::string::*;

verus! {

/// The product name.
pub const APP_NAME: &'static str = "Arkyve Refresh Shop";

/// The app's folder name, shared by all its per-user locations.
pub const APP_DIR: &'static str = "arkyve-refresh-shop";

/// A place on disk: parts to be joined, in order, onto a base, or standing on
/// their own where there is none.
#[derive(Debug, Clone, PartialEq, Eq)]
pub struct Place<P> {
    pub base: Option<P>,
    pub parts: Vec<String>,
}

impl<P> Place<P> {
    /// Whether this is `base` with two parts joined on.
    pub open spec fn is_under(self, base: P, first: Seq<char>, second: Seq<char>) -> bool {
        self.base == Some(base) && text::views(self.parts@) == seq![first, second]
    }
}

fn two_parts(first: &str, second: &str) -> (parts: Vec<String>)
    ensures
        text::views(parts@) == seq![first@, second@],
{
    let mut parts: Vec<String> = Vec::new();
    parts.push(first.to_owned());
    parts.push(second.to_owned());
    assert(text::views(parts@) =~= seq![first@, second@]);
    parts
}

fn one_part(part: &str) -> (parts: Vec<String>)
    ensures
        text::views(parts@) == seq![part@],
{
    let mut parts: Vec<String> = Vec::new();
    parts.push(part.to_owned());
    assert(text::views(parts@) =~= seq![part@]);
    parts
}

/// Where the settings live: in the app's folder under the roaming app-data, or
/// in the working directory where there is none.
pub fn config_path_from<P>(appdata: Option<P>) -> (place: Place<P>)
    ensures
        match appdata {
            Some(appdata) => place.is_under(appdata, APP_DIR@, "config.toml"@),
            None => place.base is None && text::views(place.parts@) == seq!["config.toml"@],
        },
{
    match appdata {
        Some(appdata) => Place { base: Some(appdata), parts: two_parts(APP_DIR, "config.toml") },
        None => Place { base: None, parts: one_part("config.toml") },
    }
}

/// What a first run does about its settings file.
#[derive(Debug, Clone, Copy, PartialEq, Eq, Structural)]
pub enum Seeding {
    /// There is one: it is not touched.
    Keep,
    /// Write the example, after making its folder where it has one to make.
    Write { make_folder: bool },
}

/// What a run does about its settings file: one that is there is never
/// overwritten.
pub fn seed_config_if_missing(is_there: bool, has_folder: bool) -> (seeding: Seeding)
    ensures
        seeding == if is_there {
            Seeding::Keep
        } else {
            Seeding::Write { make_folder: has_folder }
        },
{
    if is_there {
        Seeding::Keep
    } else {
        Seeding::Write { make_folder: has_folder }
    }
}

/// Where log files may live, most preferred first: under the local app-data
/// where there is one, then under the temporary directory.
pub fn log_dirs_from<P>(local_appdata: Option<P>, temp: P) -> (dirs: Vec<Place<P>>)
    ensures
        match local_appdata {
            Some(local) => dirs@.len() == 2 && dirs@[0].is_under(local, APP_DIR@, "logs"@)
                && dirs@[1].is_under(temp, APP_DIR@, "logs"@),
            None => dirs@.len() == 1 && dirs@[0].is_under(temp, APP_DIR@, "logs"@),
        },
{
    let mut dirs: Vec<Place<P>> = Vec::new();
    if let Some(local) = local_appdata {
        dirs.push(Place { base: Some(local), parts: two_parts(APP_DIR, "logs") });
    }
    dirs.push(Place { base: Some(temp), parts: two_parts(APP_DIR, "logs") });
    dirs
}

/// The app's folder under the local app-data, where that is known and names an
/// absolute path: a relative one would depend on where the app was started.
pub fn app_data_root_from<P>(local_appdata: Option<P>, is_absolute: bool) -> (root: Option<
    Place<P>,
>)
    ensures
        match root {
            Some(root) => local_appdata is Some && is_absolute && root.base == local_appdata
                && text::views(root.parts@) == seq![APP_DIR@],
            None => local_appdata is None || !is_absolute,
        },
{
    match local_appdata {
        Some(local) => {
            if is_absolute {
                Some(Place { base: Some(local), parts: one_part(APP_DIR) })
            } else {
                None
            }
        },
        None => None,
    }
}

/// What had to be done to get a log file.
pub struct LogSetup<P> {
    destination: Option<P>,
    refusals: Vec<(P, String)>,
}

impl<P> LogSetup<P> {
    /// Where the log went.
    pub closed spec fn written_to(self) -> Option<P> {
        self.destination
    }

    /// The candidates that refused, most preferred first.
    pub closed spec fn refused(self) -> Seq<(P, String)> {
        self.refusals@
    }

    /// No candidate was tried yet.
    pub fn new() -> (setup: Self)
        ensures
            setup.written_to() is None,
            setup.refused().len() == 0,
    {
        LogSetup { destination: None, refusals: Vec::new() }
    }

    /// Records what came of trying a candidate; an opened one ends the search.
    pub fn record(&mut self, dir: P, outcome: Result<(), String>) -> (done: bool)
        ensures
            done == (outcome is Ok),
            outcome is Ok ==> final(self).written_to() == Some(dir),
            outcome is Ok ==> final(self).refused() == old(self).refused(),
            outcome matches Err(error) ==> final(self).written_to() == old(self).written_to()
                && final(self).refused() == old(self).refused().push((dir, error)),
    {
        match outcome {
            Ok(_) => {
                self.destination = Some(dir);
                true
            },
            Err(error) => {
                self.refusals.push((dir, error));
                false
            },
        }
    }

    /// Where the log went; none where every candidate refused.
    pub fn destination(&self) -> (dir: Option<&P>)
        ensures
            match dir {
                Some(dir) => self.written_to() == Some(*dir),
                None => self.written_to() is None,
            },
    {
        self.destination.as_ref()
    }

    /// The candidates that refused, with why.
    pub fn refusals(&self) -> (refusals: &Vec<(P, String)>)
        ensures
            refusals@ == self.refused(),
    {
        &self.refusals
    }

    /// What is to be said of the search, and how gravely: barely anything where
    /// the first candidate opened, a warning where a later one did, and an
    /// error where none did.
    pub fn report(&self) -> (line: (LogLevel, &'static str))
        ensures
            line.0 == if self.written_to() is None {
                LogLevel::Error
            } else if self.refused().len() > 0 {
                LogLevel::Warn
            } else {
                LogLevel::Debug
            },
            line.1@ == if self.written_to() is None {
                "no log file: every candidate directory refused, so this session leaves no diagnostic trail beyond crash.log"@
            } else if self.refused().len() > 0 {
                "the preferred log directory was unusable; this run's log file is in the fallback directory"@
            } else {
                "logging to file"@
            },
    {
        match &self.destination {
            None => (
                LogLevel::Error,
                "no log file: every candidate directory refused, so this session leaves no diagnostic trail beyond crash.log",
            ),
            Some(_) => {
                if self.refusals.is_empty() {
                    (LogLevel::Debug, "logging to file")
                } else {
                    (
                        LogLevel::Warn,
                        "the preferred log directory was unusable; this run's log file is in the fallback directory",
                    )
                }
            },
        }
    }
}

/// Settings that still parse but no longer do anything, in report order: those
/// of the capture section, then those of the forward section.
pub fn retired_keys(capture: Vec<String>, forward: Vec<String>) -> (keys: Vec<String>)
    ensures
        keys@ == capture@ + forward@,
{
    let mut keys = capture;
    let mut rest = forward;
    keys.append(&mut rest);
    keys
}

/// What came of stripping the retired settings from the file.
#[derive(Debug, Clone, PartialEq, Eq)]
pub enum RetiredKeys {
    /// Nothing retired was loaded: nothing is said.
    Absent,
    /// They were in the file and have now been deleted.
    Removed(String),
    /// The rewrite failed, so they are still in the file.
    NotRewritten { keys: String, error: String },
    /// They were loaded but are gone from the file: something else rewrote it.
    AlreadyGone(String),
}

impl RetiredKeys {
    /// The decision table: `keys` is what the loaded settings still carry,
    /// `stripped` what was made of the file.
    pub fn classify(keys: &Vec<String>, stripped: Result<Option<String>, Error>) -> (outcome: Self)
        ensures
            if keys@.len() == 0 {
                outcome is Absent
            } else {
                match stripped {
                    Ok(Some(removed)) => outcome == RetiredKeys::Removed(removed),
                    Ok(None) => outcome matches RetiredKeys::AlreadyGone(gone) && gone@
                        == text::joined(text::views(keys@), ", "@),
                    Err(failure) => outcome matches RetiredKeys::NotRewritten { keys: left, error }
                        && left@ == text::joined(text::views(keys@), ", "@) && error@
                        == failure.reported(),
                }
            },
    {
        if keys.is_empty() {
            return RetiredKeys::Absent;
        }
        let still_set = text::join(keys, ", ");
        match stripped {
            Ok(Some(removed)) => RetiredKeys::Removed(removed),
            Ok(None) => RetiredKeys::AlreadyGone(still_set),
            Err(failure) => RetiredKeys::NotRewritten { keys: still_set, error: failure.report() },
        }
    }

    /// What a player is told, if anything: a warning, with the keys it is about
    /// and the error where there was one.
    pub fn report(&self) -> (warning: Option<Warning>)
        ensures
            match self {
                RetiredKeys::Absent => warning is None,
                RetiredKeys::Removed(removed) => warning matches Some(warning) && warning.line@
                    == "these config keys were already being ignored and have now been removed from config.toml; no setting of yours was changed"@
                    && warning.keys@ == removed@ && warning.error is None,
                RetiredKeys::NotRewritten { keys, error } => warning matches Some(warning)
                    && warning.line@
                    == "these config keys are accepted but ignored, and will be refused in a later release; config.toml could not be rewritten to drop them"@
                    && warning.keys@ == keys@ && (warning.error matches Some(said) && said@
                    == error@),
                RetiredKeys::AlreadyGone(keys) => warning matches Some(warning) && warning.line@
                    == "these config keys are accepted but ignored, and will be refused in a later release; they were already gone from config.toml when it was re-read, so nothing was written"@
                    && warning.keys@ == keys@ && warning.error is None,
            },
    {
        match self {
            RetiredKeys::Absent => None,
            RetiredKeys::Removed(removed) => Some(
                Warning {
                    line: "these config keys were already being ignored and have now been removed from config.toml; no setting of yours was changed",
                    keys: removed.clone(),
                    error: None,
                },
            ),
            RetiredKeys::NotRewritten { keys, error } => Some(
                Warning {
                    line: "these config keys are accepted but ignored, and will be refused in a later release; config.toml could not be rewritten to drop them",
                    keys: keys.clone(),
                    error: Some(error.clone()),
                },
            ),
            RetiredKeys::AlreadyGone(keys) => Some(
                Warning {
                    line: "these config keys are accepted but ignored, and will be refused in a later release; they were already gone from config.toml when it was re-read, so nothing was written",
                    keys: keys.clone(),
                    error: None,
                },
            ),
        }
    }
}

/// A warning about settings: what is said of them, which they are, and what
/// went wrong where something did.
#[derive(Debug, Clone, PartialEq, Eq)]
pub struct Warning {
    pub line: &'static str,
    pub keys: String,
    pub error: Option<String>,
}

/// Whether the file has to be touched at all: not where nothing retired was
/// loaded.
pub fn needs_stripping(keys: &Vec<String>) -> (yes: bool)
    ensures
        yes == (keys@.len() > 0),
{
    !keys.is_empty()
}

/// What a player is told of the retired settings, once the file was stripped of
/// them: nothing where none were loaded.
pub fn strip_and_report_retired_keys(
    keys: &Vec<String>,
    stripped: Result<Option<String>, Error>,
) -> (warning: Option<Warning>)
    ensures
        warning is None <==> keys@.len() == 0,
        warning matches Some(warning) ==> match stripped {
            Ok(Some(removed)) => warning.line@
                == "these config keys were already being ignored and have now been removed from config.toml; no setting of yours was changed"@
                && warning.keys@ == removed@ && warning.error is None,
            Ok(None) => warning.line@
                == "these config keys are accepted but ignored, and will be refused in a later release; they were already gone from config.toml when it was re-read, so nothing was written"@
                && warning.keys@ == text::joined(text::views(keys@), ", "@) && warning.error is None,
            Err(failure) => warning.line@
                == "these config keys are accepted but ignored, and will be refused in a later release; config.toml could not be rewritten to drop them"@
                && warning.keys@ == text::joined(text::views(keys@), ", "@)
                && (warning.error matches Some(said) && said@ == failure.reported()),
        },
{
    RetiredKeys::classify(keys, stripped).report()
}

/// What the process exits with where it succeeded.
pub const EXIT_SUCCESS: u8 = 0;

/// What the process exits with where it failed.
pub const EXIT_FAILURE: u8 = 1;

/// Success needs both a window that closed cleanly and a session that did not
/// die.
pub fn exit_code(window_closed_cleanly: bool, session_failed: bool) -> (code: u8)
    ensures
        code == if window_closed_cleanly && !session_failed {
            EXIT_SUCCESS
        } else {
            EXIT_FAILURE
        },
{
    if window_closed_cleanly && !session_failed {
        EXIT_SUCCESS
    } else {
        EXIT_FAILURE
    }
}

/// How a process ends: what it exits with and what it says on its error stream.
#[derive(Debug, Clone, PartialEq, Eq)]
pub struct Ending {
    pub code: u8,
    pub said: Option<String>,
}

/// How a process without a window ends. A session that had to be abandoned is a
/// failed session, and one that left no verdict says so on the terminal.
pub fn console_ending(
    verdict: Option<Result<(), Error>>,
    abandoned: bool,
    grace_secs: u64,
) -> (ending: Ending)
    ensures
        match verdict {
            Some(Ok(_)) => ending.said is None && ending.code == if abandoned {
                EXIT_FAILURE
            } else {
                EXIT_SUCCESS
            },
            Some(Err(error)) => ending.code == EXIT_FAILURE && (ending.said matches Some(said)
                && said@ == "Fatal error: "@ + error.reported()),
            None => ending.code == (if abandoned {
                EXIT_FAILURE
            } else {
                EXIT_SUCCESS
            }) && (ending.said matches Some(said) && said@ == "The session did not finish within "@
                + text::decimal(grace_secs as nat)
                + " s of being asked to stop; exiting anyway."@),
        },
{
    match verdict {
        Some(Ok(_)) => Ending { code: exit_code(true, abandoned), said: None },
        Some(Err(error)) => {
            let mut said = "Fatal error: ".to_owned();
            said.append(error.report().as_str());
            Ending { code: exit_code(true, true), said: Some(said) }
        },
        None => {
            let mut said = "The session did not finish within ".to_owned();
            said.append(text::decimal_text(grace_secs).as_str());
            said.append(" s of being asked to stop; exiting anyway.");
            Ending { code: exit_code(true, abandoned), said: Some(said) }
        },
    }
}

/// How a process with a window ends.
pub fn window_ending(window: Result<(), String>, session_failed: bool, abandoned: bool) -> (ending:
    Ending)
    ensures
        match window {
            Ok(_) => ending.said is None && ending.code == if session_failed || abandoned {
                EXIT_FAILURE
            } else {
                EXIT_SUCCESS
            },
            Err(error) => ending.code == EXIT_FAILURE && (ending.said matches Some(said) && said@
                == "GUI error: "@ + error@),
        },
{
    let failed = session_failed || abandoned;
    match window {
        Ok(_) => Ending { code: exit_code(true, failed), said: None },
        Err(error) => {
            let mut said = "GUI error: ".to_owned();
            said.append(error.as_str());
            Ending { code: exit_code(false, failed), said: Some(said) }
        },
    }
}

/// What the journal of a run without a log file opens with.
pub fn no_log_file_line(has_log_file: bool) -> (line: Option<&'static str>)
    ensures
        match line {
            Some(line) => !has_log_file && line@
                == ">> no log file could be opened — this session leaves no diagnostic trail (see Troubleshooting in the README)"@,
            None => has_log_file,
        },
{
    if has_log_file {
        None
    } else {
        Some(
            ">> no log file could be opened — this session leaves no diagnostic trail (see Troubleshooting in the README)",
        )
    }
}

/// What a player is shown whose settings are invalid.
pub fn invalid_config_message(error: &Error, path: &str) -> (message: String)
    ensures
        message@ == "Invalid configuration: "@ + error.reported() + "\n\nFix "@ + path@
            + " and restart."@,
{
    let mut message = "Invalid configuration: ".to_owned();
    message.append(error.report().as_str());
    message.append("\n\nFix ");
    message.append(path);
    message.append(" and restart.");
    message
}

} // verus!

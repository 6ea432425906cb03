//! Fetching the capture driver's installer for a player who has none: one
//! pinned file, checked byte for byte, and launched while the checked file is
//! still held open.
//!
//! The decisions are here. What touches the disk, the network or a process is
//! asked for step by step, and what came of it leads to the next step.

use crate::text;
use vstd::prelude::*;
use vstd::string::*;

verus! {

/// Ceiling on the download, in seconds.
pub const FETCH_TIMEOUT_SECS: u32 = 120;

/// Name prefix of the directory that the installer is staged in.
pub const STAGING_PREFIX: &'static str = "arkyve-npcap-staging-";

/// The permissions that the staging directory is clamped to: protected, so
/// nothing is inherited, and full access for administrators and the system
/// alone.
pub const STAGING_DACL: &'static str = "D:P(A;OICI;FA;;;BA)(A;OICI;FA;;;SY)";

/// The one build that may be launched.
#[derive(Debug, Clone, PartialEq, Eq)]
pub struct Pin {
    pub url: String,
    pub bytes: u64,
    pub sha256: [u8; 32],
    pub file_name: String,
}

/// What the window shows while this runs.
#[derive(Debug, PartialEq, Eq)]
pub enum Progress {
    /// Nothing started.
    Idle,
    /// Downloading.
    Fetching,
    /// Downloaded; checking before anything is executed.
    Checking,
    /// The installer owns the screen now.
    Launched,
    /// Launched, and then the restart that the window offers did not happen.
    RestartFailed(String),
    /// Gave up before anything was launched.
    Failed(String),
}

/// A progress by its text.
pub enum Stage {
    Idle,
    Fetching,
    Checking,
    Launched,
    RestartFailed(Seq<char>),
    Failed(Seq<char>),
}

impl View for Progress {
    type V = Stage;

    open spec fn view(&self) -> Stage {
        match self {
            Progress::Idle => Stage::Idle,
            Progress::Fetching => Stage::Fetching,
            Progress::Checking => Stage::Checking,
            Progress::Launched => Stage::Launched,
            Progress::RestartFailed(reason) => Stage::RestartFailed(reason@),
            Progress::Failed(reason) => Stage::Failed(reason@),
        }
    }
}

impl Default for Progress {
    fn default() -> (progress: Self)
        ensures
            progress@ == Stage::Idle,
    {
        Progress::Idle
    }
}

impl Clone for Progress {
    fn clone(&self) -> (copy: Self)
        ensures
            copy@ == self@,
    {
        match self {
            Progress::Idle => Progress::Idle,
            Progress::Fetching => Progress::Fetching,
            Progress::Checking => Progress::Checking,
            Progress::Launched => Progress::Launched,
            Progress::RestartFailed(reason) => Progress::RestartFailed(reason.as_str().to_owned()),
            Progress::Failed(reason) => Progress::Failed(reason.as_str().to_owned()),
        }
    }
}

impl Stage {
    /// Nothing is in flight and nothing was launched.
    pub open spec fn accepts_a_start(self) -> bool {
        self is Idle || self is Failed
    }
}

/// Whether a fetch may start from here: not while one is in flight, and not
/// once an installer was launched.
pub fn accepts_a_start(progress: &Progress) -> (yes: bool)
    ensures
        yes == progress@.accepts_a_start(),
{
    match progress {
        Progress::Idle | Progress::Failed(_) => true,
        Progress::Fetching | Progress::Checking => false,
        Progress::Launched | Progress::RestartFailed(_) => false,
    }
}

/// The cell that the window reads and the worker writes.
pub struct Fetcher {
    progress: Progress,
}

impl View for Fetcher {
    type V = Stage;

    closed spec fn view(&self) -> Stage {
        self.progress@
    }
}

impl Default for Fetcher {
    fn default() -> (fetcher: Self)
        ensures
            fetcher@ == Stage::Idle,
    {
        Fetcher { progress: Progress::Idle }
    }
}

impl Fetcher {
    #[must_use]
    pub fn new() -> (fetcher: Self)
        ensures
            fetcher@ == Stage::Idle,
    {
        Fetcher::default()
    }

    /// Current step, for the button's label.
    #[must_use]
    pub fn progress(&self) -> (progress: Progress)
        ensures
            progress@ == self@,
    {
        self.progress.clone()
    }

    /// Records a failed relaunch: not a failed download, whose remedy would be
    /// a second installer.
    pub fn restart_failed(&mut self, reason: String)
        ensures
            final(self)@ == Stage::RestartFailed(reason@),
    {
        self.set(Progress::RestartFailed(reason));
    }

    /// Records a step.
    pub fn set(&mut self, next: Progress)
        ensures
            final(self)@ == next@,
    {
        self.progress = next;
    }

    /// Takes the fetch if it is there to take. `true` means that the caller
    /// owns it now, and nobody else can take it.
    pub fn claim(&mut self) -> (won: bool)
        ensures
            won == old(self)@.accepts_a_start(),
            final(self)@ == if won {
                Stage::Fetching
            } else {
                old(self)@
            },
    {
        if !accepts_a_start(&self.progress) {
            return false;
        }
        self.progress = Progress::Fetching;
        true
    }

    /// Starts a fetch, unless one is in flight or an installer was launched: a
    /// worker is to run the [`Errand`] that begins here.
    pub fn start(&mut self) -> (errand: Option<Errand>)
        ensures
            errand is Some == old(self)@.accepts_a_start(),
            final(self)@ == if errand is Some {
                Stage::Fetching
            } else {
                old(self)@
            },
            errand matches Some(errand) ==> errand@ == Run::begun(),
    {
        if self.claim() {
            Some(Errand::begin())
        } else {
            None
        }
    }

    /// The worker could not be started.
    pub fn worker_refused(&mut self, error: &str)
        ensures
            final(self)@ == Stage::Failed("could not start the download: "@ + error@),
    {
        let mut reason = "could not start the download: ".to_owned();
        reason.append(error);
        self.set(Progress::Failed(reason));
    }
}

/// Of any two claims with nothing between them, at most one wins.
pub proof fn a_claim_is_won_once(before: Stage, between: Stage, first: bool)
    requires
        first == before.accepts_a_start(),
        between == if first {
            Stage::Fetching
        } else {
            before
        },
    ensures
        !between.accepts_a_start(),
{
}

/// What the worker is to do next.
#[derive(Debug, Clone, Copy, PartialEq, Eq, Structural)]
pub enum Step {
    /// Create and clamp the staging directory.
    Stage,
    /// Open what is at the target, denying everyone else a write.
    OpenExisting,
    /// Check the open file.
    CheckExisting,
    /// Let go of the file, if one is held, and delete what is at the target.
    RemoveStale,
    Download,
    /// Write the download to a file that is created by the write.
    WriteNew,
    /// Open the written file, denying everyone else a write.
    Reopen,
    /// Check the open file.
    CheckFresh,
    /// Let go of the file and delete it.
    Discard,
    /// Launch the held file, then let go of it.
    Launch,
    Finished,
}

/// A worker's errand under way.
pub struct Run {
    pub step: Step,
    /// A handle to the target is open that denies writing, replacing and
    /// deleting it.
    pub holds: bool,
    /// What the handle holds was found to be the pinned build.
    pub checked: bool,
    /// Why the file is discarded.
    pub reason: Seq<char>,
}

impl Run {
    /// Nothing was done yet.
    pub open spec fn begun() -> Self {
        Run { step: Step::Stage, holds: false, checked: false, reason: Seq::empty() }
    }

    /// At another step, holding nothing.
    pub open spec fn to(self, step: Step) -> Self {
        Run { step, holds: false, checked: false, ..self }
    }

    /// At another step, holding a file that was, or was not, checked.
    pub open spec fn holding(self, step: Step, checked: bool) -> Self {
        Run { step, holds: true, checked, ..self }
    }

    /// What an outcome of the step at hand leads to, and what it puts in the
    /// window.
    pub open spec fn after(self, outcome: Result<(), String>) -> (Run, Option<Stage>) {
        let done = self.to(Step::Finished);
        match self.step {
            Step::Stage => match outcome {
                Ok(_) => (self.to(Step::OpenExisting), None),
                Err(reason) => (done, Some(Stage::Failed(reason@))),
            },
            Step::OpenExisting => match outcome {
                Ok(_) => (self.holding(Step::CheckExisting, false), None),
                Err(_) => (self.to(Step::RemoveStale), None),
            },
            Step::CheckExisting => match outcome {
                Ok(_) => (self.holding(Step::Launch, true), Some(Stage::Checking)),
                Err(_) => (self.to(Step::RemoveStale), None),
            },
            Step::RemoveStale => (self.to(Step::Download), None),
            Step::Download => match outcome {
                Ok(_) => (self.to(Step::WriteNew), Some(Stage::Checking)),
                Err(reason) => (done, Some(Stage::Failed(reason@))),
            },
            Step::WriteNew => match outcome {
                Ok(_) => (self.to(Step::Reopen), None),
                Err(reason) => (done, Some(Stage::Failed(reason@))),
            },
            Step::Reopen => match outcome {
                Ok(_) => (self.holding(Step::CheckFresh, false), None),
                Err(error) => (
                    done,
                    Some(
                        Stage::Failed(
                            "the downloaded installer could not be re-opened: "@ + error@,
                        ),
                    ),
                ),
            },
            Step::CheckFresh => match outcome {
                Ok(_) => (self.holding(Step::Launch, true), None),
                Err(reason) => (Run { reason: reason@, ..self.to(Step::Discard) }, None),
            },
            Step::Discard => (done, Some(Stage::Failed(self.reason))),
            Step::Launch => match outcome {
                Ok(_) => (done, Some(Stage::Launched)),
                Err(error) => (
                    done,
                    Some(
                        Stage::Failed(
                            "the installer downloaded but would not start: "@ + error@,
                        ),
                    ),
                ),
            },
            Step::Finished => (self, None),
        }
    }
}

/// A worker's errand: fetch, check, launch.
pub struct Errand {
    step: Step,
    holds: bool,
    checked: bool,
    reason: String,
}

impl View for Errand {
    type V = Run;

    closed spec fn view(&self) -> Run {
        Run { step: self.step, holds: self.holds, checked: self.checked, reason: self.reason@ }
    }
}

fn said(first: &str, error: &String) -> (s: String)
    ensures
        s@ == first@ + error@,
{
    let mut s = first.to_owned();
    s.append(error.as_str());
    s
}

impl Errand {
    /// Nothing was done yet.
    pub fn begin() -> (errand: Self)
        ensures
            errand@ == Run::begun(),
    {
        let reason = "".to_owned();
        proof {
            reveal_strlit("");
            assert(reason@ =~= Seq::empty());
        }
        Errand { step: Step::Stage, holds: false, checked: false, reason }
    }

    /// What to do next.
    pub fn step(&self) -> (step: Step)
        ensures
            step == self@.step,
    {
        self.step
    }

    /// Whether the handle to the target is open.
    pub fn holds(&self) -> (holds: bool)
        ensures
            holds == self@.holds,
    {
        self.holds
    }

    fn go(&mut self, step: Step)
        ensures
            final(self)@ == old(self)@.to(step),
    {
        self.step = step;
        self.holds = false;
        self.checked = false;
    }

    fn hold(&mut self, step: Step, checked: bool)
        ensures
            final(self)@ == old(self)@.holding(step, checked),
    {
        self.step = step;
        self.holds = true;
        self.checked = checked;
    }

    fn fail(&mut self, reason: String) -> (shown: Option<Progress>)
        ensures
            final(self)@ == old(self)@.to(Step::Finished),
            shown matches Some(progress) && progress@ == Stage::Failed(reason@),
    {
        self.go(Step::Finished);
        Some(Progress::Failed(reason))
    }

    /// Takes what came of the step at hand, moves on, and gives what the window
    /// is to show, where that changes.
    pub fn next(&mut self, outcome: Result<(), String>) -> (shown: Option<Progress>)
        ensures
            final(self)@ == old(self)@.after(outcome).0,
            match shown {
                Some(progress) => old(self)@.after(outcome).1 == Some(progress@),
                None => old(self)@.after(outcome).1 is None,
            },
    {
        match (self.step, outcome) {
            (Step::Stage, Ok(_)) => {
                self.go(Step::OpenExisting);
                None
            },
            (Step::OpenExisting, Ok(_)) => {
                self.hold(Step::CheckExisting, false);
                None
            },
            (Step::OpenExisting, Err(_)) | (Step::CheckExisting, Err(_)) => {
                self.go(Step::RemoveStale);
                None
            },
            (Step::CheckExisting, Ok(_)) => {
                self.hold(Step::Launch, true);
                Some(Progress::Checking)
            },
            (Step::RemoveStale, _) => {
                self.go(Step::Download);
                None
            },
            (Step::Download, Ok(_)) => {
                self.go(Step::WriteNew);
                Some(Progress::Checking)
            },
            (Step::WriteNew, Ok(_)) => {
                self.go(Step::Reopen);
                None
            },
            (Step::Stage, Err(reason)) | (Step::Download, Err(reason)) | (
                Step::WriteNew,
                Err(reason),
            ) => self.fail(reason),
            (Step::Reopen, Ok(_)) => {
                self.hold(Step::CheckFresh, false);
                None
            },
            (Step::Reopen, Err(error)) => {
                let reason = said("the downloaded installer could not be re-opened: ", &error);
                self.fail(reason)
            },
            (Step::CheckFresh, Ok(_)) => {
                self.hold(Step::Launch, true);
                None
            },
            (Step::CheckFresh, Err(reason)) => {
                self.go(Step::Discard);
                self.reason = reason;
                None
            },
            (Step::Discard, _) => {
                let reason = self.reason.as_str().to_owned();
                self.fail(reason)
            },
            (Step::Launch, Ok(_)) => {
                self.go(Step::Finished);
                Some(Progress::Launched)
            },
            (Step::Launch, Err(error)) => {
                let reason = said("the installer downloaded but would not start: ", &error);
                self.fail(reason)
            },
            (Step::Finished, _) => None,
        }
    }
}

/// What every reachable state of an errand holds: a launch is due only while
/// the handle is held through which the file was found to be the pinned build;
/// and whatever deletes, writes or downloads holds nothing.
pub open spec fn pinned(run: Run) -> bool {
    &&& run.step is Launch ==> run.holds && run.checked
    &&& run.checked ==> run.holds
    &&& run.step is CheckExisting || run.step is CheckFresh ==> run.holds && !run.checked
    &&& !(run.step is Launch || run.step is CheckExisting || run.step is CheckFresh)
        ==> !run.holds
}

/// Only the checked file is launched, through the handle that it was checked
/// through: an errand starts out so, every outcome keeps it so, and the window
/// is told of a launch only by a launch that succeeded.
pub proof fn only_the_checked_file_is_launched(run: Run, outcome: Result<(), String>)
    requires
        pinned(run),
    ensures
        pinned(Run::begun()),
        pinned(run.after(outcome).0),
        run.after(outcome).1 == Some(Stage::Launched) ==> run.step is Launch && run.holds
            && run.checked && outcome is Ok,
        run.after(outcome).0.step is Launch ==> outcome is Ok && (run.step is CheckExisting
            || run.step is CheckFresh),
{
}

/// A file that failed its check is never left behind: the next step deletes
/// it, and nothing is held that would keep it from being deleted.
pub proof fn a_refused_file_is_deleted(run: Run, reason: String)
    requires
        run.step is CheckExisting || run.step is CheckFresh,
    ensures
        ({
            let next = run.after(Err(reason)).0;
            (next.step is RemoveStale || next.step is Discard) && !next.holds
        }),
{
}

/// How many more steps an errand can take at most.
pub open spec fn steps_left(step: Step) -> nat {
    match step {
        Step::Stage => 10,
        Step::OpenExisting => 9,
        Step::CheckExisting => 8,
        Step::RemoveStale => 7,
        Step::Download => 6,
        Step::WriteNew => 5,
        Step::Reopen => 4,
        Step::CheckFresh => 3,
        Step::Discard => 2,
        Step::Launch => 1,
        Step::Finished => 0,
    }
}

/// Every errand ends: whatever comes of a step, fewer are left.
pub proof fn every_errand_ends(run: Run, outcome: Result<(), String>)
    requires
        !(run.step is Finished),
    ensures
        steps_left(run.after(outcome).0.step) < steps_left(run.step),
{
}

/// An errand that ends tells the window so, by a failure or a launch, from
/// which a new one may start or may not.
pub proof fn an_ended_errand_says_so(run: Run, outcome: Result<(), String>)
    requires
        !(run.step is Finished),
        run.after(outcome).0.step is Finished,
    ensures
        run.after(outcome).1 matches Some(stage) && (stage is Launched || stage is Failed),
{
}

/// What the staging directory is to be put through next.
#[derive(Debug, Clone, Copy, PartialEq, Eq, Structural)]
pub enum Staging {
    /// Delete the staging directories of earlier runs.
    Sweep,
    /// Create the directory, and refuse one that is there already.
    Create,
    /// Clamp its permissions, and refuse anything but a plain directory.
    Secure,
    /// Ask whether anything is in it.
    ReadBack,
    /// Delete the directory, which is empty.
    RemoveEmpty,
    /// Delete the directory and whatever is in it.
    RemoveAll,
    Ready,
    Refused,
}

/// What a step leads to, and the refusal that it starts. The flag of a success
/// says whether something was found; only [`Staging::ReadBack`] looks.
pub open spec fn staged(step: Staging, outcome: Result<bool, String>) -> (
    Staging,
    Option<Seq<char>>,
) {
    let nothing = "); nothing was downloaded"@;
    match step {
        Staging::Sweep => (Staging::Create, None),
        Staging::Create => match outcome {
            Ok(_) => (Staging::Secure, None),
            Err(error) => (
                Staging::Refused,
                Some(
                    "the installer's download directory could not be created ("@ + error@ + nothing,
                ),
            ),
        },
        Staging::Secure => match outcome {
            Ok(_) => (Staging::ReadBack, None),
            Err(error) => (
                Staging::RemoveEmpty,
                Some(
                    "the installer's download directory could not be secured ("@ + error@ + nothing,
                ),
            ),
        },
        Staging::ReadBack => match outcome {
            Ok(false) => (Staging::Ready, None),
            Ok(true) => (
                Staging::RemoveAll,
                Some(
                    "something was written into the installer's download directory as it was being created; nothing was downloaded"@,
                ),
            ),
            Err(error) => (
                Staging::RemoveAll,
                Some(
                    "the installer's download directory could not be read back ("@ + error@
                        + nothing,
                ),
            ),
        },
        Staging::RemoveEmpty | Staging::RemoveAll | Staging::Refused => (Staging::Refused, None),
        Staging::Ready => (Staging::Ready, None),
    }
}

fn bracketed(first: &str, error: &String) -> (s: String)
    ensures
        s@ == first@ + error@ + "); nothing was downloaded"@,
{
    let mut s = first.to_owned();
    s.append(error.as_str());
    s.append("); nothing was downloaded");
    s
}

/// Takes what came of a step on the staging directory, and gives the next one
/// and the refusal that it starts.
pub fn prepare_staging(step: Staging, outcome: Result<bool, String>) -> (next: (
    Staging,
    Option<String>,
))
    ensures
        next.0 == staged(step, outcome).0,
        match next.1 {
            Some(reason) => staged(step, outcome).1 == Some(reason@),
            None => staged(step, outcome).1 is None,
        },
{
    match (step, outcome) {
        (Staging::Sweep, _) => (Staging::Create, None),
        (Staging::Create, Ok(_)) => (Staging::Secure, None),
        (Staging::Create, Err(error)) => (
            Staging::Refused,
            Some(bracketed("the installer's download directory could not be created (", &error)),
        ),
        (Staging::Secure, Ok(_)) => (Staging::ReadBack, None),
        (Staging::Secure, Err(error)) => (
            Staging::RemoveEmpty,
            Some(bracketed("the installer's download directory could not be secured (", &error)),
        ),
        (Staging::ReadBack, Ok(false)) => (Staging::Ready, None),
        (Staging::ReadBack, Ok(true)) => (
            Staging::RemoveAll,
            Some(
                "something was written into the installer's download directory as it was being created; nothing was downloaded".to_owned(),
            ),
        ),
        (Staging::ReadBack, Err(error)) => (
            Staging::RemoveAll,
            Some(bracketed("the installer's download directory could not be read back (", &error)),
        ),
        (Staging::RemoveEmpty, _) | (Staging::RemoveAll, _) | (Staging::Refused, _) => (
            Staging::Refused,
            None,
        ),
        (Staging::Ready, _) => (Staging::Ready, None),
    }
}

/// A staging directory is ready only once it was read back empty, and it is
/// read back only once it was secured, and secured only once it was created.
pub proof fn a_ready_directory_was_secured_and_empty(step: Staging, outcome: Result<bool, String>)
    ensures
        staged(step, outcome).0 is Ready ==> step is Ready || (step is ReadBack && outcome
            == Ok::<bool, String>(false)),
        staged(step, outcome).0 is ReadBack ==> step is Secure && outcome is Ok,
        staged(step, outcome).0 is Secure ==> step is Create && outcome is Ok,
{
}

/// The name of the staging directory of one run.
pub fn staging_name(process: u32, stamp: u128) -> (name: String)
    ensures
        name@ == STAGING_PREFIX@ + text::decimal(process as nat) + "-"@ + text::hexadecimal(
            stamp as nat,
        ),
{
    let mut name = STAGING_PREFIX.to_owned();
    name.append(text::decimal_text(process as u64).as_str());
    name.append("-");
    name.append(text::hex_text(stamp).as_str());
    name
}

/// Whether an entry beside the staging directory is an earlier run's: it has
/// the prefix, and it is not this run's.
pub fn sweep_old_staging(name: &str, is_current: bool) -> (swept: bool)
    ensures
        swept == (text::begins_with(name@, STAGING_PREFIX@) && !is_current),
{
    let chars = text::chars_of(name);
    text::starts_with(&chars, STAGING_PREFIX) && !is_current
}

/// Every staging directory that another run made is swept.
pub proof fn an_earlier_run_is_swept(process: u32, stamp: u128)
    ensures
        text::begins_with(
            STAGING_PREFIX@ + text::decimal(process as nat) + "-"@ + text::hexadecimal(
                stamp as nat,
            ),
            STAGING_PREFIX@,
        ),
{
    let name = STAGING_PREFIX@ + text::decimal(process as nat) + "-"@ + text::hexadecimal(
        stamp as nat,
    );
    assert(name.take(STAGING_PREFIX@.len() as int) =~= STAGING_PREFIX@);
}

/// The arguments of the downloader. That it reads no settings file of its own
/// is asked first, where alone that takes.
pub open spec fn download_arguments(pin: Pin) -> Seq<Seq<char>> {
    seq![
        "--disable"@,
        "--fail"@,
        "--silent"@,
        "--show-error"@,
        "--location"@,
        "--max-time"@,
        text::decimal(FETCH_TIMEOUT_SECS as nat),
        "--max-filesize"@,
        text::decimal(pin.bytes as nat),
        pin.url@,
    ]
}

/// The arguments that the downloader is run with.
pub fn arguments(pin: &Pin) -> (list: Vec<String>)
    ensures
        text::views(list@) == download_arguments(*pin),
{
    let mut list: Vec<String> = Vec::new();
    list.push("--disable".to_owned());
    list.push("--fail".to_owned());
    list.push("--silent".to_owned());
    list.push("--show-error".to_owned());
    list.push("--location".to_owned());
    list.push("--max-time".to_owned());
    list.push(text::decimal_text(FETCH_TIMEOUT_SECS as u64));
    list.push("--max-filesize".to_owned());
    list.push(text::decimal_text(pin.bytes));
    list.push(pin.url.as_str().to_owned());
    assert(text::views(list@) =~= download_arguments(*pin));
    list
}

/// What came of running the downloader.
#[derive(Debug)]
pub enum Fetched {
    /// There is no downloader on this machine.
    NoDownloader,
    /// It could not be started.
    NotStarted(String),
    /// It ran, with its exit code where it had one, and printed this.
    Exited { success: bool, code: Option<i32>, printed: Vec<u8> },
}

/// The number that an exit is reported by.
pub open spec fn exit_number(code: Option<i32>) -> int {
    match code {
        Some(code) => code as int,
        None => -1,
    }
}

/// The downloaded bytes, or what the player is told.
pub fn download(fetched: Fetched) -> (bytes: Result<Vec<u8>, String>)
    ensures
        match (fetched, bytes) {
            (Fetched::NoDownloader, Err(said)) => said@
                == "this Windows has no curl.exe to download with"@,
            (Fetched::NotStarted(error), Err(said)) => said@
                == "the download could not be started: "@ + error@,
            (Fetched::Exited { success, code, printed }, Ok(bytes)) => success && bytes == printed,
            (Fetched::Exited { success, code, printed }, Err(said)) => !success && said@
                == "the download failed (curl exit "@ + text::signed_decimal(exit_number(code))
                + "). The address is in the log."@,
            (_, Ok(_)) => false,
        },
{
    match fetched {
        Fetched::NoDownloader => Err("this Windows has no curl.exe to download with".to_owned()),
        Fetched::NotStarted(error) => Err(said("the download could not be started: ", &error)),
        Fetched::Exited { success, code, printed } => {
            if success {
                return Ok(printed);
            }
            let number: i64 = match code {
                Some(code) => code as i64,
                None => -1,
            };
            let mut reason = "the download failed (curl exit ".to_owned();
            reason.append(text::signed_text(number).as_str());
            reason.append("). The address is in the log.");
            Err(reason)
        },
    }
}

/// Where writing the installer failed.
#[derive(Debug)]
pub enum Unwritten {
    /// The file could not be created; something is there, or it is not allowed.
    NotCreated { path: String, error: String },
    /// It was created, and the bytes did not go in.
    NotFilled(String),
}

/// Whether the installer was written, or what the player is told.
pub fn write_new(written: Result<(), Unwritten>) -> (outcome: Result<(), String>)
    ensures
        match (written, outcome) {
            (Ok(_), Ok(_)) => true,
            (Err(Unwritten::NotCreated { path, error }), Err(said)) => said@
                == "the installer could not be written to "@ + path@ + ": "@ + error@,
            (Err(Unwritten::NotFilled(error)), Err(said)) => said@
                == "the installer could not be written: "@ + error@,
            _ => false,
        },
{
    match written {
        Ok(_) => Ok(()),
        Err(Unwritten::NotCreated { path, error }) => {
            let mut reason = said("the installer could not be written to ", &path);
            reason.append(": ");
            reason.append(error.as_str());
            Err(reason)
        },
        Err(Unwritten::NotFilled(error)) => Err(
            said("the installer could not be written: ", &error),
        ),
    }
}

/// The first half of a file's check: `Ok` only for a file of the pinned size.
/// Nothing of another file is read.
pub fn verify_size(size: Result<u64, String>, pin: &Pin) -> (outcome: Result<(), String>)
    ensures
        match (size, outcome) {
            (Ok(size), Ok(_)) => size == pin.bytes,
            (Ok(size), Err(said)) => size != pin.bytes && said@ == "the download is "@
                + text::decimal(size as nat) + " bytes, not the expected "@ + text::decimal(
                pin.bytes as nat,
            ) + " — it is not the installer"@,
            (Err(error), Err(said)) => said@ == "the downloaded file could not be read: "@ + error@,
            (Err(_), Ok(_)) => false,
        },
{
    match size {
        Err(error) => Err(said("the downloaded file could not be read: ", &error)),
        Ok(size) => {
            if size == pin.bytes {
                return Ok(());
            }
            let mut reason = "the download is ".to_owned();
            reason.append(text::decimal_text(size).as_str());
            reason.append(" bytes, not the expected ");
            reason.append(text::decimal_text(pin.bytes).as_str());
            reason.append(" — it is not the installer");
            Err(reason)
        },
    }
}

fn same_digest(a: &[u8; 32], b: &[u8; 32]) -> (same: bool)
    ensures
        same == (a@ == b@),
{
    for i in 0..32usize
        invariant
            forall|j: int| 0 <= j < i ==> a@[j] == b@[j],
    {
        if a[i] != b[i] {
            return false;
        }
    }
    assert(a@ =~= b@);
    true
}

/// The second half of a file's check, on the digest of what was read: `Ok`
/// only for the pinned digest.
pub fn verify_digest(digest: Result<[u8; 32], String>, pin: &Pin) -> (outcome: Result<(), String>)
    ensures
        match (digest, outcome) {
            (Ok(digest), Ok(_)) => digest@ == pin.sha256@,
            (Ok(digest), Err(said)) => digest@ != pin.sha256@ && said@
                == "the download does not match the expected installer and was discarded"@,
            (Err(error), Err(said)) => said@ == "the downloaded file could not be read: "@ + error@,
            (Err(_), Ok(_)) => false,
        },
{
    match digest {
        Err(error) => Err(said("the downloaded file could not be read: ", &error)),
        Ok(digest) => {
            if same_digest(&digest, &pin.sha256) {
                Ok(())
            } else {
                Err(
                    "the download does not match the expected installer and was discarded".to_owned(),
                )
            }
        },
    }
}

/// A fetch may start where none was tried yet, and again after one that failed;
/// never while one is under way, nor once an installer was launched.
pub proof fn a_fetch_starts_again_only_after_a_failure(stage: Stage)
    ensures
        stage.accepts_a_start() <==> match stage {
            Stage::Idle | Stage::Failed(_) => true,
            Stage::Fetching | Stage::Checking | Stage::Launched | Stage::RestartFailed(_) => false,
        },
{
}

/// An errand where every step succeeds launches what is there already, once it was
/// found to be the pinned build, and downloads nothing.
pub proof fn a_good_file_is_launched_as_it_is()
    ensures
        ({
            let good = Ok::<(), String>(());
            let staged = Run::begun().after(good);
            let opened = staged.0.after(good);
            let checked = opened.0.after(good);
            let launched = checked.0.after(good);
            &&& Run::begun().step is Stage
            &&& staged.0.step is OpenExisting && staged.1 is None
            &&& opened.0.step is CheckExisting && opened.1 is None
            &&& checked.0.step is Launch && checked.1 == Some(Stage::Checking)
            &&& launched.0.step is Finished && launched.1 == Some(Stage::Launched)
        }),
{
}

/// Where there is no good file, whatever is there goes, one is downloaded, written,
/// opened again and checked, and only then launched; one that fails its check is
/// discarded, and the reason is told.
pub proof fn a_missing_file_is_fetched(run: Run, error: String, bad: String, any: Result<(), String>)
    requires
        run.step is OpenExisting || run.step is CheckExisting,
    ensures
        ({
            let good = Ok::<(), String>(());
            let stale = run.after(Err(error));
            let removed = stale.0.after(any);
            let loaded = removed.0.after(good);
            let written = loaded.0.after(good);
            let opened = written.0.after(good);
            let checked = opened.0.after(good);
            let launched = checked.0.after(good);
            let refused = opened.0.after(Err(bad));
            let discarded = refused.0.after(any);
            &&& stale.0.step is RemoveStale && stale.1 is None
            &&& removed.0.step is Download && removed.1 is None
            &&& loaded.0.step is WriteNew && loaded.1 == Some(Stage::Checking)
            &&& written.0.step is Reopen && written.1 is None
            &&& opened.0.step is CheckFresh && opened.1 is None
            &&& checked.0.step is Launch && checked.1 is None
            &&& launched.0.step is Finished && launched.1 == Some(Stage::Launched)
            &&& refused.0.step is Discard && refused.1 is None
            &&& discarded.0.step is Finished && discarded.1 == Some(Stage::Failed(bad@))
        }),
{
}

/// A step that must not fail and does ends the errand with a failure, which tells
/// why: what the step says, behind what was being done where that needs saying.
pub proof fn a_failed_step_ends_the_errand(run: Run, error: String)
    ensures
        run.step is Stage || run.step is Download || run.step is WriteNew ==> run.after(
            Err(error),
        ).0.step is Finished && run.after(Err(error)).1 == Some(Stage::Failed(error@)),
        run.step is Reopen || run.step is Launch ==> run.after(Err(error)).0.step is Finished && (
        run.after(Err(error)).1 matches Some(Stage::Failed(said)) && said.len() >= error@.len()
            && said.skip(said.len() - error@.len()) == error@),
        run.step is Finished ==> run.after(Err(error)) == (run, None::<Stage>),
{
    let reopened = "the downloaded installer could not be re-opened: "@ + error@;
    let started = "the installer downloaded but would not start: "@ + error@;
    assert(reopened.skip(reopened.len() - error@.len()) =~= error@);
    assert(started.skip(started.len() - error@.len()) =~= error@);
}

/// A directory that nothing goes wrong with is swept, created, secured, found empty
/// and ready. One that could not be created is refused, one that could not be
/// secured is removed while it is empty, and one that could not be read back, or
/// that something was found in, is removed with all that is in it; each with a
/// reason. What is removed is refused, and nothing else.
pub proof fn a_directory_is_ready_or_removed(error: String, any: Result<bool, String>, found: bool)
    ensures
        staged(Staging::Sweep, any) == (Staging::Create, None::<Seq<char>>),
        staged(Staging::Create, Ok(found)) == (Staging::Secure, None::<Seq<char>>),
        staged(Staging::Secure, Ok(found)) == (Staging::ReadBack, None::<Seq<char>>),
        staged(Staging::ReadBack, Ok(false)) == (Staging::Ready, None::<Seq<char>>),
        staged(Staging::Create, Err(error)).0 is Refused,
        staged(Staging::Secure, Err(error)).0 is RemoveEmpty,
        staged(Staging::ReadBack, Err(error)).0 is RemoveAll,
        staged(Staging::ReadBack, Ok(true)).0 is RemoveAll,
        staged(Staging::Create, Err(error)).1 is Some && staged(Staging::Secure, Err(error)).1
            is Some,
        staged(Staging::ReadBack, Err(error)).1 is Some && staged(Staging::ReadBack, Ok(true)).1
            is Some,
        staged(Staging::RemoveEmpty, any) == (Staging::Refused, None::<Seq<char>>),
        staged(Staging::RemoveAll, any) == (Staging::Refused, None::<Seq<char>>),
        staged(Staging::Refused, any) == (Staging::Refused, None::<Seq<char>>),
        staged(Staging::Ready, any) == (Staging::Ready, None::<Seq<char>>),
{
}

/// The downloader reads no settings of its own, fails on an error reply, follows
/// to where the file is, and takes no longer than two minutes and no more bytes
/// than the pinned build has; and it is asked for the pinned address alone.
pub proof fn the_downloader_is_held_to_the_pinned_build(pin: Pin)
    ensures
        ({
            let asked = download_arguments(pin);
            &&& asked.len() == 10
            &&& asked[0] == "--disable"@ && asked[9] == pin.url@
            &&& asked.contains("--fail"@) && asked.contains("--location"@)
            &&& asked[5] == "--max-time"@ && asked[6] == text::decimal(120)
            &&& asked[7] == "--max-filesize"@ && asked[8] == text::decimal(pin.bytes as nat)
        }),
{
    let asked = download_arguments(pin);
    assert(asked[1] == "--fail"@ && asked[4] == "--location"@);
}

/// An exit is reported by its own code, and by minus one where it had none.
pub proof fn an_exit_is_told_by_its_code(code: i32)
    ensures
        exit_number(Some(code)) == code,
        exit_number(None) == -1,
{
}

} // verus!

//! Keeping hold of the game's window: finding it, noticing that it went, and
//! when to look again.

use super::state::text_view;
use vstd::prelude::*;
use vstd::string::*;

verus! {

/// How often an idle app looks for the game's window.
pub const WINDOW_POLL_MS: u64 = 2000;

/// A window that was found: its size and title, as far as they can be read.
#[derive(Debug)]
pub struct Found {
    pub size: Option<(u32, u32)>,
    pub title: Option<String>,
}

/// What the app knows of the game's window.
#[derive(Debug)]
pub struct GameWindow {
    has_capture: bool,
    has_detector: bool,
    size: Option<(u32, u32)>,
    title: Option<String>,
    error: Option<String>,
}

/// What the app knows of the game's window.
pub struct Seen {
    pub has_capture: bool,
    pub has_detector: bool,
    pub size: Option<(u32, u32)>,
    pub title: Option<Seq<char>>,
    pub error: Option<Seq<char>>,
}

impl View for GameWindow {
    type V = Seen;

    closed spec fn view(&self) -> Seen {
        Seen {
            has_capture: self.has_capture,
            has_detector: self.has_detector,
            size: self.size,
            title: text_view(self.title),
            error: text_view(self.error),
        }
    }
}

impl Seen {
    /// Nothing was looked for yet.
    pub open spec fn nothing() -> Self {
        Seen { has_capture: false, has_detector: false, size: None, title: None, error: None }
    }

    /// After the window was not found: nothing is held.
    pub open spec fn lost(self, error: Seq<char>) -> Self {
        Seen {
            has_capture: false,
            has_detector: false,
            size: None,
            error: Some(error),
            ..self
        }
    }

    /// After the window was found.
    pub open spec fn found(self, size: Option<(u32, u32)>, title: Option<Seq<char>>) -> Self {
        Seen {
            has_capture: true,
            title,
            error: None,
            size: if size is Some {
                size
            } else {
                self.size
            },
            ..self
        }
    }
}

/// What is to be done once the window was looked for.
#[derive(Debug, Clone, Copy, PartialEq, Eq, Structural)]
pub struct Upkeep {
    /// Hold on to the window that was found.
    pub adopt: bool,
    /// Let go of the window and the detector.
    pub let_go: bool,
    /// Build a detector for the window's size.
    pub rebuild: bool,
}

impl Default for GameWindow {
    fn default() -> (window: Self)
        ensures
            window@ == Seen::nothing(),
    {
        GameWindow { has_capture: false, has_detector: false, size: None, title: None, error: None }
    }
}

/// Whether two sizes are the same.
fn same_size(a: Option<(u32, u32)>, b: (u32, u32)) -> (same: bool)
    ensures
        same == (a == Some(b)),
{
    match a {
        Some(a) => a.0 == b.0 && a.1 == b.1,
        None => false,
    }
}

impl GameWindow {
    /// Takes what a search for the window found, at the start or on demand: the
    /// window is held and a detector is built for its size; or nothing is held.
    pub fn try_acquire_window(&mut self, found: Result<Found, String>) -> (upkeep: Upkeep)
        ensures
            final(self)@ == match found {
                Ok(found) => old(self)@.found(found.size, text_view(found.title)),
                Err(error) => old(self)@.lost(error@),
            },
            upkeep == match found {
                Ok(found) => Upkeep { adopt: true, let_go: false, rebuild: found.size is Some },
                Err(_) => Upkeep { adopt: false, let_go: true, rebuild: false },
            },
    {
        match found {
            Ok(found) => {
                self.title = found.title;
                self.error = None;
                self.has_capture = true;
                let sized = found.size.is_some();
                if sized {
                    self.size = found.size;
                }
                Upkeep { adopt: true, let_go: false, rebuild: sized }
            },
            Err(error) => {
                self.lose(error);
                Upkeep { adopt: false, let_go: true, rebuild: false }
            },
        }
    }

    /// Takes what an idle look for the window found: a window that is held
    /// stays held, and a detector is built only for a new size.
    pub fn passive_recheck_window(&mut self, found: Result<Found, String>) -> (upkeep: Upkeep)
        ensures
            final(self)@ == match found {
                Ok(found) => old(self)@.found(found.size, text_view(found.title)),
                Err(error) => old(self)@.lost(error@),
            },
            upkeep == match found {
                Ok(found) => Upkeep {
                    adopt: !old(self)@.has_capture,
                    let_go: false,
                    rebuild: found.size is Some && found.size != old(self)@.size,
                },
                Err(_) => Upkeep { adopt: false, let_go: true, rebuild: false },
            },
    {
        match found {
            Ok(found) => {
                let adopt = !self.has_capture;
                self.title = found.title;
                self.error = None;
                self.has_capture = true;
                let mut rebuild = false;
                if let Some(size) = found.size {
                    if !same_size(self.size, size) {
                        self.size = Some(size);
                        rebuild = true;
                    }
                }
                Upkeep { adopt, let_go: false, rebuild }
            },
            Err(error) => {
                self.lose(error);
                Upkeep { adopt: false, let_go: true, rebuild: false }
            },
        }
    }

    fn lose(&mut self, error: String)
        ensures
            final(self)@ == old(self)@.lost(error@),
    {
        self.error = Some(error);
        self.has_capture = false;
        self.has_detector = false;
        self.size = None;
    }

    /// Takes what came of building a detector: a failure keeps the one there
    /// was, if any. Without a size there is nothing to build one for.
    pub fn try_build_detector(&mut self, built: Result<(), String>)
        ensures
            final(self)@ == if old(self)@.size is None {
                (Seen { has_detector: false, ..old(self)@ })
            } else {
                match built {
                    Ok(_) => Seen { has_detector: true, ..old(self)@ },
                    Err(error) => Seen { error: Some(error@), ..old(self)@ },
                }
            },
    {
        if self.size.is_none() {
            self.has_detector = false;
            return ;
        }
        match built {
            Ok(_) => {
                self.has_detector = true;
            },
            Err(error) => {
                self.error = Some(error);
            },
        }
    }

    /// The window was given another size.
    pub fn resized(&mut self, size: (u32, u32))
        ensures
            final(self)@ == (Seen { size: Some(size), ..old(self)@ }),
    {
        self.size = Some(size);
    }

    pub fn has_capture(&self) -> (held: bool)
        ensures
            held == self@.has_capture,
    {
        self.has_capture
    }

    pub fn has_detector(&self) -> (held: bool)
        ensures
            held == self@.has_detector,
    {
        self.has_detector
    }

    pub fn size(&self) -> (size: Option<(u32, u32)>)
        ensures
            size == self@.size,
    {
        self.size
    }

    pub fn error(&self) -> (error: Option<&str>)
        ensures
            match error {
                Some(error) => self@.error == Some(error@),
                None => self@.error is None,
            },
    {
        match &self.error {
            Some(error) => Some(error.as_str()),
            None => None,
        }
    }

    /// Whether the footer that tells of trouble is shown.
    pub fn shows_footer(&self) -> (shown: bool)
        ensures
            shown == (self@.error is Some || self@.size is None),
    {
        self.error.is_some() || self.size.is_none()
    }
}

/// A window that cannot be found leaves no capture, no detector and no size
/// behind; one that is found leaves no error.
pub proof fn a_lost_window_leaves_nothing_behind(
    seen: Seen,
    error: Seq<char>,
    size: Option<(u32, u32)>,
    title: Option<Seq<char>>,
)
    ensures
        !seen.lost(error).has_capture,
        !seen.lost(error).has_detector,
        seen.lost(error).size is None,
        seen.lost(error).error == Some(error),
        seen.found(size, title).has_capture,
        seen.found(size, title).error is None,
{
}

/// What an idle app does about the window.
#[derive(Debug, Clone, Copy, PartialEq, Eq, Structural)]
pub enum WindowPoll {
    /// A run has the window.
    Leave,
    /// It was looked for a moment ago.
    Later,
    LookNow,
}

/// Whether to look for the window: not during a run, and not more often than
/// every [`WINDOW_POLL_MS`].
pub fn auto_refresh_window_status(running: bool, since_last_ms: Option<u64>) -> (poll: WindowPoll)
    ensures
        poll == if running {
            WindowPoll::Leave
        } else if since_last_ms is None || since_last_ms->0 >= WINDOW_POLL_MS {
            WindowPoll::LookNow
        } else {
            WindowPoll::Later
        },
{
    if running {
        return WindowPoll::Leave;
    }
    match since_last_ms {
        None => WindowPoll::LookNow,
        Some(ms) => {
            if ms >= WINDOW_POLL_MS {
                WindowPoll::LookNow
            } else {
                WindowPoll::Later
            }
        },
    }
}

/// What starting a run takes.
#[derive(Debug, Clone, Copy, PartialEq, Eq, Structural)]
pub enum Launch {
    NoWindow,
    NoDetector,
    /// Start, after giving the window the size that its templates were made at
    /// where it has another.
    Go { resize: bool },
}

/// Whether a run can start, and whether the window is to be resized for it.
/// `size` is the window's, where it can be read.
pub fn start_bot(
    has_capture: bool,
    has_detector: bool,
    size: Option<(u32, u32)>,
    base_resolution: (u32, u32),
) -> (launch: Launch)
    ensures
        launch == if !has_capture {
            Launch::NoWindow
        } else if !has_detector {
            Launch::NoDetector
        } else {
            Launch::Go { resize: size is Some && size->0 != base_resolution }
        },
{
    if !has_capture {
        return Launch::NoWindow;
    }
    if !has_detector {
        return Launch::NoDetector;
    }
    let resize = size.is_some() && !same_size(size, base_resolution);
    Launch::Go { resize }
}

/// A window that is found is held, with its title as it reads now, and with its
/// size where that can be read; the detector is not touched. One that is lost
/// keeps only its title. Nothing is known at first.
pub proof fn a_window_is_known_as_it_was_found(
    seen: Seen,
    error: Seq<char>,
    size: Option<(u32, u32)>,
    title: Option<Seq<char>>,
)
    ensures
        seen.found(size, title).title == title,
        size is Some ==> seen.found(size, title).size == size,
        size is None ==> seen.found(size, title).size == seen.size,
        seen.found(size, title).has_detector == seen.has_detector,
        seen.lost(error).title == seen.title,
        !Seen::nothing().has_capture && !Seen::nothing().has_detector,
        Seen::nothing().size is None && Seen::nothing().title is None && Seen::nothing().error
            is None,
{
}

} // verus!

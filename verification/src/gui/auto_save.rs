//! When to write the settings: a moment after the first of a burst of edits,
//! and again at once where a write failed.

use super::state::text_view;
use vstd::prelude::*;
use vstd::string::*;

verus! {

/// How long an edit waits for others before all of them are written.
pub const AUTO_SAVE_DEBOUNCE_MS: u64 = 250;

/// Whether unwritten edits are waiting, and how the last write failed.
#[derive(Debug)]
pub struct AutoSave {
    dirty_since: Option<u64>,
    error: Option<String>,
}

/// Since when edits are waiting, and how the last write failed.
pub struct Pending {
    pub dirty_since: Option<u64>,
    pub error: Option<Seq<char>>,
}

impl View for AutoSave {
    type V = Pending;

    closed spec fn view(&self) -> Pending {
        Pending { dirty_since: self.dirty_since, error: text_view(self.error) }
    }
}

impl Default for AutoSave {
    fn default() -> (save: Self)
        ensures
            save@ == (Pending { dirty_since: None, error: None }),
    {
        AutoSave { dirty_since: None, error: None }
    }
}

/// What to do about unwritten edits.
#[derive(Debug, Clone, Copy, PartialEq, Eq, Structural)]
pub enum SaveStep {
    /// There are none.
    Clean,
    /// Look again after [`AUTO_SAVE_DEBOUNCE_MS`].
    Wait,
    Write,
}

impl Pending {
    /// Since when edits are waiting, seen at `now`.
    pub open spec fn since(self, now: u64) -> u64 {
        match self.dirty_since {
            Some(since) => since,
            None => now,
        }
    }

    /// After a look at `now`, with what to do.
    pub open spec fn looked_at(self, unchanged: bool, now: u64) -> (Pending, SaveStep) {
        if unchanged {
            (Pending { dirty_since: None, ..self }, SaveStep::Clean)
        } else {
            (
                Pending { dirty_since: Some(self.since(now)), ..self },
                if now - self.since(now) < AUTO_SAVE_DEBOUNCE_MS {
                    SaveStep::Wait
                } else {
                    SaveStep::Write
                },
            )
        }
    }

    /// After a write.
    pub open spec fn after_write(self, written: Result<(), String>) -> Pending {
        match written {
            Ok(_) => Pending { dirty_since: None, error: None },
            Err(error) => Pending { error: Some(error@), ..self },
        }
    }
}

impl AutoSave {
    /// Looks, at `now`, whether the settings are as they were written last, and
    /// says what to do.
    pub fn auto_save_if_dirty(&mut self, unchanged: bool, now: u64) -> (step: SaveStep)
        ensures
            (final(self)@, step) == old(self)@.looked_at(unchanged, now),
    {
        if unchanged {
            self.dirty_since = None;
            return SaveStep::Clean;
        }
        let since: u64 = match self.dirty_since {
            Some(since) => since,
            None => now,
        };
        self.dirty_since = Some(since);
        if now < since || now - since < AUTO_SAVE_DEBOUNCE_MS {
            SaveStep::Wait
        } else {
            SaveStep::Write
        }
    }

    /// Takes what came of a write. A failure leaves the edits waiting, so that
    /// the next look writes again at once.
    pub fn written(&mut self, written: Result<(), String>)
        ensures
            final(self)@ == old(self)@.after_write(written),
    {
        match written {
            Ok(_) => {
                self.dirty_since = None;
                self.error = None;
            },
            Err(error) => {
                self.error = Some(error);
            },
        }
    }

    /// How the last write failed.
    pub fn error(&self) -> (error: Option<&str>)
        ensures
            match error {
                Some(error) => self@.error == Some(error@),
                None => self@.error is None,
            },
    {
        match &self.error {
            Some(error) => Some(error.as_str()),
            None => None,
        }
    }
}

/// A burst of edits is written once: a first edit always waits, so does every
/// look within the wait, and the wait counts from the first edit.
pub proof fn a_burst_is_written_once(pending: Pending, now: u64, later: u64)
    requires
        pending.dirty_since is None,
        now <= later,
    ensures
        ({
            let (first, step) = pending.looked_at(false, now);
            &&& step is Wait
            &&& first.dirty_since == Some(now)
            &&& first.looked_at(false, later).0.dirty_since == Some(now)
            &&& first.looked_at(false, later).1 is Wait <==> later < now + AUTO_SAVE_DEBOUNCE_MS
            &&& first.looked_at(false, later).1 is Write <==> later >= now + AUTO_SAVE_DEBOUNCE_MS
        }),
{
}

/// A write that failed is tried again at the next look, without another wait.
pub proof fn a_failed_write_is_tried_again(pending: Pending, now: u64, later: u64, error: String)
    requires
        pending.looked_at(false, now).1 is Write,
        now <= later,
    ensures
        pending.looked_at(false, now).0.after_write(Err(error)).looked_at(false, later).1 is Write,
{
}

/// Once written, nothing is waiting until the next edit, and no error stands.
pub proof fn a_write_settles_everything(pending: Pending, now: u64)
    ensures
        pending.after_write(Ok(())).error is None,
        pending.after_write(Ok(())).looked_at(true, now).1 is Clean,
        pending.after_write(Ok(())).looked_at(false, now).1 is Wait,
{
}

/// What a look does, by when the first unwritten edit was seen: with nothing to
/// write the wait is over; otherwise it counts from that edit, which is now where
/// there was none, and edits are written once a quarter of a second has passed. A
/// look never touches the error.
pub proof fn edits_wait_a_quarter_of_a_second(pending: Pending, now: u64)
    ensures
        ({
            let (next, step) = pending.looked_at(true, now);
            step is Clean && next.dirty_since is None && next.error == pending.error
        }),
        ({
            let (next, step) = pending.looked_at(false, now);
            &&& next.error == pending.error
            &&& pending.dirty_since is None ==> step is Wait && next.dirty_since == Some(now)
            &&& pending.dirty_since matches Some(since) ==> next.dirty_since == Some(since) && (step
                is Write <==> now - since >= 250) && (step is Wait <==> now - since < 250)
        }),
{
}

/// A write that failed says why and leaves the edits waiting since when they were;
/// one that succeeded leaves neither.
pub proof fn a_failed_write_leaves_the_edits_waiting(pending: Pending, error: String)
    ensures
        pending.after_write(Err(error)).dirty_since == pending.dirty_since,
        pending.after_write(Err(error)).error == Some(error@),
        pending.after_write(Ok(())).dirty_since is None && pending.after_write(Ok(())).error is None,
{
}

} // verus!

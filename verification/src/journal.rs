//! Bounded session journal: the player-facing lines, kept for a view.

use crate::level::LogLevel;
use std::collections::VecDeque;
use vstd::prelude::*;

verus! {

/// Longest journal, in entries: a session left running for hours must not grow
/// it without bound.
pub const JOURNAL_CAP: usize = 500;

/// One journal entry: a line stamped with the session clock.
#[derive(Debug, Clone)]
pub struct LogLine {
    pub at_ms: u64,
    pub text: String,
}

/// An entry's stamp and characters.
pub struct Entry {
    pub at_ms: u64,
    pub text: Seq<char>,
}

impl View for LogLine {
    type V = Entry;

    open spec fn view(&self) -> Entry {
        Entry { at_ms: self.at_ms, text: self.text@ }
    }
}

/// The entries of a list of lines.
pub open spec fn entries_of(lines: Seq<LogLine>) -> Seq<Entry> {
    lines.map_values(|line: LogLine| line@)
}

/// Lines that were written at one instant, as entries.
pub open spec fn stamped(lines: Seq<String>, at_ms: u64) -> Seq<Entry> {
    lines.map_values(|line: String| Entry { at_ms, text: line@ })
}

/// The last entries, as many as the journal keeps.
pub open spec fn newest(entries: Seq<Entry>) -> Seq<Entry> {
    if entries.len() > JOURNAL_CAP {
        entries.skip(entries.len() - JOURNAL_CAP)
    } else {
        entries
    }
}

/// The session journal: the newest lines, and a count that moves whenever they
/// change, so that a reader can tell whether to copy them again.
pub struct EventLog {
    generation: u64,
    entries: VecDeque<LogLine>,
}

impl EventLog {
    /// The entries, oldest first.
    pub closed spec fn kept(self) -> Seq<Entry> {
        entries_of(self.entries@)
    }

    /// How often the journal changed.
    pub closed spec fn changes(self) -> u64 {
        self.generation
    }
}

impl Default for EventLog {
    fn default() -> (log: Self)
        ensures
            log.kept().len() == 0,
            log.changes() == 0,
    {
        EventLog { generation: 0, entries: VecDeque::new() }
    }
}

/// A line as the log file records it.
#[derive(Debug, Clone)]
pub struct Record {
    pub level: LogLevel,
    pub line: String,
}

impl EventLog {
    #[verifier::type_invariant]
    spec fn within_the_cap(self) -> bool {
        self.entries@.len() <= JOURNAL_CAP
    }

    /// The session clock: milliseconds since the journal was made, as far as
    /// they can be counted.
    pub fn now_ms(elapsed_ms: u128) -> (now: u64)
        ensures
            now == if elapsed_ms <= u64::MAX {
                elapsed_ms as int
            } else {
                u64::MAX as int
            },
    {
        if elapsed_ms <= u64::MAX as u128 {
            elapsed_ms as u64
        } else {
            u64::MAX
        }
    }

    /// Appends `lines`, all stamped `at_ms`; the oldest entries drop out past
    /// the cap. No lines change nothing.
    pub fn push(&mut self, at_ms: u64, lines: &[String])
        ensures
            final(self).kept() == newest(old(self).kept() + stamped(lines@, at_ms)),
            final(self).kept().len() <= JOURNAL_CAP,
            final(self).changes() == if lines@.len() == 0 {
                old(self).changes() as int
            } else {
                (old(self).changes() + 1) % 0x1_0000_0000_0000_0000
            },
    {
        proof {
            use_type_invariant(&*self);
        }
        let ghost before = self.kept();
        if lines.len() == 0 {
            assert(before + stamped(lines@, at_ms) =~= before);
            return;
        }
        let mut entries: VecDeque<LogLine> = VecDeque::new();
        std::mem::swap(&mut entries, &mut self.entries);
        assert(entries_of(entries@) =~= before);
        for i in 0..lines.len()
            invariant
                entries_of(entries@) == before + stamped(lines@, at_ms).take(i as int),
        {
            let ghost earlier = entries@;
            let line = LogLine { at_ms, text: lines[i].clone() };
            entries.push_back(line);
            assert(line@ == stamped(lines@, at_ms)[i as int]);
            assert(entries_of(entries@) =~= entries_of(earlier).push(line@));
            assert(entries_of(entries@) =~= before + stamped(lines@, at_ms).take(i + 1));
        }
        let ghost all = entries@;
        assert(stamped(lines@, at_ms).take(lines@.len() as int) =~= stamped(lines@, at_ms));
        assert(all.skip(0) =~= all);
        let ghost mut dropped: int = 0;
        while entries.len() > JOURNAL_CAP
            invariant
                0 <= dropped <= all.len(),
                entries@ == all.skip(dropped),
                dropped > 0 ==> entries@.len() >= JOURNAL_CAP,
            decreases entries@.len(),
        {
            let _ = entries.pop_front();
            proof {
                assert(all.skip(dropped).skip(1) =~= all.skip(dropped + 1));
                assert(entries@ =~= all.skip(dropped + 1));
                dropped = dropped + 1;
            }
        }
        assert(entries_of(entries@) =~= newest(entries_of(all)));
        self.entries = entries;
        self.generation = self.generation.wrapping_add(1);
    }

    /// Appends player-facing lines and says what the log file is to record of
    /// them, at the level for news.
    pub fn emit(&mut self, at_ms: u64, lines: &[String]) -> (records: Vec<Record>)
        ensures
            final(self).kept() == newest(old(self).kept() + stamped(lines@, at_ms)),
            final(self).kept().len() <= JOURNAL_CAP,
            final(self).changes() == if lines@.len() == 0 {
                old(self).changes() as int
            } else {
                (old(self).changes() + 1) % 0x1_0000_0000_0000_0000
            },
            records@.len() == lines@.len(),
            forall|i: int|
                0 <= i < lines@.len() ==> (#[trigger] records@[i]).level == LogLevel::Info
                    && records@[i].line@ == lines@[i]@,
    {
        self.emit_at(LogLevel::Info, at_ms, lines)
    }

    /// Appends player-facing lines and says what the log file is to record of
    /// them: each line, as an error, as a warning, or else as news. The player
    /// reads the same text whatever the level.
    pub fn emit_at(&mut self, level: LogLevel, at_ms: u64, lines: &[String]) -> (records: Vec<
        Record,
    >)
        ensures
            final(self).kept() == newest(old(self).kept() + stamped(lines@, at_ms)),
            final(self).kept().len() <= JOURNAL_CAP,
            final(self).changes() == if lines@.len() == 0 {
                old(self).changes() as int
            } else {
                (old(self).changes() + 1) % 0x1_0000_0000_0000_0000
            },
            records@.len() == lines@.len(),
            forall|i: int|
                0 <= i < lines@.len() ==> (#[trigger] records@[i]).level == (if level
                    == LogLevel::Error || level == LogLevel::Warn {
                    level
                } else {
                    LogLevel::Info
                }) && records@[i].line@ == lines@[i]@,
    {
        self.push(at_ms, lines);
        let recorded = match level {
            LogLevel::Error => LogLevel::Error,
            LogLevel::Warn => LogLevel::Warn,
            _ => LogLevel::Info,
        };
        let mut records: Vec<Record> = Vec::new();
        for i in 0..lines.len()
            invariant
                records@.len() == i,
                forall|j: int|
                    0 <= j < i ==> (#[trigger] records@[j]).level == recorded && records@[j].line@
                        == lines@[j]@,
        {
            records.push(Record { level: recorded, line: lines[i].clone() });
        }
        records
    }

    /// A count that moves with every change.
    pub fn generation(&self) -> (generation: u64)
        ensures
            generation == self.changes(),
    {
        self.generation
    }

    /// A copy of the whole journal, oldest first.
    pub fn to_entries(&self) -> (lines: Vec<LogLine>)
        ensures
            entries_of(lines@) == self.kept(),
            lines@.len() <= JOURNAL_CAP,
    {
        proof {
            use_type_invariant(self);
        }
        let mut lines: Vec<LogLine> = Vec::new();
        for i in 0..self.entries.len()
            invariant
                entries_of(lines@) == self.kept().take(i as int),
        {
            let line = &self.entries[i];
            let ghost earlier = lines@;
            let copy = LogLine { at_ms: line.at_ms, text: line.text.clone() };
            lines.push(copy);
            assert(copy@ == self.kept()[i as int]);
            assert(entries_of(lines@) =~= entries_of(earlier).push(copy@));
            assert(entries_of(lines@) =~= self.kept().take(i + 1));
        }
        assert(self.kept().take(self.entries@.len() as int) =~= self.kept());
        lines
    }
}

/// What was written last is always kept, up to the cap: the end of the journal
/// is the end of what was written, whatever stood there before.
pub proof fn the_newest_lines_are_kept(before: Seq<Entry>, written: Seq<Entry>)
    requires
        written.len() <= JOURNAL_CAP,
    ensures
        newest(before + written).len() >= written.len(),
        newest(before + written).skip(newest(before + written).len() - written.len()) == written,
        newest(before + written).len() <= JOURNAL_CAP,
{
    let all = newest(before + written);
    assert(all.skip(all.len() - written.len()) =~= written);
}

/// Whether no entry is stamped earlier than one before it.
pub open spec fn in_order(entries: Seq<Entry>) -> bool {
    forall|i: int, j: int|
        0 <= i <= j < entries.len() ==> (#[trigger] entries[i]).at_ms <= (
        #[trigger] entries[j]).at_ms
}

/// Whether no entry is stamped later than `at_ms`.
pub open spec fn none_after(entries: Seq<Entry>, at_ms: u64) -> bool {
    forall|i: int| 0 <= i < entries.len() ==> (#[trigger] entries[i]).at_ms <= at_ms
}

/// Where the clock does not go back, neither does the journal: lines written no
/// earlier than whatever stands there leave it in order, and nothing in it is
/// stamped later than they are.
pub proof fn the_journal_stays_in_order(kept: Seq<Entry>, lines: Seq<String>, at_ms: u64)
    requires
        in_order(kept),
        none_after(kept, at_ms),
    ensures
        in_order(newest(kept + stamped(lines, at_ms))),
        none_after(newest(kept + stamped(lines, at_ms)), at_ms),
{
    let all = kept + stamped(lines, at_ms);
    assert(in_order(all));
    assert(none_after(all, at_ms));
    if all.len() > JOURNAL_CAP {
        let gone = all.len() - JOURNAL_CAP;
        assert forall|i: int, j: int| 0 <= i <= j < newest(all).len() implies (
        #[trigger] newest(all)[i]).at_ms <= (#[trigger] newest(all)[j]).at_ms by {
            assert(newest(all)[i] == all[i + gone]);
            assert(newest(all)[j] == all[j + gone]);
        }
    }
}

/// Lines written at one instant: none changes nothing; any others are the last
/// entries, in their order and under one stamp, behind as many of the older
/// ones as there is room for.
pub proof fn a_push_appends(kept: Seq<Entry>, lines: Seq<String>, at_ms: u64)
    requires
        kept.len() <= JOURNAL_CAP,
    ensures
        ({
            let all = kept + stamped(lines, at_ms);
            let after = newest(all);
            &&& lines.len() == 0 ==> after == kept
            &&& after.len() == if all.len() < JOURNAL_CAP {
                all.len()
            } else {
                JOURNAL_CAP as nat
            }
            &&& after == all.skip(all.len() - after.len())
            &&& forall|i: int|
                0 <= i < after.len() && i >= after.len() - lines.len() ==> (
                #[trigger] after[i]).at_ms == at_ms && after[i].text == lines[i - (after.len()
                    - lines.len())]@
        }),
{
    let all = kept + stamped(lines, at_ms);
    assert(all.skip(0) =~= all);
    if lines.len() == 0 {
        assert(all =~= kept);
    }
}

/// Writing in two steps keeps what writing at once keeps.
pub proof fn writing_twice_keeps_the_same(before: Seq<Entry>, first: Seq<Entry>, second: Seq<Entry>)
    ensures
        newest(newest(before + first) + second) == newest(before + (first + second)),
{
    assert(newest(newest(before + first) + second) =~= newest(before + (first + second)));
}

/// Of more than five hundred entries the last five hundred are kept, each in its
/// place among them; of fewer, all.
pub proof fn the_last_five_hundred_are_kept(entries: Seq<Entry>)
    ensures
        entries.len() <= 500 ==> newest(entries) == entries,
        entries.len() > 500 ==> newest(entries).len() == 500 && (forall|i: int|
            0 <= i < 500 ==> #[trigger] newest(entries)[i] == entries[entries.len() - 500 + i]),
{
}

/// Lines written at one instant all bear that instant, each with its own text, in
/// the order they were written.
pub proof fn a_line_bears_when_it_was_written(lines: Seq<String>, at_ms: u64)
    ensures
        stamped(lines, at_ms).len() == lines.len(),
        forall|i: int|
            0 <= i < lines.len() ==> (#[trigger] stamped(lines, at_ms)[i]).at_ms == at_ms
                && stamped(lines, at_ms)[i].text == lines[i]@,
{
}

} // verus!

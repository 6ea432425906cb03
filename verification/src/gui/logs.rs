//! The log as the window shows it: the newest lines, each with its severity.

use crate::level::{level_glyph, LogLevel};
use std::collections::VecDeque;
use vstd::prelude::*;
use vstd::string::*;

verus! {

/// Longest log that the window keeps.
pub const MAX_LOG_LINES: usize = 500;

/// A line of the log.
#[derive(Debug)]
pub struct LogLine {
    pub level: LogLevel,
    pub text: String,
}

/// A line's severity and characters.
pub struct Line {
    pub level: LogLevel,
    pub text: Seq<char>,
}

impl View for LogLine {
    type V = Line;

    open spec fn view(&self) -> Line {
        Line { level: self.level, text: self.text@ }
    }
}

impl Clone for LogLine {
    fn clone(&self) -> (copy: Self)
        ensures
            copy@ == self@,
    {
        LogLine { level: self.level, text: self.text.as_str().to_owned() }
    }
}

/// The lines of a list.
pub open spec fn lines_of(lines: Seq<LogLine>) -> Seq<Line> {
    lines.map_values(|line: LogLine| line@)
}

/// The log that the window shows.
#[derive(Debug)]
pub struct LogBuffer(VecDeque<LogLine>);

impl View for LogBuffer {
    type V = Seq<Line>;

    closed spec fn view(&self) -> Seq<Line> {
        lines_of(self.0@)
    }
}

impl Default for LogBuffer {
    fn default() -> (log: Self)
        ensures
            log@ == Seq::<Line>::empty(),
    {
        let log = LogBuffer(VecDeque::new());
        assert(log@ =~= Seq::empty());
        log
    }
}

/// The log after one more line: past the cap the oldest drops out.
pub open spec fn with_line(log: Seq<Line>, line: Line) -> Seq<Line> {
    (if log.len() >= MAX_LOG_LINES {
        log.skip(1)
    } else {
        log
    }).push(line)
}

/// A line as the panel shows it: its mark, then its text.
pub open spec fn marked(line: Line) -> Line {
    Line { level: line.level, text: line.level.mark() + "  "@ + line.text }
}

/// The lines that the panel shows of a log where `least` is the least severity
/// that is shown.
pub open spec fn shown_lines(log: Seq<Line>, least: LogLevel) -> Seq<Line>
    decreases log.len(),
{
    if log.len() == 0 {
        Seq::empty()
    } else {
        let before = shown_lines(log.drop_last(), least);
        if log.last().level.gravity() >= least.gravity() {
            before.push(marked(log.last()))
        } else {
            before
        }
    }
}

impl LogBuffer {
    #[verifier::type_invariant]
    spec fn within_the_cap(self) -> bool {
        self.0@.len() <= MAX_LOG_LINES
    }

    pub fn new() -> (log: Self)
        ensures
            log@ == Seq::<Line>::empty(),
    {
        LogBuffer::default()
    }

    /// The lines, oldest first, never more than the cap.
    pub fn snapshot(&self) -> (lines: Vec<LogLine>)
        ensures
            lines_of(lines@) == self@,
            lines@.len() <= MAX_LOG_LINES,
    {
        proof {
            use_type_invariant(self);
        }
        let mut lines: Vec<LogLine> = Vec::new();
        for i in 0..self.0.len()
            invariant
                lines@.len() == i,
                forall|j: int| 0 <= j < i ==> (#[trigger] lines@[j])@ == self.0@[j]@,
        {
            lines.push(self.0[i].clone());
        }
        assert(lines_of(lines@) =~= self@);
        lines
    }

    /// The lines that the panel shows, oldest first, each behind its mark: those
    /// of at least a severity.
    pub fn shown_from(&self, least: LogLevel) -> (lines: Vec<LogLine>)
        ensures
            lines_of(lines@) == shown_lines(self@, least),
    {
        let mut lines: Vec<LogLine> = Vec::new();
        assert(lines_of(lines@) =~= shown_lines(self@.take(0), least));
        for i in 0..self.0.len()
            invariant
                self@.len() == self.0@.len(),
                lines_of(lines@) == shown_lines(self@.take(i as int), least),
        {
            let line = &self.0[i];
            let ghost before = lines@;
            assert(self@.take(i + 1).drop_last() =~= self@.take(i as int));
            assert(self@.take(i + 1).last() == line@);
            if line.level.is_shown_from(least) {
                let mut text = level_glyph(line.level).to_owned();
                text.append("  ");
                text.append(line.text.as_str());
                let shown = LogLine { level: line.level, text };
                assert(shown@ == marked(line@));
                lines.push(shown);
                assert(lines_of(lines@) =~= lines_of(before).push(marked(line@)));
            }
        }
        assert(self@.take(self@.len() as int) =~= self@);
        lines
    }

    /// Forgets every line.
    pub fn clear(&mut self)
        ensures
            final(self)@ == Seq::<Line>::empty(),
    {
        self.0 = VecDeque::new();
        assert(self@ =~= Seq::empty());
    }

    /// Appends a line; past the cap the oldest drops out.
    pub fn push(&mut self, line: LogLine)
        ensures
            final(self)@ == with_line(old(self)@, line@),
            final(self)@.len() <= MAX_LOG_LINES,
    {
        proof {
            use_type_invariant(&*self);
        }
        let mut lines: VecDeque<LogLine> = VecDeque::new();
        std::mem::swap(&mut lines, &mut self.0);
        let ghost before = lines@;
        if lines.len() >= MAX_LOG_LINES {
            let _ = lines.pop_front();
            assert(lines@ =~= before.skip(1));
        }
        lines.push_back(line);
        assert(lines_of(lines@) =~= with_line(lines_of(before), line@));
        self.0 = lines;
    }

    /// Appends an event, by its target and what it carries.
    pub fn on_event(&mut self, level: LogLevel, target: &str, carried: MessageVisitor)
        ensures
            final(self)@ == with_line(
                old(self)@,
                Line { level, text: event_text(target@, carried@) },
            ),
    {
        let body = carried.into_body();
        let text = compose(target, body);
        self.push(LogLine { level, text });
    }
}

/// What an event carries: its message, and its fields by name.
#[derive(Debug)]
pub struct MessageVisitor {
    message: Option<String>,
    fields: Vec<(String, String)>,
}

/// The message and the fields of an event.
pub struct Carried {
    pub message: Option<Seq<char>>,
    pub fields: Seq<(Seq<char>, Seq<char>)>,
}

/// Fields by their characters.
pub open spec fn fields_of(fields: Seq<(String, String)>) -> Seq<(Seq<char>, Seq<char>)> {
    fields.map_values(|field: (String, String)| (field.0@, field.1@))
}

impl View for MessageVisitor {
    type V = Carried;

    closed spec fn view(&self) -> Carried {
        Carried {
            message: match self.message {
                Some(message) => Some(message@),
                None => None,
            },
            fields: fields_of(self.fields@),
        }
    }
}

impl Default for MessageVisitor {
    fn default() -> (visitor: Self)
        ensures
            visitor@ == (Carried { message: None, fields: Seq::empty() }),
    {
        let visitor = MessageVisitor { message: None, fields: Vec::new() };
        assert(visitor@.fields =~= Seq::empty());
        visitor
    }
}

impl Carried {
    /// After one more field; the field `message` is the message.
    pub open spec fn with(self, name: Seq<char>, value: Seq<char>) -> Self {
        if name == "message"@ {
            Carried { message: Some(value), ..self }
        } else {
            Carried { fields: self.fields.push((name, value)), ..self }
        }
    }

    /// The message.
    pub open spec fn heading(self) -> Seq<char> {
        match self.message {
            Some(message) => message,
            None => Seq::empty(),
        }
    }
}

/// A text with a field behind it, and a space between them where there is a
/// text.
pub open spec fn with_field(text: Seq<char>, field: (Seq<char>, Seq<char>)) -> Seq<char> {
    (if text.len() > 0 {
        text + seq![' ']
    } else {
        text
    }) + field.0 + seq!['='] + field.1
}

/// A text with fields behind it.
pub open spec fn with_fields(text: Seq<char>, fields: Seq<(Seq<char>, Seq<char>)>) -> Seq<char>
    decreases fields.len(),
{
    if fields.len() == 0 {
        text
    } else {
        with_field(with_fields(text, fields.drop_last()), fields.last())
    }
}

/// The line of an event: its target and what it says, two spaces apart, or
/// the one of them that says anything.
pub open spec fn event_text(target: Seq<char>, carried: Carried) -> Seq<char> {
    let body = with_fields(carried.heading(), carried.fields);
    if body.len() == 0 {
        target
    } else if target.len() == 0 {
        body
    } else {
        target + "  "@ + body
    }
}

/// Whether a text is empty.
fn is_blank(s: &str) -> (blank: bool)
    ensures
        blank == (s@.len() == 0),
{
    s.unicode_len() == 0
}

fn compose(target: &str, body: String) -> (text: String)
    ensures
        text@ == if body@.len() == 0 {
            target@
        } else if target@.len() == 0 {
            body@
        } else {
            target@ + "  "@ + body@
        },
{
    if is_blank(body.as_str()) {
        target.to_owned()
    } else if is_blank(target) {
        body
    } else {
        let mut text = target.to_owned();
        text.append("  ");
        text.append(body.as_str());
        text
    }
}

impl MessageVisitor {
    /// Records a field of an event, by its name and its text.
    pub fn record(&mut self, name: &str, value: String)
        ensures
            final(self)@ == old(self)@.with(name@, value@),
    {
        if crate::text::same_text(name, "message") {
            self.message = Some(value);
        } else {
            let ghost before = self.fields@;
            self.fields.push((name.to_owned(), value));
            assert(fields_of(self.fields@) =~= fields_of(before).push((name@, value@)));
        }
    }

    /// The message with the fields behind it.
    pub fn into_body(self) -> (body: String)
        ensures
            body@ == with_fields(self@.heading(), self@.fields),
    {
        let ghost carried = self@;
        let fields = self.fields;
        let mut body = match self.message {
            Some(message) => message,
            None => String::new(),
        };
        assert(carried.fields.take(0) =~= Seq::empty());
        for i in 0..fields.len()
            invariant
                carried.fields == fields_of(fields@),
                body@ == with_fields(carried.heading(), carried.fields.take(i as int)),
        {
            proof {
                let taken = carried.fields.take(i + 1);
                assert(taken.drop_last() =~= carried.fields.take(i as int));
                assert(taken.last() == (fields@[i as int].0@, fields@[i as int].1@));
            }
            let ghost earlier = body@;
            if !is_blank(body.as_str()) {
                body.push(' ');
            }
            body.append(fields[i].0.as_str());
            body.push('=');
            body.append(fields[i].1.as_str());
            assert(body@ =~= with_field(earlier, carried.fields[i as int]));
        }
        assert(carried.fields.take(fields@.len() as int) =~= carried.fields);
        body
    }
}

/// The newest line is always kept, and the log never outgrows its cap.
pub proof fn the_newest_line_is_kept(log: Seq<Line>, line: Line)
    requires
        log.len() <= MAX_LOG_LINES,
    ensures
        with_line(log, line).last() == line,
        with_line(log, line).len() <= MAX_LOG_LINES,
        log.len() < MAX_LOG_LINES ==> with_line(log, line) == log.push(line),
{
}

/// What may be done to a log that several handles share.
pub enum LogStep {
    Push(Line),
    Clear,
}

/// A log after one step.
pub open spec fn log_step(log: Seq<Line>, step: LogStep) -> Seq<Line> {
    match step {
        LogStep::Push(line) => with_line(log, line),
        LogStep::Clear => Seq::empty(),
    }
}

/// What every handle of a log sees after steps, each made through the handle
/// that it is tagged with.
pub open spec fn log_after(log: Seq<Line>, steps: Seq<(nat, LogStep)>) -> Seq<Line>
    decreases steps.len(),
{
    if steps.len() == 0 {
        log
    } else {
        log_step(log_after(log, steps.drop_last()), steps.last().1)
    }
}

/// What a log holds goes by what was done to it alone, whichever of its handles
/// each step was made through.
pub proof fn whichever_handle_writes(
    log: Seq<Line>,
    steps: Seq<(nat, LogStep)>,
    others: Seq<(nat, LogStep)>,
)
    requires
        steps.len() == others.len(),
        forall|i: int| 0 <= i < steps.len() ==> (#[trigger] steps[i]).1 == others[i].1,
    ensures
        log_after(log, steps) == log_after(log, others),
    decreases steps.len(),
{
    if steps.len() > 0 {
        assert(steps[steps.len() - 1].1 == others[steps.len() - 1].1);
        assert forall|i: int| 0 <= i < steps.len() - 1 implies (
        #[trigger] steps.drop_last()[i]).1 == others.drop_last()[i].1 by {
            assert(steps[i].1 == others[i].1);
        }
        whichever_handle_writes(log, steps.drop_last(), others.drop_last());
    }
}

/// Once any handle has cleared the log, every handle sees it empty; and the first
/// line after that, through whichever handle, is the only one in it.
pub proof fn a_cleared_log_starts_over(
    log: Seq<Line>,
    steps: Seq<(nat, LogStep)>,
    clears: nat,
    writes: nat,
    line: Line,
)
    ensures
        log_after(log, steps.push((clears, LogStep::Clear))) == Seq::<Line>::empty(),
        log_after(log, steps.push((clears, LogStep::Clear)).push((writes, LogStep::Push(line))))
            == seq![line],
{
    let cleared = steps.push((clears, LogStep::Clear));
    let written = cleared.push((writes, LogStep::Push(line)));
    assert(cleared.drop_last() =~= steps);
    assert(written.drop_last() =~= cleared);
    assert(with_line(Seq::empty(), line) =~= seq![line]);
}

/// A log never outgrows its cap, whatever is done to it through its handles.
pub proof fn a_shared_log_stays_within_its_cap(log: Seq<Line>, steps: Seq<(nat, LogStep)>)
    requires
        log.len() <= MAX_LOG_LINES,
    ensures
        log_after(log, steps).len() <= MAX_LOG_LINES,
    decreases steps.len(),
{
    if steps.len() > 0 {
        a_shared_log_stays_within_its_cap(log, steps.drop_last());
    }
}

/// A log of five hundred lines gives up its oldest for the newest, and keeps every
/// other line, in its place among the others; a shorter one gives up none.
pub proof fn the_oldest_line_makes_room(log: Seq<Line>, line: Line)
    ensures
        log.len() == 500 ==> with_line(log, line).len() == 500 && (forall|i: int|
            0 <= i < 499 ==> #[trigger] with_line(log, line)[i] == log[i + 1]),
        log.len() < 500 ==> with_line(log, line).len() == log.len() + 1 && (forall|i: int|
            0 <= i < log.len() ==> #[trigger] with_line(log, line)[i] == log[i]),
        with_line(log, line).last() == line,
{
}

/// Every line that is at least as severe as is asked for is shown, once and in
/// order, and no other; the places in the log that are shown are given back. A line
/// is shown with its severity, and its text behind a mark and two spaces.
pub proof fn what_is_severe_enough_is_shown(log: Seq<Line>, least: LogLevel) -> (places: Seq<int>)
    ensures
        places.len() == shown_lines(log, least).len(),
        forall|i: int| 0 <= i < places.len() ==> 0 <= #[trigger] places[i] < log.len(),
        forall|i: int, j: int|
            0 <= i < j < places.len() ==> #[trigger] places[i] < #[trigger] places[j],
        forall|i: int| #![trigger places[i]]
            0 <= i < places.len() ==> {
                let line = log[places[i]];
                let shown = shown_lines(log, least)[i];
                &&& line.level.gravity() >= least.gravity()
                &&& shown.level == line.level
                &&& shown.text == line.level.mark() + "  "@ + line.text
            },
        forall|k: int| #![trigger log[k]]
            0 <= k < log.len() && log[k].level.gravity() >= least.gravity() ==> places.contains(k),
    decreases log.len(),
{
    if log.len() == 0 {
        Seq::empty()
    } else {
        let rest = log.drop_last();
        let before = what_is_severe_enough_is_shown(rest, least);
        let last = log.len() - 1;
        let places = if log.last().level.gravity() >= least.gravity() {
            before.push(last)
        } else {
            before
        };
        assert forall|i: int| 0 <= i < before.len() implies #[trigger] log[before[i]]
            == rest[before[i]] by {}
        assert forall|k: int| #![trigger log[k]]
            0 <= k < log.len() && log[k].level.gravity() >= least.gravity() implies places.contains(
            k,
        ) by {
            if k == last {
                assert(places[before.len() as int] == k);
            } else {
                assert(rest[k] == log[k]);
                let i = choose|i: int| 0 <= i < before.len() && before[i] == k;
                assert(places[i] == k);
            }
        }
        places
    }
}

/// A field called `message` is the message, and the last of them counts; any other
/// is kept behind those before it.
pub proof fn the_last_message_counts(
    carried: Carried,
    name: Seq<char>,
    first: Seq<char>,
    second: Seq<char>,
)
    ensures
        carried.with("message"@, first).message == Some(first),
        carried.with("message"@, first).fields == carried.fields,
        carried.with("message"@, first).with("message"@, second) == carried.with(
            "message"@,
            second,
        ),
        name != "message"@ ==> carried.with(name, first).message == carried.message,
        name != "message"@ ==> carried.with(name, first).fields.last() == (name, first)
            && carried.with(name, first).fields.drop_last() == carried.fields,
{
    assert(carried.fields.push((name, first)).drop_last() =~= carried.fields);
}

/// An event says its message and then its fields, each as its name, an equals sign
/// and its text, with a space in front of each that is not the first; and its
/// target stands two spaces in front of that. Where there is only a target, or only
/// something said, that is all of it.
pub proof fn an_event_says_what_it_carries(
    target: Seq<char>,
    carried: Carried,
    text: Seq<char>,
    fields: Seq<(Seq<char>, Seq<char>)>,
    name: Seq<char>,
    value: Seq<char>,
)
    ensures
        with_fields(text, Seq::empty()) == text,
        with_fields(text, fields).len() > 0 ==> with_fields(text, fields.push((name, value)))
            == with_fields(text, fields) + seq![' '] + name + seq!['='] + value,
        with_fields(text, fields).len() == 0 ==> with_fields(text, fields.push((name, value)))
            == name + seq!['='] + value,
        carried.message matches Some(message) ==> carried.heading() == message,
        carried.message is None ==> carried.heading().len() == 0,
        ({
            let said = with_fields(carried.heading(), carried.fields);
            &&& said.len() == 0 ==> event_text(target, carried) == target
            &&& target.len() == 0 ==> event_text(target, carried) == said
            &&& said.len() > 0 && target.len() > 0 ==> event_text(target, carried) == target + "  "@
                + said
        }),
{
    let more = fields.push((name, value));
    assert(more.drop_last() =~= fields);
    assert(with_fields(text, more) == with_field(with_fields(text, fields), (name, value)));
    if with_fields(text, fields).len() == 0 {
        assert(with_fields(text, fields) + name + seq!['='] + value =~= name + seq!['='] + value);
    }
    let said = with_fields(carried.heading(), carried.fields);
    if said.len() == 0 && target.len() == 0 {
        assert(said =~= target);
    }
}

} // verus!

//! What is sent to a Discord webhook, and how the outcome is shown.

use crate::http;
use crate::text;
use vstd::prelude::*;
use vstd::string::*;

verus! {

/// What a finished run came to.
#[derive(Debug, Clone)]
pub struct RunSummary {
    pub reason: String,
    pub elapsed_secs: u64,
    pub refreshes: u32,
    pub mystic_bought: u32,
    pub covenant_bought: u32,
    pub gold_spent: u64,
}

/// A duration as a summary words it: seconds, minutes with seconds, or hours
/// with minutes.
pub open spec fn duration_worded(secs: nat) -> Seq<char> {
    let h = secs / 3600;
    let m = (secs % 3600) / 60;
    let s = secs % 60;
    if h == 0 && m == 0 {
        text::decimal(s) + "s"@
    } else if h == 0 {
        text::decimal(m) + "m"@ + text::low_digits(s, 2) + "s"@
    } else {
        text::decimal(h) + "h"@ + text::low_digits(m, 2) + "m"@
    }
}

/// A duration: `45s`, `2m05s`, `1h02m`.
pub fn format_duration(secs: u64) -> (s: String)
    ensures
        s@ == duration_worded(secs as nat),
{
    let h = secs / 3600;
    let m = (secs % 3600) / 60;
    let rest = secs % 60;
    if h == 0 && m == 0 {
        let mut s = text::decimal_text(rest);
        s.append("s");
        s
    } else if h == 0 {
        let mut s = text::decimal_text(m);
        s.append("m");
        s.append(text::low_digits_text(rest, 2).as_str());
        s.append("s");
        s
    } else {
        let mut s = text::decimal_text(h);
        s.append("h");
        s.append(text::low_digits_text(m, 2).as_str());
        s.append("m");
        s
    }
}

/// An amount of gold, its digits grouped in threes: `280,000g`.
pub fn format_gold(n: u64) -> (s: String)
    ensures
        s@ == text::grouped_digits(n as nat) + "g"@,
{
    let mut s = text::grouped(n);
    s.append("g");
    s
}

impl RunSummary {
    /// The summary as it is posted.
    pub open spec fn worded(self) -> Seq<char> {
        "**e7-shop-refresher** — run finished\n• Reason: `"@ + self.reason@ + "`\n• Duration: "@
            + duration_worded(self.elapsed_secs as nat) + "\n• Refreshes: "@ + text::decimal(
            self.refreshes as nat,
        ) + "\n• Mystic medals: "@ + text::decimal(self.mystic_bought as nat)
            + "\n• Covenant bookmarks: "@ + text::decimal(self.covenant_bought as nat)
            + "\n• Gold spent: "@ + text::grouped_digits(self.gold_spent as nat) + "g"@
    }

    /// The summary as it is posted.
    pub fn to_discord_message(&self) -> (message: String)
        ensures
            message@ == self.worded(),
    {
        let mut message = "**e7-shop-refresher** — run finished\n• Reason: `".to_owned();
        message.append(self.reason.as_str());
        message.append("`\n• Duration: ");
        message.append(format_duration(self.elapsed_secs).as_str());
        message.append("\n• Refreshes: ");
        message.append(text::decimal_text(self.refreshes as u64).as_str());
        message.append("\n• Mystic medals: ");
        message.append(text::decimal_text(self.mystic_bought as u64).as_str());
        message.append("\n• Covenant bookmarks: ");
        message.append(text::decimal_text(self.covenant_bought as u64).as_str());
        message.append("\n• Gold spent: ");
        message.append(text::grouped(self.gold_spent).as_str());
        message.append("g");
        message
    }
}

/// The JSON object that holds `value` as a string under `key`, and nothing
/// else, as `serde_json` writes it.
pub uninterp spec fn json_object(key: Seq<char>, value: Seq<char>) -> Seq<char>;

/// `serde_json::Value::to_string` of an object with one string in it: a
/// function of the key and the string alone. How they are escaped is not
/// stated.
#[verifier::external_body]
fn json_of_one(key: &str, value: &str) -> (json: String)
    ensures
        json@ == json_object(key@, value@),
{
    let mut map = serde_json::Map::new();
    map.insert(key.to_owned(), serde_json::Value::from(value));
    serde_json::Value::Object(map).to_string()
}

/// The body that posts `content`.
pub open spec fn webhook_body(content: Seq<char>) -> Seq<char> {
    json_object("content"@, content)
}

/// The request that posts `content` to a webhook.
pub fn post(webhook_url: &str, content: &str) -> (asked: Result<http::Outgoing, String>)
    ensures
        match asked {
            Ok(asked) => http::url_fault(webhook_url@) is None && http::asks(
                asked,
                webhook_url@,
                "POST"@,
                "Content-Type: application/json\r\n"@,
                webhook_body(content@),
            ),
            Err(error) => http::url_fault(webhook_url@) == Some(error@),
        },
{
    let body = json_of_one("content", content);
    http::post_json(webhook_url, body.as_str())
}

/// How much of an error page is shown, in characters.
pub const SNIPPET_CHARS: usize = 140;

/// The first characters of a body, as an error shows them.
pub open spec fn snippet(body: Seq<char>) -> Seq<char> {
    if body.len() > SNIPPET_CHARS {
        body.take(SNIPPET_CHARS as int)
    } else {
        body
    }
}

/// What a webhook's reply means: delivered on 200 and 204, and a short message
/// on anything else.
pub fn webhook_outcome(reply: Result<(u32, String), String>) -> (outcome: Result<(), String>)
    ensures
        match reply {
            Ok((status, body)) => if status == 204 || status == 200 {
                outcome is Ok
            } else {
                outcome matches Err(error) && error@ == "HTTP "@ + text::decimal(status as nat)
                    + ": "@ + snippet(body@)
            },
            Err(failure) => outcome matches Err(error) && error@ == failure@,
        },
{
    match reply {
        Ok((status, body)) => {
            if status == 204 || status == 200 {
                Ok(())
            } else {
                let mut chars = text::chars_of(body.as_str());
                if chars.len() > SNIPPET_CHARS {
                    chars.truncate(SNIPPET_CHARS);
                }
                assert(chars@ =~= snippet(body@));
                let mut error = "HTTP ".to_owned();
                error.append(text::decimal_text(status as u64).as_str());
                error.append(": ");
                error.append(text::string_of(chars.as_slice()).as_str());
                Err(error)
            }
        },
        Err(failure) => Err(failure),
    }
}

/// The request that delivers a run's summary; none where no webhook is set.
pub fn deliver_summary_blocking(webhook_url: &str, summary: RunSummary) -> (asked: Option<
    Result<http::Outgoing, String>,
>)
    ensures
        match asked {
            None => webhook_url@.len() == 0,
            Some(Ok(asked)) => webhook_url@.len() > 0 && http::url_fault(webhook_url@) is None
                && http::asks(
                asked,
                webhook_url@,
                "POST"@,
                "Content-Type: application/json\r\n"@,
                webhook_body(summary.worded()),
            ),
            Some(Err(error)) => webhook_url@.len() > 0 && http::url_fault(webhook_url@) == Some(
                error@,
            ),
        },
{
    if webhook_url.is_empty() {
        return None;
    }
    Some(post(webhook_url, summary.to_discord_message().as_str()))
}

/// How long a finished result stays visible, in milliseconds.
pub const RESULT_VISIBLE_MS: u64 = 8_000;

/// Where a webhook test stands.
#[derive(Debug, Clone, PartialEq, Eq)]
pub enum TestEventKind {
    Pending,
    Delivered,
    Failed(String),
}

impl TestEventKind {
    /// What the window says of a test.
    pub fn line(&self) -> (line: String)
        ensures
            match self {
                TestEventKind::Pending => line@ == "Sending…"@,
                TestEventKind::Delivered => line@ == "Sent"@,
                TestEventKind::Failed(message) => line@ == "Failed: "@ + message@,
            },
    {
        match self {
            TestEventKind::Pending => "Sending…".to_owned(),
            TestEventKind::Delivered => "Sent".to_owned(),
            TestEventKind::Failed(message) => {
                let mut line = "Failed: ".to_owned();
                line.append(message.as_str());
                line
            },
        }
    }
}

/// What last happened to a webhook test, and when.
#[derive(Debug, Clone, PartialEq, Eq)]
pub struct TestEvent {
    pub kind: TestEventKind,
    /// On the clock that `visible` is asked with, in milliseconds.
    pub at: u64,
}

/// The outcome of the last webhook test, as the window shows it.
#[derive(Debug, Clone)]
pub struct WebhookTestStatus {
    inner: Option<TestEvent>,
}

impl View for WebhookTestStatus {
    type V = Option<TestEvent>;

    closed spec fn view(&self) -> Option<TestEvent> {
        self.inner
    }
}

/// Whether a test is in flight.
pub open spec fn in_flight(last: Option<TestEvent>) -> bool {
    last matches Some(event) && event.kind is Pending
}

/// Whether what last happened is still shown: a test in flight always is, a
/// finished one until it fades.
pub open spec fn is_visible(last: Option<TestEvent>, now: u64) -> bool {
    last matches Some(event) && (event.kind is Pending || now < event.at + RESULT_VISIBLE_MS)
}

impl WebhookTestStatus {
    /// No test was made yet.
    pub fn new() -> (status: Self)
        ensures
            status@ is None,
    {
        WebhookTestStatus { inner: None }
    }

    /// Records what happened at `now`.
    pub fn set(&mut self, kind: TestEventKind, now: u64)
        ensures
            final(self)@ == Some(TestEvent { kind, at: now }),
    {
        self.inner = Some(TestEvent { kind, at: now });
    }

    /// Claims the one test that may be in flight; false where one already is.
    pub fn try_begin(&mut self, now: u64) -> (begun: bool)
        ensures
            begun == !in_flight(old(self)@),
            final(self)@ == if begun {
                Some(TestEvent { kind: TestEventKind::Pending, at: now })
            } else {
                old(self)@
            },
    {
        let taken = match &self.inner {
            Some(event) => matches!(event.kind, TestEventKind::Pending),
            None => false,
        };
        if taken {
            return false;
        }
        self.inner = Some(TestEvent { kind: TestEventKind::Pending, at: now });
        true
    }

    /// What is shown at `now`: nothing once a finished result has faded.
    pub fn visible(&self, now: u64) -> (kind: Option<TestEventKind>)
        ensures
            match kind {
                Some(kind) => is_visible(self@, now) && match self@->0.kind {
                    TestEventKind::Failed(message) => kind matches TestEventKind::Failed(shown)
                        && shown@ == message@,
                    other => kind == other,
                },
                None => !is_visible(self@, now),
            },
    {
        match &self.inner {
            Some(event) => match &event.kind {
                TestEventKind::Pending => Some(TestEventKind::Pending),
                TestEventKind::Delivered => {
                    if now.saturating_sub(event.at) < RESULT_VISIBLE_MS {
                        Some(TestEventKind::Delivered)
                    } else {
                        None
                    }
                },
                TestEventKind::Failed(message) => {
                    if now.saturating_sub(event.at) < RESULT_VISIBLE_MS {
                        Some(TestEventKind::Failed(message.clone()))
                    } else {
                        None
                    }
                },
            },
            None => None,
        }
    }
}

/// The request of a webhook test: none where no webhook is set or a test is
/// still in flight. The test is in flight from then on.
pub fn send_discord_test(
    webhook_url: &str,
    content: &str,
    status: &mut WebhookTestStatus,
    now: u64,
) -> (asked: Option<Result<http::Outgoing, String>>)
    ensures
        match asked {
            None => (webhook_url@.len() == 0 || in_flight(old(status)@)) && final(status)@ == old(
                status,
            )@,
            Some(asked) => {
                &&& webhook_url@.len() > 0 && !in_flight(old(status)@)
                &&& in_flight(final(status)@) && final(status)@->0.at == now
                &&& match asked {
                    Ok(asked) => http::url_fault(webhook_url@) is None && http::asks(
                        asked,
                        webhook_url@,
                        "POST"@,
                        "Content-Type: application/json\r\n"@,
                        webhook_body(content@),
                    ),
                    Err(error) => http::url_fault(webhook_url@) == Some(error@),
                }
            },
        },
{
    if webhook_url.is_empty() {
        return None;
    }
    if !status.try_begin(now) {
        return None;
    }
    Some(post(webhook_url, content))
}

/// The state that a finished test leaves.
pub fn test_finished(outcome: Result<(), String>) -> (kind: TestEventKind)
    ensures
        match outcome {
            Ok(_) => kind is Delivered,
            Err(error) => kind == TestEventKind::Failed(error),
        },
{
    match outcome {
        Ok(_) => TestEventKind::Delivered,
        Err(error) => TestEventKind::Failed(error),
    }
}

/// A duration is worded in the largest unit that it reaches and the next one, the
/// second of them in two digits; below a minute in seconds alone.
pub proof fn a_duration_is_worded_in_its_largest_units(hours: nat, minutes: nat, seconds: nat)
    requires
        minutes < 60,
        seconds < 60,
    ensures
        duration_worded(seconds) == text::decimal(seconds) + "s"@,
        minutes > 0 ==> duration_worded(60 * minutes + seconds) == text::decimal(minutes) + "m"@
            + text::low_digits(seconds, 2) + "s"@,
        hours > 0 ==> duration_worded(3600 * hours + 60 * minutes + seconds) == text::decimal(hours)
            + "h"@ + text::low_digits(minutes, 2) + "m"@,
{
}

/// What an error shows of a page is its beginning: all of it up to 140 characters,
/// and the first 140 of a longer one.
pub proof fn a_snippet_is_the_beginning(body: Seq<char>)
    ensures
        text::begins_with(body, snippet(body)),
        body.len() <= 140 ==> snippet(body) == body,
        body.len() > 140 ==> snippet(body).len() == 140,
{
    assert(body.take(body.len() as int) =~= body);
    assert(body.take(snippet(body).len() as int) =~= snippet(body));
}

/// A test in flight is always shown, a finished one for eight seconds, and none
/// where none was made. Only one that is in flight keeps another from starting.
pub proof fn a_result_fades_after_eight_seconds(event: TestEvent, now: u64)
    ensures
        !is_visible(None, now) && !in_flight(None),
        in_flight(Some(event)) <==> event.kind is Pending,
        event.kind is Pending ==> is_visible(Some(event), now),
        !(event.kind is Pending) && now - event.at < 8_000 ==> is_visible(Some(event), now),
        !(event.kind is Pending) && now - event.at >= 8_000 ==> !is_visible(Some(event), now),
{
}

} // verus!

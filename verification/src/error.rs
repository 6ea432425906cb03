//! Every way the app can fail, and how a failure is reported.
//!
//! A failure's message is its own layer alone; what caused it stands beside it,
//! the nearest cause first, and a report joins them.

use crate::text;
use vstd::prelude::*;
use vstd::string::*;

verus! {

/// Every way the app can fail.
#[derive(Debug, Clone, PartialEq, Eq)]
pub enum Error {
    /// A value parsed fine but breaks an invariant of the settings.
    Config(String),
    /// The settings file is not valid.
    ConfigParse { causes: Vec<String> },
    /// The settings file exists but could not be read.
    ConfigRead { path: String, causes: Vec<String> },
    /// The settings file could not be written.
    ConfigWrite { path: String, causes: Vec<String> },
    /// The settings file could not be read again before it was edited.
    ConfigReparse { causes: Vec<String> },
    /// A section of the settings could not be serialized.
    ConfigSerialize { causes: Vec<String> },
    /// The capture backend refused or failed.
    Capture(String),
    /// A supervised task died; the text already names which one.
    Fatal(String),
}

impl Error {
    /// This failure's own layer.
    pub open spec fn layer(self) -> Seq<char> {
        match self {
            Error::Config(what) => "invalid configuration: "@ + what@,
            Error::ConfigParse { .. } => "config.toml is not valid"@,
            Error::ConfigRead { path, .. } => "could not read "@ + path@,
            Error::ConfigWrite { path, .. } => "could not write "@ + path@,
            Error::ConfigReparse { .. } => "config.toml could not be re-parsed to be edited"@,
            Error::ConfigSerialize { .. } => "a config section could not be serialized"@,
            Error::Capture(what) => "network capture: "@ + what@,
            Error::Fatal(what) => what@,
        }
    }

    /// What caused this failure, the nearest cause first.
    pub open spec fn chain(self) -> Seq<String> {
        match self {
            Error::Config(_) => Seq::empty(),
            Error::ConfigParse { causes } => causes@,
            Error::ConfigRead { causes, .. } => causes@,
            Error::ConfigWrite { causes, .. } => causes@,
            Error::ConfigReparse { causes } => causes@,
            Error::ConfigSerialize { causes } => causes@,
            Error::Capture(_) => Seq::empty(),
            Error::Fatal(_) => Seq::empty(),
        }
    }

    /// The whole report: this layer and every cause, joined.
    pub open spec fn reported(self) -> Seq<char> {
        text::joined(seq![self.layer()] + text::views(self.chain()), ": "@)
    }

    /// This failure's own layer.
    pub fn to_text(&self) -> (message: String)
        ensures
            message@ == self.layer(),
    {
        match self {
            Error::Config(what) => {
                let mut message = "invalid configuration: ".to_owned();
                message.append(what.as_str());
                message
            },
            Error::ConfigParse { .. } => "config.toml is not valid".to_owned(),
            Error::ConfigRead { path, .. } => {
                let mut message = "could not read ".to_owned();
                message.append(path.as_str());
                message
            },
            Error::ConfigWrite { path, .. } => {
                let mut message = "could not write ".to_owned();
                message.append(path.as_str());
                message
            },
            Error::ConfigReparse { .. } => {
                "config.toml could not be re-parsed to be edited".to_owned()
            },
            Error::ConfigSerialize { .. } => "a config section could not be serialized".to_owned(),
            Error::Capture(what) => {
                let mut message = "network capture: ".to_owned();
                message.append(what.as_str());
                message
            },
            Error::Fatal(what) => what.clone(),
        }
    }

    fn extend(message: String, causes: &Vec<String>) -> (report: String)
        ensures
            report@ == text::joined(seq![message@] + text::views(causes@), ": "@),
    {
        let mut report = message;
        assert(seq![message@] + text::views(causes@).take(0) =~= seq![message@]);
        for i in 0..causes.len()
            invariant
                report@ == text::joined(
                    seq![message@] + text::views(causes@).take(i as int),
                    ": "@,
                ),
        {
            let ghost before = seq![message@] + text::views(causes@).take(i as int);
            let ghost after = seq![message@] + text::views(causes@).take(i + 1);
            assert(after.drop_last() =~= before);
            assert(after.last() == causes@[i as int]@);
            report.append(": ");
            report.append(causes[i].as_str());
        }
        assert(text::views(causes@).take(causes@.len() as int) =~= text::views(causes@));
        report
    }

    /// This failure and every cause behind it, joined: what a player is shown.
    pub fn report(&self) -> (report: String)
        ensures
            report@ == self.reported(),
    {
        let message = self.to_text();
        let none: Vec<String> = Vec::new();
        match self {
            Error::ConfigParse { causes } => Self::extend(message, causes),
            Error::ConfigRead { causes, .. } => Self::extend(message, causes),
            Error::ConfigWrite { causes, .. } => Self::extend(message, causes),
            Error::ConfigReparse { causes } => Self::extend(message, causes),
            Error::ConfigSerialize { causes } => Self::extend(message, causes),
            _ => {
                assert(none@ =~= self.chain());
                Self::extend(message, &none)
            },
        }
    }
}

/// A failure without a cause is reported as its message alone.
pub proof fn a_failure_without_a_cause_is_its_message(error: Error)
    requires
        error.chain().len() == 0,
    ensures
        error.reported() == error.layer(),
{
    assert(seq![error.layer()] + text::views(error.chain()) =~= seq![error.layer()]);
}

/// A report begins with the failure's own message.
pub proof fn a_report_begins_with_its_message(error: Error)
    ensures
        text::begins_with(error.reported(), error.layer()),
{
    let parts = seq![error.layer()] + text::views(error.chain());
    joined_begins_with_its_first(parts, ": "@);
}

proof fn joined_begins_with_its_first(parts: Seq<Seq<char>>, separator: Seq<char>)
    requires
        parts.len() > 0,
    ensures
        text::begins_with(text::joined(parts, separator), parts[0]),
    decreases parts.len(),
{
    if parts.len() == 1 {
        assert(parts[0].take(parts[0].len() as int) =~= parts[0]);
    } else {
        let rest = parts.drop_last();
        joined_begins_with_its_first(rest, separator);
        let before = text::joined(rest, separator);
        let all = text::joined(parts, separator);
        let n = parts[0].len() as int;
        assert(all.take(n) =~= before.take(n));
    }
}

/// A report is the failure's message and then every cause in its order, a colon
/// before each; what has a list of causes reports that list, and nothing else has
/// any.
pub proof fn a_report_tells_every_cause(error: Error)
    ensures
        match error {
            Error::ConfigParse { causes }
            | Error::ConfigRead { causes, .. }
            | Error::ConfigWrite { causes, .. }
            | Error::ConfigReparse { causes }
            | Error::ConfigSerialize { causes } => error.chain() == causes@,
            _ => error.chain().len() == 0,
        },
        error.chain().len() > 0 ==> error.reported() == error.layer() + ": "@ + text::joined(
            text::views(error.chain()),
            ": "@,
        ),
{
    if error.chain().len() > 0 {
        let first = seq![error.layer()];
        text::joining_is_putting_side_by_side(
            first,
            text::views(error.chain()),
            error.layer(),
            ": "@,
        );
        assert(text::joined(first, ": "@) == error.layer());
    }
}

} // verus!

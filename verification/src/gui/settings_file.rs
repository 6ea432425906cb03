//! The settings file as a document that keeps its comments: sections, and in
//! each section keys with values.

use toml_edit::{Array, DocumentMut, Item, Table, Value};
use vstd::prelude::*;

verus! {

/// What a setting says.
pub enum Setting {
    Integer(int),
    Flag(bool),
    Text(Seq<char>),
    /// A number with a fraction, as it is spelled.
    Real(Seq<char>),
    /// A date or a time, as it is spelled.
    Date(Seq<char>),
    List(Seq<Setting>),
    /// A table written inline: what each of its keys says.
    Table(Map<Seq<char>, Setting>),
}

/// A key of a section.
pub type At = (Seq<char>, Seq<char>);

/// A step from a table to what stands under one of its keys, or from tables in a
/// row to one of them.
pub enum Step {
    Key(Seq<char>),
    Nth(nat),
}

/// What is written in front of something and behind it: comments, spaces and
/// blank lines, the carriage returns left out.
pub type Around = (Seq<char>, Seq<char>);

/// What stands at the end of some steps.
pub enum Thing {
    /// A value, with what is written in front of its key and behind the value up
    /// to the end of its line.
    Says(Setting, Around),
    /// A table that is not written inline, with what is written around its header
    /// where it has one.
    Table(Option<Around>),
    /// So many tables in a row.
    Tables(nat),
}

/// A document of `toml_edit`.
#[verifier::external_type_specification]
#[verifier::external_body]
pub struct ExDocumentMut(DocumentMut);

/// A value of `toml_edit`.
#[verifier::external_type_specification]
#[verifier::external_body]
pub struct ExValue(Value);

/// Every name at the top of a document, and whether it names a section, that
/// is a table that is not written inline.
pub uninterp spec fn sections(doc: DocumentMut) -> Map<Seq<char>, bool>;

/// What each key of each section says, of the keys that hold a value.
pub uninterp spec fn settings(doc: DocumentMut) -> Map<At, Setting>;

/// Everything else that a document holds, by the steps from its top: values that
/// stand in no section, tables within sections, tables in a row, and what each of
/// these holds, all with what is written around it.
pub uninterp spec fn rest(doc: DocumentMut) -> Map<Seq<Step>, Thing>;

/// The sections that have a header of their own, and so are written even where
/// they hold nothing.
pub uninterp spec fn headed(doc: DocumentMut) -> Set<Seq<char>>;

/// What is written in front of each key that holds a value, of each section:
/// comments and blank lines, the carriage returns left out.
pub uninterp spec fn remarks(doc: DocumentMut) -> Map<At, Seq<char>>;

/// What is written behind the value of each key that holds one, up to the end of
/// its line: spaces and a comment, the carriage returns left out.
pub uninterp spec fn trails(doc: DocumentMut) -> Map<At, Seq<char>>;

/// What is written in front of and behind the header of each section that was
/// read with one.
pub uninterp spec fn headings(doc: DocumentMut) -> Map<Seq<char>, Around>;

/// What is written behind all that a document holds, the carriage returns left
/// out.
pub uninterp spec fn ending(doc: DocumentMut) -> Seq<char>;

/// Whether all that a document holds between its keys and values was read from
/// a text, or is `toml_edit`'s own: nothing was set there by hand.
pub uninterp spec fn is_native(doc: DocumentMut) -> bool;

/// What a value says.
pub uninterp spec fn said(value: Value) -> Setting;

/// Whether nothing was set around a value, or inside of it, by hand.
pub uninterp spec fn is_bare(value: Value) -> bool;

/// What a document holds, and what is written around it.
pub struct Contents {
    pub sections: Map<Seq<char>, bool>,
    pub settings: Map<At, Setting>,
    pub rest: Map<Seq<Step>, Thing>,
    pub headed: Set<Seq<char>>,
    pub remarks: Map<At, Seq<char>>,
    pub trails: Map<At, Seq<char>>,
    pub headings: Map<Seq<char>, Around>,
    pub ending: Seq<char>,
}

/// What a document holds, and what is written around it.
pub open spec fn contents(doc: DocumentMut) -> Contents {
    Contents {
        sections: sections(doc),
        settings: settings(doc),
        rest: rest(doc),
        headed: headed(doc),
        remarks: remarks(doc),
        trails: trails(doc),
        headings: headings(doc),
        ending: ending(doc),
    }
}

/// Whether something stands in a section.
pub open spec fn is_filled(
    settings: Map<At, Setting>,
    rest: Map<Seq<Step>, Thing>,
    section: Seq<char>,
) -> bool {
    ||| exists|key: Seq<char>| #[trigger] settings.contains_key((section, key))
    ||| exists|path: Seq<Step>| #[trigger]
        rest.contains_key(path) && path.len() > 1 && path[0] == Step::Key(section)
}

/// Whether a name at the top of a document is written out: every one is, but for
/// a section that has no header and holds nothing.
pub open spec fn is_written(held: Contents, name: Seq<char>) -> bool {
    &&& held.sections.contains_key(name)
    &&& held.sections[name] ==> held.headed.contains(name) || is_filled(
        held.settings,
        held.rest,
        name,
    )
}

/// Whether every name at the top of a document is written out.
pub open spec fn is_written_whole(held: Contents) -> bool {
    forall|name: Seq<char>| #[trigger]
        held.sections.contains_key(name) ==> is_written(held, name)
}

/// Whether steps lead to what stands under a key of a section, or into it.
pub open spec fn is_under(path: Seq<Step>, at: At) -> bool {
    path.len() > 1 && path[0] == Step::Key(at.0) && path[1] == Step::Key(at.1)
}

/// What is left once nothing stands under a key of a section.
pub open spec fn without(rest: Map<Seq<Step>, Thing>, at: At) -> Map<Seq<Step>, Thing> {
    Map::new(|path: Seq<Step>| rest.contains_key(path) && !is_under(path, at), |path| rest[path])
}

/// What a text reads as, or why it is no document.
pub uninterp spec fn read(text: Seq<char>) -> Result<Contents, Seq<char>>;

/// `toml_edit`'s parse of a text into a document: the document that the text
/// reads as, or the error's text. A section that was read has a header, or holds
/// what made it one.
#[verifier::external_body]
pub(crate) fn parse(text: &str) -> (doc: Result<DocumentMut, String>)
    ensures
        match (doc, read(text@)) {
            (Ok(doc), Ok(whole)) => contents(doc) == whole,
            (Err(error), Err(why)) => error@ == why,
            _ => false,
        },
        doc matches Ok(doc) ==> is_native(doc) && is_written_whole(contents(doc)),
{
    text.parse::<DocumentMut>().map_err(|error| error.to_string())
}

/// Whether a text reads as a document that holds the same, with the same around
/// its settings: in front of them, behind them, at every header and at the end.
pub open spec fn reads_as(text: Seq<char>, held: Contents) -> bool {
    &&& read(text) is Ok
    &&& has_names_of(read(text)->Ok_0.sections, held)
    &&& read(text)->Ok_0.settings == held.settings
    &&& read(text)->Ok_0.rest == held.rest
    &&& read(text)->Ok_0.remarks == held.remarks
    &&& read(text)->Ok_0.trails == held.trails
    &&& held.headings.submap_of(read(text)->Ok_0.headings)
    &&& read(text)->Ok_0.ending == held.ending
}

/// Whether the names at the top of a document are those that another one writes
/// out.
pub open spec fn has_names_of(sections: Map<Seq<char>, bool>, held: Contents) -> bool {
    &&& forall|name: Seq<char>| #[trigger]
        sections.contains_key(name) <==> is_written(held, name)
    &&& sections.submap_of(held.sections)
}

/// The text of a document, by `toml_edit`'s `Display` of it: reading it gives
/// the same settings and the same besides them, with the same around them. A
/// section that was not read with a header may be written with one, and is left
/// out where it holds nothing.
#[verifier::external_body]
pub(crate) fn text_of(doc: &DocumentMut) -> (text: String)
    requires
        is_native(*doc),
    ensures
        reads_as(text@, contents(*doc)),
{
    doc.to_string()
}

/// `toml_edit`'s entry of a name, with a new empty table put there where there
/// is nothing, and whether what is there now is a section.
#[verifier::external_body]
pub(crate) fn open_section(doc: &mut DocumentMut, section: &str) -> (is_section: bool)
    requires
        is_native(*old(doc)),
    ensures
        is_native(*final(doc)),
        sections(*final(doc)) == if sections(*old(doc)).contains_key(section@) {
            sections(*old(doc))
        } else {
            sections(*old(doc)).insert(section@, true)
        },
        settings(*final(doc)) == settings(*old(doc)),
        rest(*final(doc)) == rest(*old(doc)),
        headed(*final(doc)) == if sections(*old(doc)).contains_key(section@) {
            headed(*old(doc))
        } else {
            headed(*old(doc)).insert(section@)
        },
        remarks(*final(doc)) == remarks(*old(doc)),
        trails(*final(doc)) == trails(*old(doc)),
        headings(*final(doc)) == headings(*old(doc)),
        ending(*final(doc)) == ending(*old(doc)),
        is_section == sections(*final(doc))[section@],
{
    doc.entry(section).or_insert(Item::Table(Table::new())).is_table()
}

/// Whether a key of a section holds a value: `toml_edit`'s `Item::is_value` of
/// what is there.
#[verifier::external_body]
pub(crate) fn holds_value(doc: &DocumentMut, section: &str, key: &str) -> (held: bool)
    requires
        sections(*doc).contains_key(section@) && sections(*doc)[section@],
    ensures
        held == settings(*doc).contains_key((section@, key@)),
{
    doc.get(section).and_then(|table| table.get(key)).is_some_and(Item::is_value)
}

/// Whether a key of a section holds a list: `toml_edit`'s `Item::is_array` of
/// what is there.
#[verifier::external_body]
pub(crate) fn holds_list(doc: &DocumentMut, section: &str, key: &str) -> (held: bool)
    requires
        sections(*doc).contains_key(section@) && sections(*doc)[section@],
    ensures
        held == (settings(*doc).contains_key((section@, key@)) && settings(*doc)[(
            section@,
            key@,
        )] is List),
{
    doc.get(section).and_then(|table| table.get(key)).is_some_and(Item::is_array)
}

/// Puts another value into a key that holds one, through `toml_edit`'s
/// `Item::as_value_mut`. The key itself is not touched, and so keeps what is
/// written in front of it; the `Value::decor` of the old value goes to the new
/// one, and with it what is written behind. Under a key that holds a value
/// stands nothing else.
#[verifier::external_body]
pub(crate) fn replace(doc: &mut DocumentMut, section: &str, key: &str, value: Value)
    requires
        is_native(*old(doc)),
        is_bare(value),
        sections(*old(doc)).contains_key(section@) && sections(*old(doc))[section@],
        settings(*old(doc)).contains_key((section@, key@)),
    ensures
        is_native(*final(doc)),
        sections(*final(doc)) == sections(*old(doc)),
        settings(*final(doc)) == settings(*old(doc)).insert((section@, key@), said(value)),
        rest(*final(doc)) == without(rest(*old(doc)), (section@, key@)),
        headed(*final(doc)) == headed(*old(doc)),
        remarks(*final(doc)) == remarks(*old(doc)),
        trails(*final(doc)) == trails(*old(doc)),
        headings(*final(doc)) == headings(*old(doc)),
        ending(*final(doc)) == ending(*old(doc)),
{
    if let Some(slot) = doc[section].get_mut(key).and_then(Item::as_value_mut) {
        let mut value = value;
        *value.decor_mut() = slot.decor().clone();
        *slot = value;
    }
}

/// `toml_edit`'s `Table::insert` of a value under a key, whatever was there, a
/// table with all that it holds too: what was written in front of that key and
/// behind its value is lost, and no other key is touched.
#[verifier::external_body]
pub(crate) fn insert(doc: &mut DocumentMut, section: &str, key: &str, value: Value)
    requires
        is_native(*old(doc)),
        is_bare(value),
        sections(*old(doc)).contains_key(section@) && sections(*old(doc))[section@],
    ensures
        is_native(*final(doc)),
        sections(*final(doc)) == sections(*old(doc)),
        settings(*final(doc)) == settings(*old(doc)).insert((section@, key@), said(value)),
        rest(*final(doc)) == without(rest(*old(doc)), (section@, key@)),
        headed(*final(doc)) == headed(*old(doc)),
        remarks(*final(doc)) == remarks(*old(doc)).insert((section@, key@), Seq::empty()),
        trails(*final(doc)) == trails(*old(doc)).insert((section@, key@), Seq::empty()),
        headings(*final(doc)) == headings(*old(doc)),
        ending(*final(doc)) == ending(*old(doc)),
{
    if let Some(table) = doc[section].as_table_mut() {
        table.insert(key, Item::Value(value));
    }
}

/// `toml_edit`'s `Table::remove` of a key, whatever was there, a table with all
/// that it holds too, with what is written around it.
#[verifier::external_body]
pub(crate) fn remove(doc: &mut DocumentMut, section: &str, key: &str)
    requires
        is_native(*old(doc)),
        sections(*old(doc)).contains_key(section@) && sections(*old(doc))[section@],
    ensures
        is_native(*final(doc)),
        sections(*final(doc)) == sections(*old(doc)),
        settings(*final(doc)) == settings(*old(doc)).remove((section@, key@)),
        rest(*final(doc)) == without(rest(*old(doc)), (section@, key@)),
        headed(*final(doc)) == headed(*old(doc)),
        remarks(*final(doc)) == remarks(*old(doc)).remove((section@, key@)),
        trails(*final(doc)) == trails(*old(doc)).remove((section@, key@)),
        headings(*final(doc)) == headings(*old(doc)),
        ending(*final(doc)) == ending(*old(doc)),
{
    if let Some(table) = doc[section].as_table_mut() {
        table.remove(key);
    }
}

/// `toml_edit`'s `Array::clear` of the list that a key holds. Under a key that
/// holds a list stands nothing else.
#[verifier::external_body]
pub(crate) fn clear_list(doc: &mut DocumentMut, section: &str, key: &str)
    requires
        is_native(*old(doc)),
        settings(*old(doc)).contains_key((section@, key@)),
        settings(*old(doc))[(section@, key@)] is List,
    ensures
        is_native(*final(doc)),
        sections(*final(doc)) == sections(*old(doc)),
        settings(*final(doc)) == settings(*old(doc)).insert(
            (section@, key@),
            Setting::List(Seq::empty()),
        ),
        rest(*final(doc)) == without(rest(*old(doc)), (section@, key@)),
        headed(*final(doc)) == headed(*old(doc)),
        remarks(*final(doc)) == remarks(*old(doc)),
        trails(*final(doc)) == trails(*old(doc)),
        headings(*final(doc)) == headings(*old(doc)),
        ending(*final(doc)) == ending(*old(doc)),
{
    if let Some(list) = doc[section].get_mut(key).and_then(Item::as_array_mut) {
        list.clear();
    }
}

/// `toml_edit`'s `Array::push` to the list that a key holds.
#[verifier::external_body]
pub(crate) fn push_to_list(doc: &mut DocumentMut, section: &str, key: &str, value: Value)
    requires
        is_native(*old(doc)),
        is_bare(value),
        settings(*old(doc)).contains_key((section@, key@)),
        settings(*old(doc))[(section@, key@)] is List,
    ensures
        is_native(*final(doc)),
        sections(*final(doc)) == sections(*old(doc)),
        settings(*final(doc)) == settings(*old(doc)).insert(
            (section@, key@),
            Setting::List(settings(*old(doc))[(section@, key@)]->List_0.push(said(value))),
        ),
        rest(*final(doc)) == rest(*old(doc)),
        headed(*final(doc)) == headed(*old(doc)),
        remarks(*final(doc)) == remarks(*old(doc)),
        trails(*final(doc)) == trails(*old(doc)),
        headings(*final(doc)) == headings(*old(doc)),
        ending(*final(doc)) == ending(*old(doc)),
{
    if let Some(list) = doc[section].get_mut(key).and_then(Item::as_array_mut) {
        list.push(value);
    }
}

/// `toml_edit`'s `Array::fmt` of the list that a key holds, which changes how
/// the list is written and not what it says.
#[verifier::external_body]
pub(crate) fn tidy_list(doc: &mut DocumentMut, section: &str, key: &str)
    requires
        is_native(*old(doc)),
        settings(*old(doc)).contains_key((section@, key@)),
        settings(*old(doc))[(section@, key@)] is List,
    ensures
        is_native(*final(doc)),
        sections(*final(doc)) == sections(*old(doc)),
        settings(*final(doc)) == settings(*old(doc)),
        rest(*final(doc)) == rest(*old(doc)),
        headed(*final(doc)) == headed(*old(doc)),
        remarks(*final(doc)) == remarks(*old(doc)),
        trails(*final(doc)) == trails(*old(doc)),
        headings(*final(doc)) == headings(*old(doc)),
        ending(*final(doc)) == ending(*old(doc)),
{
    if let Some(list) = doc[section].get_mut(key).and_then(Item::as_array_mut) {
        list.fmt();
    }
}

/// `toml_edit`'s value of an integer.
#[verifier::external_body]
pub(crate) fn integer(n: i64) -> (value: Value)
    ensures
        is_bare(value),
        said(value) == Setting::Integer(n as int),
{
    Value::from(n)
}

/// `toml_edit`'s value of a flag.
#[verifier::external_body]
pub(crate) fn flag(yes: bool) -> (value: Value)
    ensures
        is_bare(value),
        said(value) == Setting::Flag(yes),
{
    Value::from(yes)
}

/// `toml_edit`'s value of a text.
#[verifier::external_body]
pub(crate) fn text(s: &str) -> (value: Value)
    ensures
        is_bare(value),
        said(value) == Setting::Text(s@),
{
    Value::from(s)
}

/// `toml_edit`'s value of a new list.
#[verifier::external_body]
pub(crate) fn empty_list() -> (value: Value)
    ensures
        is_bare(value),
        said(value) == Setting::List(Seq::empty()),
{
    Value::from(Array::new())
}

/// Whether a text spells a number with a fraction: a plain decimal number, one
/// of the infinities, or none at all.
pub open spec fn is_real_literal(s: Seq<char>) -> bool {
    is_decimal_literal(s) || s == "inf"@ || s == "-inf"@ || s == "nan"@ || s == "-nan"@
}

/// Whether a text is a plain decimal number: perhaps a minus, digits without a
/// needless zero in front, a point and more digits; and no larger than a double
/// can be.
pub open spec fn is_decimal_literal(s: Seq<char>) -> bool {
    exists|point: int|
        is_split_at(s, digits_start(s), point) && is_in_reach(
            s.subrange(digits_start(s), point),
        )
}

/// Whether digits in front of a point stand for no more than the largest double,
/// which begins with 17976931348623157 and has 309 of them.
pub open spec fn is_in_reach(digits: Seq<char>) -> bool {
    digits.len() < 309 || digits.len() == 309 && crate::numbers::whole_part(digits, 17)
        <= 17_976_931_348_623_157
}

/// Where the digits of a number begin.
pub open spec fn digits_start(s: Seq<char>) -> int {
    if s.len() > 0 && s[0] == '-' {
        1
    } else {
        0
    }
}

/// Whether the point of a number that begins at `start` is at `point`.
pub open spec fn is_split_at(s: Seq<char>, start: int, point: int) -> bool {
    &&& start < point < s.len() - 1
    &&& s[point] == '.'
    &&& forall|i: int| start <= i < point ==> crate::numbers::is_digit(#[trigger] s[i])
    &&& forall|i: int| point < i < s.len() ==> crate::numbers::is_digit(#[trigger] s[i])
    &&& s[start] == '0' ==> point == start + 1
}

/// `toml_edit`'s parse of a number with a fraction into a value, which keeps how
/// the number is spelled. The parse refuses a decimal number that is too large
/// for a double, and takes every other literal of that form.
#[verifier::external_body]
pub(crate) fn number(literal: &str) -> (value: Value)
    requires
        is_real_literal(literal@),
    ensures
        is_bare(value),
        said(value) == Setting::Real(literal@),
{
    literal.parse::<Value>().unwrap()
}

} // verus!

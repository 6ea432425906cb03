//! How durations and amounts of gold are written and read.

use crate::doubles::{self, nearest, nearest_is_near};
use crate::numbers;
use crate::text;
use vstd::prelude::*;
use vstd::string::*;

verus! {

/// A duration in minutes, as it is shown.
pub open spec fn minutes_shown(total: nat) -> Seq<char> {
    let hours = total / 60;
    let minutes = total % 60;
    if hours == 0 {
        text::decimal(minutes) + "m"@
    } else if minutes == 0 {
        text::decimal(hours) + "h"@
    } else {
        text::decimal(hours) + "h"@ + text::low_digits(minutes, 2)
    }
}

/// A duration in minutes: `45m`, `2h`, `1h05`.
pub fn format_minutes(total: u32) -> (s: String)
    ensures
        s@ == minutes_shown(total as nat),
{
    let hours = total / 60;
    let minutes = total % 60;
    if hours == 0 {
        let mut s = text::decimal_text(minutes as u64);
        s.append("m");
        s
    } else if minutes == 0 {
        let mut s = text::decimal_text(hours as u64);
        s.append("h");
        s
    } else {
        let mut s = text::decimal_text(hours as u64);
        s.append("h");
        s.append(text::low_digits_text(minutes as u64, 2).as_str());
        s
    }
}

/// Whether `s` ends in `min`.
pub open spec fn ends_in_min(s: Seq<char>) -> bool {
    let n = s.len() as int;
    n >= 3 && s[n - 3] == 'm' && s[n - 2] == 'i' && s[n - 1] == 'n'
}

/// `s` without `min`, or else `m`, at its end, and without the white space
/// round what is left.
pub open spec fn without_minute_suffix(s: Seq<char>) -> Seq<char> {
    text::trimmed(
        if ends_in_min(s) {
            s.take(s.len() - 3)
        } else if s.len() > 0 && s.last() == 'm' {
            s.drop_last()
        } else {
            s
        },
    )
}

/// `s` without its unit of minutes.
pub fn strip_minute_suffix(s: &Vec<char>) -> (t: Vec<char>)
    ensures
        t@ == without_minute_suffix(s@),
{
    let n = s.len();
    if n >= 3 && s[n - 3] == 'm' && s[n - 2] == 'i' && s[n - 1] == 'n' {
        let head = text::slice_of(s, 0, n - 3);
        assert(head@ =~= s@.take(n - 3));
        text::trim(&head)
    } else if n > 0 && s[n - 1] == 'm' {
        let head = text::slice_of(s, 0, n - 1);
        assert(head@ =~= s@.drop_last());
        text::trim(&head)
    } else {
        text::trim(s)
    }
}

/// What is typed, as the parsers read it: trimmed and in lower case.
pub open spec fn typed(input: Seq<char>) -> Seq<char> {
    text::lowered(text::trimmed(input))
}

fn read_typed(input: &str) -> (s: Vec<char>)
    ensures
        s@ == typed(input@),
{
    let chars = text::chars_of(input);
    let trimmed = text::trim(&chars);
    text::to_lower(&trimmed)
}

/// Hours and minutes put together, where the sum is an amount of minutes.
pub open spec fn hours_and_minutes(hours: Option<nat>, minutes: Option<nat>) -> Option<nat> {
    if hours is Some && minutes is Some && hours->0 * 60 + minutes->0 <= u32::MAX {
        Some(hours->0 * 60 + minutes->0)
    } else {
        None
    }
}

/// The minutes that are typed after the hours; none typed is zero.
pub open spec fn minutes_after_hours(rest: Seq<char>) -> Option<nat> {
    let rest = without_minute_suffix(text::trimmed(rest));
    if rest.len() == 0 {
        Some(0)
    } else {
        numbers::whole(rest, u32::MAX as nat)
    }
}

/// The duration in minutes that is typed.
pub open spec fn minutes_typed(input: Seq<char>) -> Option<nat> {
    let s = typed(input);
    let h = numbers::first_of(s, 'h');
    if s.len() == 0 {
        Some(0)
    } else if h < s.len() {
        hours_and_minutes(
            numbers::whole(text::trimmed(s.take(h)), u32::MAX as nat),
            minutes_after_hours(s.skip(h + 1)),
        )
    } else {
        numbers::whole(without_minute_suffix(s), u32::MAX as nat)
    }
}

/// Accepts nothing (zero), a bare number of minutes, `30m`, `30 min`, `2h`,
/// `1h30`, `1h 30`, `1h30m`. `None` on anything else and on a duration too long
/// to hold, so that a field keeps its value over a typo.
pub fn parse_minutes(input: &str) -> (minutes: Option<u32>)
    ensures
        match minutes {
            Some(minutes) => minutes_typed(input@) == Some(minutes as nat),
            None => minutes_typed(input@) is None,
        },
{
    let s = read_typed(input);
    if s.len() == 0 {
        return Some(0);
    }
    let h = numbers::position(&s, 'h');
    if h < s.len() {
        let head = text::slice_of(&s, 0, h);
        assert(head@ =~= s@.take(h as int));
        let hours = match numbers::parse_whole(&text::trim(&head), u32::MAX as u64) {
            Some(hours) => hours,
            None => {
                return None;
            },
        };
        let tail = text::slice_of(&s, h + 1, s.len());
        assert(tail@ =~= s@.skip(h + 1));
        let rest = strip_minute_suffix(&text::trim(&tail));
        let minutes: u64 = if rest.len() == 0 {
            0
        } else {
            match numbers::parse_whole(&rest, u32::MAX as u64) {
                Some(minutes) => minutes,
                None => {
                    return None;
                },
            }
        };
        assert(minutes_after_hours(tail@) == Some(minutes as nat));
        let total = hours * 60 + minutes;
        if total > u32::MAX as u64 {
            return None;
        }
        return Some(total as u32);
    }
    match numbers::parse_whole(&strip_minute_suffix(&s), u32::MAX as u64) {
        Some(minutes) => Some(minutes as u32),
        None => None,
    }
}

/// An amount of gold, as it is shown: condensed to thousands or millions, with
/// one place behind the point below ten of them.
pub open spec fn gold_shown(n: nat) -> Seq<char> {
    if n < 1_000 {
        text::decimal(n) + "g"@
    } else if n < 10_000 {
        text::decimal(n / 1_000) + "."@ + text::decimal((n % 1_000) / 100) + "Kg"@
    } else if n < 1_000_000 {
        text::decimal(n / 1_000) + "Kg"@
    } else if n < 10_000_000 {
        text::decimal(n / 1_000_000) + "."@ + text::decimal((n % 1_000_000) / 100_000) + "Mg"@
    } else {
        text::decimal(n / 1_000_000) + "Mg"@
    }
}

/// An amount of gold: `999g`, `1.5Kg`, `280Kg`, `2.5Mg`, `100Mg`.
pub fn format_gold(n: u32) -> (s: String)
    ensures
        s@ == gold_shown(n as nat),
{
    if n < 1_000 {
        let mut s = text::decimal_text(n as u64);
        s.append("g");
        return s;
    }
    if n < 1_000_000 {
        let k = n / 1_000;
        let mut s = text::decimal_text(k as u64);
        if k < 10 {
            s.append(".");
            s.append(text::decimal_text(((n % 1_000) / 100) as u64).as_str());
        }
        s.append("Kg");
        return s;
    }
    let m = n / 1_000_000;
    let mut s = text::decimal_text(m as u64);
    if m < 10 {
        s.append(".");
        s.append(text::decimal_text(((n % 1_000_000) / 100_000) as u64).as_str());
    }
    s.append("Mg");
    s
}

/// `s` without the run of `c` at its end.
pub open spec fn without_trailing(s: Seq<char>, c: char) -> Seq<char>
    decreases s.len(),
{
    if s.len() > 0 && s.last() == c {
        without_trailing(s.drop_last(), c)
    } else {
        s
    }
}

/// A character that only separates digits.
pub open spec fn is_separator(c: char) -> bool {
    c == ',' || c == ' ' || c == '_'
}

/// `s` without its separators.
pub open spec fn without_separators(s: Seq<char>) -> Seq<char>
    decreases s.len(),
{
    if s.len() == 0 {
        s
    } else if is_separator(s.last()) {
        without_separators(s.drop_last())
    } else {
        without_separators(s.drop_last()).push(s.last())
    }
}

/// What is typed as an amount, without its unit of gold and its separators.
pub open spec fn amount_typed(input: Seq<char>) -> Seq<char> {
    without_separators(without_trailing(without_trailing(text::trimmed(input), 'g'), 'G'))
}

/// The amount that a decimal, read as a double, comes to times `factor`. None is
/// below zero, though what is too small for a double may have a minus.
pub open spec fn gold_scaled(digits: Seq<char>, factor: nat) -> Option<nat> {
    match numbers::spelled(digits) {
        Some(number) => if number.negative && number.double() > 0 || number.scaled(factor)
            > u32::MAX {
            None
        } else {
            Some(number.scaled(factor))
        },
        None => None,
    }
}

/// The amount of gold that is typed.
pub open spec fn gold_typed(input: Seq<char>) -> Option<nat> {
    let s = amount_typed(input);
    if s.len() == 0 {
        Some(0)
    } else if s.last() == 'K' || s.last() == 'k' {
        gold_scaled(s.drop_last(), 1_000)
    } else if s.last() == 'M' || s.last() == 'm' {
        gold_scaled(s.drop_last(), 1_000_000)
    } else {
        numbers::whole(s, u32::MAX as nat)
    }
}

fn drop_trailing(s: &Vec<char>, c: char) -> (t: Vec<char>)
    ensures
        t@ == without_trailing(s@, c),
{
    let mut end: usize = s.len();
    assert(s@.take(end as int) =~= s@);
    while end > 0 && s[end - 1] == c
        invariant
            end <= s@.len(),
            without_trailing(s@, c) == without_trailing(s@.take(end as int), c),
        decreases end,
    {
        assert(s@.take(end as int).drop_last() =~= s@.take(end - 1));
        end = end - 1;
    }
    let t = text::slice_of(s, 0, end);
    assert(t@ =~= s@.take(end as int));
    t
}

fn drop_separators(s: &Vec<char>) -> (t: Vec<char>)
    ensures
        t@ == without_separators(s@),
{
    let mut t: Vec<char> = Vec::new();
    for i in 0..s.len()
        invariant
            t@ == without_separators(s@.take(i as int)),
    {
        assert(s@.take(i + 1).drop_last() =~= s@.take(i as int));
        let c = s[i];
        if c != ',' && c != ' ' && c != '_' {
            t.push(c);
        }
    }
    assert(s@.take(s@.len() as int) =~= s@);
    t
}

fn parse_scaled_gold(digits: &Vec<char>, factor: u64) -> (n: Option<u32>)
    requires
        factor == 1_000 || factor == 1_000_000,
    ensures
        match n {
            Some(n) => gold_scaled(digits@, factor as nat) == Some(n as nat),
            None => gold_scaled(digits@, factor as nat) is None,
        },
{
    match numbers::parse_decimal(digits) {
        Some(number) => {
            if number.has_minus() && !number.vanishes() {
                return None;
            }
            match number.scaled(factor, u32::MAX as u64) {
                Some(n) => Some(n as u32),
                None => None,
            }
        },
        None => None,
    }
}

/// Accepts nothing (zero), a bare number, one with separators, and a decimal
/// with a `K` or `M` behind it, each with a unit of gold behind it or not.
/// `None` on anything else and on an amount too large to hold.
pub fn parse_gold(input: &str) -> (gold: Option<u32>)
    ensures
        match gold {
            Some(gold) => gold_typed(input@) == Some(gold as nat),
            None => gold_typed(input@) is None,
        },
{
    let chars = text::chars_of(input);
    let trimmed = text::trim(&chars);
    let s = drop_separators(&drop_trailing(&drop_trailing(&trimmed, 'g'), 'G'));
    if s.len() == 0 {
        return Some(0);
    }
    let last = s[s.len() - 1];
    let head = text::slice_of(&s, 0, s.len() - 1);
    assert(head@ =~= s@.drop_last());
    if last == 'K' || last == 'k' {
        parse_scaled_gold(&head, 1_000)
    } else if last == 'M' || last == 'm' {
        parse_scaled_gold(&head, 1_000_000)
    } else {
        match numbers::parse_whole(&s, u32::MAX as u64) {
            Some(n) => Some(n as u32),
            None => None,
        }
    }
}

/// How many parts a double of `ms` thousandths, from one to below ten, divides
/// one into.
pub open spec fn double_parts(ms: nat) -> nat {
    if ms < 2_000 {
        0x10_0000_0000_0000
    } else if ms < 4_000 {
        0x8_0000_0000_0000
    } else if ms < 8_000 {
        0x4_0000_0000_0000
    } else {
        0x2_0000_0000_0000
    }
}

/// The tenths that a double of `ms` thousandths, from one to below ten, is
/// shown with.
pub open spec fn tenths_shown(ms: nat) -> nat {
    nearest(nearest(ms * double_parts(ms), 1_000) * 10, double_parts(ms))
}

/// A duration in milliseconds, as it is shown.
pub open spec fn ms_shown(ms: nat) -> Seq<char> {
    if ms < 1_000 {
        text::decimal(ms) + "ms"@
    } else if ms < 10_000 {
        text::decimal(tenths_shown(ms) / 10) + "."@ + text::decimal(tenths_shown(ms) % 10) + "s"@
    } else {
        text::decimal(doubles::seconds(ms)) + "s"@
    }
}

fn nearest_whole(num: u128, den: u128) -> (n: u128)
    requires
        0 < den <= 0x10_0000_0000_0000,
        num <= 0xffff_ffff_ffff_ffff_ffff,
    ensures
        n == nearest(num as nat, den as nat),
{
    let whole = num / den;
    let rest = num % den;
    if 2 * rest < den || (2 * rest == den && whole % 2 == 0) {
        whole
    } else {
        whole + 1
    }
}

/// The tenths shown are the nearest: off by half a tenth at most.
pub proof fn tenths_are_near(ms: nat)
    requires
        1_000 <= ms < 10_000,
    ensures
        ms - 50 <= tenths_shown(ms) * 100 <= ms + 50,
{
    let parts = double_parts(ms);
    let double = nearest(ms * parts, 1_000);
    nearest_is_near(ms * parts, 1_000);
    nearest_is_near(double * 10, parts);
    let tenths = tenths_shown(ms);
    if ms < 2_000 {
        assert(ms * parts == ms * 0x10_0000_0000_0000 && tenths * parts == tenths
            * 0x10_0000_0000_0000);
    } else if ms < 4_000 {
        assert(ms * parts == ms * 0x8_0000_0000_0000 && tenths * parts == tenths
            * 0x8_0000_0000_0000);
    } else if ms < 8_000 {
        assert(ms * parts == ms * 0x4_0000_0000_0000 && tenths * parts == tenths
            * 0x4_0000_0000_0000);
    } else {
        assert(ms * parts == ms * 0x2_0000_0000_0000 && tenths * parts == tenths
            * 0x2_0000_0000_0000);
    }
}

fn shown_tenths(ms: u64) -> (tenths: u64)
    requires
        1_000 <= ms < 10_000,
    ensures
        tenths == tenths_shown(ms as nat),
{
    let parts: u128 = if ms < 2_000 {
        0x10_0000_0000_0000
    } else if ms < 4_000 {
        0x8_0000_0000_0000
    } else if ms < 8_000 {
        0x4_0000_0000_0000
    } else {
        0x2_0000_0000_0000
    };
    assert(0x2_0000_0000_0000 <= parts <= 0x10_0000_0000_0000);
    assert(ms * parts <= 10_000 * 0x10_0000_0000_0000) by (nonlinear_arith)
        requires
            ms < 10_000,
            parts <= 0x10_0000_0000_0000,
    ;
    let double = nearest_whole(ms as u128 * parts, 1_000);
    proof {
        nearest_is_near((ms * parts) as nat, 1_000);
        tenths_are_near(ms as nat);
    }
    nearest_whole(double * 10, parts) as u64
}

/// A duration in milliseconds: `500ms`, `1.5s`, `12s`.
pub fn format_ms(ms: u64) -> (s: String)
    ensures
        s@ == ms_shown(ms as nat),
{
    if ms < 1_000 {
        let mut s = text::decimal_text(ms);
        s.append("ms");
        s
    } else if ms < 10_000 {
        let tenths = shown_tenths(ms);
        let mut s = text::decimal_text(tenths / 10);
        s.append(".");
        s.append(text::decimal_text(tenths % 10).as_str());
        s.append("s");
        s
    } else {
        let seconds = doubles::in_seconds(ms);
        let mut s = text::decimal_text(seconds);
        s.append("s");
        s
    }
}

/// Seconds, read as a double, in milliseconds, and no more of them than can be
/// held. Less than no time is none, though what is too small for a double may
/// have a minus.
pub open spec fn seconds_scaled(digits: Seq<char>) -> Option<nat> {
    match numbers::spelled(digits) {
        Some(number) => if number.negative && number.double() > 0 {
            None
        } else if number.scaled(1_000) > u64::MAX {
            Some(u64::MAX as nat)
        } else {
            Some(number.scaled(1_000))
        },
        None => None,
    }
}

/// The duration in milliseconds that is typed.
pub open spec fn ms_typed(input: Seq<char>) -> Option<nat> {
    let s = typed(input);
    let n = s.len() as int;
    if n == 0 {
        Some(0)
    } else if n >= 2 && s[n - 2] == 'm' && s[n - 1] == 's' {
        numbers::whole(text::trimmed(s.take(n - 2)), u64::MAX as nat)
    } else if s[n - 1] == 's' {
        seconds_scaled(text::trimmed(s.take(n - 1)))
    } else {
        numbers::whole(s, u64::MAX as nat)
    }
}

/// Accepts nothing (zero), a bare number of milliseconds, `500ms`, `1.5s`,
/// `12s`, `2 s`. `None` on anything else.
pub fn parse_ms(input: &str) -> (ms: Option<u64>)
    ensures
        match ms {
            Some(ms) => ms_typed(input@) == Some(ms as nat),
            None => ms_typed(input@) is None,
        },
{
    parse_ms_chars(&text::chars_of(input))
}

fn parse_ms_chars(input: &Vec<char>) -> (ms: Option<u64>)
    ensures
        match ms {
            Some(ms) => ms_typed(input@) == Some(ms as nat),
            None => ms_typed(input@) is None,
        },
{
    let s = text::to_lower(&text::trim(input));
    let n = s.len();
    if n == 0 {
        return Some(0);
    }
    if n >= 2 && s[n - 2] == 'm' && s[n - 1] == 's' {
        let head = text::slice_of(&s, 0, n - 2);
        assert(head@ =~= s@.take(n - 2));
        return numbers::parse_whole(&text::trim(&head), u64::MAX);
    }
    if s[n - 1] == 's' {
        let head = text::slice_of(&s, 0, n - 1);
        assert(head@ =~= s@.take(n - 1));
        return match numbers::parse_decimal(&text::trim(&head)) {
            Some(number) => {
                if number.has_minus() && !number.vanishes() {
                    None
                } else {
                    match number.scaled(1_000, u64::MAX) {
                        Some(ms) => Some(ms),
                        None => Some(u64::MAX),
                    }
                }
            },
            None => None,
        };
    }
    numbers::parse_whole(&s, u64::MAX)
}

/// A duration in milliseconds behind a word, as a field of a pair shows it.
pub fn format_ms_after(prefix: &str, ms: u64) -> (s: String)
    ensures
        s@ == prefix@ + ms_shown(ms as nat),
{
    let mut s = prefix.to_owned();
    s.append(format_ms(ms).as_str());
    s
}

/// The duration in milliseconds that is typed behind a word, or without it.
pub open spec fn ms_typed_after(prefix: Seq<char>, input: Seq<char>) -> Option<nat> {
    if text::begins_with(input, prefix) {
        ms_typed(input.skip(prefix.len() as int))
    } else {
        ms_typed(input)
    }
}

/// Reads a duration that is typed behind a word, or without it.
pub fn parse_ms_after(prefix: &str, input: &str) -> (ms: Option<u64>)
    ensures
        match ms {
            Some(ms) => ms_typed_after(prefix@, input@) == Some(ms as nat),
            None => ms_typed_after(prefix@, input@) is None,
        },
{
    let chars = text::chars_of(input);
    if text::starts_with(&chars, prefix) {
        let start = text::chars_of(prefix).len();
        let rest = text::slice_of(&chars, start, chars.len());
        assert(rest@ =~= chars@.skip(start as int));
        return parse_ms_chars(&rest);
    }
    parse_ms_chars(&chars)
}

/// Hours and minutes are shown as `h` with two digits behind it; minutes alone
/// with an `m`, and full hours with the `h` alone.
pub proof fn hours_are_named_where_there_are_any(hours: nat, minutes: nat)
    requires
        minutes < 60,
    ensures
        hours == 0 ==> minutes_shown(hours * 60 + minutes) == text::decimal(minutes) + "m"@,
        hours > 0 && minutes == 0 ==> minutes_shown(hours * 60 + minutes) == text::decimal(hours)
            + "h"@,
        hours > 0 && minutes > 0 ==> minutes_shown(hours * 60 + minutes) == text::decimal(hours)
            + "h"@ + seq![text::digit(minutes / 10), text::digit(minutes % 10)],
{
    reveal_with_fuel(text::low_digits, 3);
    assert(text::low_digits(minutes, 2) =~= seq![
        text::digit(minutes / 10),
        text::digit(minutes % 10),
    ]);
}

/// An amount is shown in full below a thousand, then in thousands and from a
/// million on in millions: with one digit behind the point below ten of them, and
/// without from there on. What is not shown is cut off, never rounded up.
pub proof fn amounts_are_condensed(front: nat, tenth: nat, rest: nat)
    ensures
        front < 1_000 ==> gold_shown(front) == text::decimal(front) + "g"@,
        1 <= front < 10 && tenth < 10 && rest < 100 ==> gold_shown(
            front * 1_000 + tenth * 100 + rest,
        ) == text::decimal(front) + "."@ + text::decimal(tenth) + "Kg"@,
        10 <= front < 1_000 && rest < 1_000 ==> gold_shown(front * 1_000 + rest) == text::decimal(
            front,
        ) + "Kg"@,
        1 <= front < 10 && tenth < 10 && rest < 100_000 ==> gold_shown(
            front * 1_000_000 + tenth * 100_000 + rest,
        ) == text::decimal(front) + "."@ + text::decimal(tenth) + "Mg"@,
        10 <= front && rest < 1_000_000 ==> gold_shown(front * 1_000_000 + rest) == text::decimal(
            front,
        ) + "Mg"@,
{
}

/// A duration is shown in milliseconds below a second, in seconds with one digit
/// behind the point below ten of them, and in whole seconds from there on.
pub proof fn times_are_shown_in_their_unit(ms: nat)
    ensures
        ms < 1_000 ==> ms_shown(ms) == text::decimal(ms) + "ms"@,
        1_000 <= ms < 10_000 ==> ms_shown(ms) == text::decimal(tenths_shown(ms) / 10) + "."@
            + text::decimal(tenths_shown(ms) % 10) + "s"@,
        ms >= 10_000 ==> ms_shown(ms) == text::decimal(doubles::seconds(ms)) + "s"@,
{
}

/// A comma, a space or an underscore among what is typed makes no difference, and
/// nothing else is dropped.
pub proof fn separators_make_no_difference(front: Seq<char>, c: char, back: Seq<char>)
    ensures
        c == ',' || c == ' ' || c == '_' ==> without_separators(front + seq![c] + back)
            == without_separators(front + back),
        c != ',' && c != ' ' && c != '_' ==> without_separators(front + seq![c] + back)
            == without_separators(front) + seq![c] + without_separators(back),
        without_separators(Seq::empty()) == Seq::<char>::empty(),
    decreases back.len(),
{
    let all = front + seq![c] + back;
    if back.len() == 0 {
        assert(all.drop_last() =~= front);
        assert(front + back =~= front);
        assert(without_separators(back) =~= Seq::empty());
        assert(without_separators(front).push(c) =~= without_separators(front) + seq![c]
            + without_separators(back));
    } else {
        let rest = back.drop_last();
        separators_make_no_difference(front, c, rest);
        assert(all.drop_last() =~= front + seq![c] + rest);
        assert((front + back).drop_last() =~= front + rest);
        if !is_separator(back.last()) {
            assert((without_separators(front) + seq![c] + without_separators(rest)).push(
                back.last(),
            ) =~= without_separators(front) + seq![c] + without_separators(back));
        }
    }
}

/// What is left without the run of a character at the end is the beginning, does
/// not end in that character, and all behind it is that character.
pub proof fn only_the_run_at_the_end_goes(s: Seq<char>, c: char)
    ensures
        without_trailing(s, c).len() <= s.len(),
        without_trailing(s, c) == s.take(without_trailing(s, c).len() as int),
        without_trailing(s, c).len() > 0 ==> without_trailing(s, c).last() != c,
        forall|i: int| without_trailing(s, c).len() <= i < s.len() ==> #[trigger] s[i] == c,
    decreases s.len(),
{
    if s.len() > 0 && s.last() == c {
        let rest = s.drop_last();
        only_the_run_at_the_end_goes(rest, c);
        let kept = without_trailing(rest, c).len() as int;
        assert(rest.take(kept) =~= s.take(kept));
        assert forall|i: int| kept <= i < s.len() implies #[trigger] s[i] == c by {
            if i < rest.len() {
                assert(rest[i] == s[i]);
            }
        }
    } else {
        assert(s.take(s.len() as int) =~= s);
    }
}

/// White space round what is typed, and capitals, make no difference to a
/// duration; white space makes none to an amount either. Nothing typed is nothing.
pub proof fn how_it_is_typed_makes_no_difference(a: Seq<char>, b: Seq<char>)
    ensures
        text::lowered(text::trimmed(a)) == text::lowered(text::trimmed(b)) ==> minutes_typed(a)
            == minutes_typed(b) && ms_typed(a) == ms_typed(b),
        text::trimmed(a) == text::trimmed(b) ==> gold_typed(a) == gold_typed(b),
        text::trimmed(a).len() == 0 ==> minutes_typed(a) == Some(0nat) && ms_typed(a) == Some(0nat)
            && gold_typed(a) == Some(0nat),
{
    if text::trimmed(a).len() == 0 {
        let none = text::trimmed(a);
        assert(text::lowered(none).len() == 0);
        assert(without_trailing(none, 'g') == none);
        assert(without_trailing(none, 'G') == none);
        assert(without_separators(none) == none);
    }
}

/// A word in front of a duration is read over where it is there, and not missed
/// where it is not.
pub proof fn a_word_in_front_may_be_missing(prefix: Seq<char>, rest: Seq<char>, other: Seq<char>)
    ensures
        ms_typed_after(prefix, prefix + rest) == ms_typed(rest),
        (other.len() < prefix.len() || other.take(prefix.len() as int) != prefix)
            ==> ms_typed_after(prefix, other) == ms_typed(other),
{
    let all = prefix + rest;
    assert(all.take(prefix.len() as int) =~= prefix);
    assert(all.skip(prefix.len() as int) =~= rest);
}

} // verus!

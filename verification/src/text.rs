//! Building and reading text one character at a time.

use vstd::prelude::*;
use vstd::string::*;

verus! {

/// `String::push` of std: appends one character and changes nothing else.
pub assume_specification[ String::push ](s: &mut String, c: char)
    ensures
        final(s)@ == old(s)@.push(c),
;

/// The characters of `s`, in order.
pub fn chars_of(s: &str) -> (chars: Vec<char>)
    ensures
        chars@ == s@,
{
    let mut chars: Vec<char> = Vec::new();
    for c in it: s.chars()
        invariant
            it.seq() == s@,
            chars@ == s@.take(it.index()),
    {
        proof {
            assert(s@.take(it.index() + 1) =~= s@.take(it.index()).push(c));
        }
        chars.push(c);
    }
    proof {
        assert(s@.take(s@.len() as int) =~= s@);
    }
    chars
}

/// The text made of `chars`, in order.
pub fn string_of(chars: &[char]) -> (s: String)
    ensures
        s@ == chars@,
{
    let mut s = String::new();
    for i in 0..chars.len()
        invariant
            s@ == chars@.take(i as int),
    {
        s.push(chars[i]);
        proof {
            assert(chars@.take(i + 1) =~= chars@.take(i as int).push(chars@[i as int]));
        }
    }
    proof {
        assert(chars@.take(chars@.len() as int) =~= chars@);
    }
    s
}

/// Whether two texts hold the same characters.
pub fn same_text(a: &str, b: &str) -> (same: bool)
    ensures
        same == (a@ == b@),
{
    let left = chars_of(a);
    let right = chars_of(b);
    if left.len() != right.len() {
        return false;
    }
    for i in 0..left.len()
        invariant
            left@ == a@,
            right@ == b@,
            left@.len() == right@.len(),
            forall|j: int| 0 <= j < i ==> left@[j] == right@[j],
    {
        if left[i] != right[i] {
            return false;
        }
    }
    proof {
        assert(a@ =~= b@);
    }
    true
}

/// `s` in double quotes, escaped as the `Debug` of std writes it.
pub uninterp spec fn quoted(s: Seq<char>) -> Seq<char>;

/// The `Debug` form of a text, as std's `format!` writes it: a function of the
/// characters alone. Which characters it escapes, and how, is not stated.
#[verifier::external_body]
pub(crate) fn quote(s: &str) -> (q: String)
    ensures
        q@ == quoted(s@),
{
    format!("{s:?}")
}

/// The digit `d` as a character.
pub open spec fn digit(d: nat) -> char {
    ('0' as u32 + d) as char
}

/// `n` in decimal, without leading zeros.
pub open spec fn decimal(n: nat) -> Seq<char>
    decreases n,
{
    if n < 10 {
        seq![digit(n)]
    } else {
        decimal(n / 10).push(digit(n % 10))
    }
}

/// The last `width` decimal digits of `n`, zeros included.
pub open spec fn low_digits(n: nat, width: nat) -> Seq<char>
    decreases width,
{
    if width == 0 {
        Seq::empty()
    } else {
        low_digits(n / 10, (width - 1) as nat).push(digit(n % 10))
    }
}

/// `n` in decimal with a comma between each group of three digits.
pub open spec fn grouped_digits(n: nat) -> Seq<char>
    decreases n,
{
    if n < 1000 {
        decimal(n)
    } else {
        grouped_digits(n / 1000).push(',') + low_digits(n % 1000, 3)
    }
}

/// The character of the digit `d`.
pub fn digit_char(d: u64) -> (c: char)
    requires
        d < 10,
    ensures
        c == digit(d as nat),
{
    (48u8 + d as u8) as char
}

/// `n` in decimal.
pub fn decimal_text(n: u64) -> (s: String)
    ensures
        s@ == decimal(n as nat),
    decreases n,
{
    if n < 10 {
        let mut s = String::new();
        s.push(digit_char(n));
        assert(s@ =~= seq![digit(n as nat)]);
        s
    } else {
        let mut s = decimal_text(n / 10);
        s.push(digit_char(n % 10));
        s
    }
}

/// The last `width` decimal digits of `n`.
pub fn low_digits_text(n: u64, width: u32) -> (s: String)
    ensures
        s@ == low_digits(n as nat, width as nat),
    decreases width,
{
    if width == 0 {
        String::new()
    } else {
        let mut s = low_digits_text(n / 10, width - 1);
        s.push(digit_char(n % 10));
        s
    }
}

/// `n` in decimal, its digits grouped in threes by commas.
pub fn grouped(n: u64) -> (s: String)
    ensures
        s@ == grouped_digits(n as nat),
    decreases n,
{
    if n < 1000 {
        decimal_text(n)
    } else {
        let mut s = grouped(n / 1000);
        s.push(',');
        s.append(low_digits_text(n % 1000, 3).as_str());
        s
    }
}

/// `parts` one after another, with `separator` between each two.
pub open spec fn joined(parts: Seq<Seq<char>>, separator: Seq<char>) -> Seq<char>
    decreases parts.len(),
{
    if parts.len() == 0 {
        Seq::empty()
    } else if parts.len() == 1 {
        parts[0]
    } else {
        joined(parts.drop_last(), separator) + separator + parts.last()
    }
}

/// The views of a list of strings.
pub open spec fn views(parts: Seq<String>) -> Seq<Seq<char>> {
    parts.map_values(|part: String| part@)
}

/// The texts of `parts`, with `separator` between each two.
pub fn join(parts: &Vec<String>, separator: &str) -> (s: String)
    ensures
        s@ == joined(views(parts@), separator@),
{
    let mut s = String::new();
    for i in 0..parts.len()
        invariant
            s@ == joined(views(parts@).take(i as int), separator@),
    {
        let ghost before = views(parts@).take(i as int);
        let ghost after = views(parts@).take(i + 1);
        assert(after.drop_last() =~= before);
        if i > 0 {
            s.append(separator);
        }
        s.append(parts[i].as_str());
        assert(s@ =~= joined(after, separator@));
    }
    assert(views(parts@).take(parts@.len() as int) =~= views(parts@));
    s
}

/// Whether the list holds a text made of the characters `text`.
pub open spec fn lists(names: Seq<String>, text: Seq<char>) -> bool {
    exists|i: int| 0 <= i < names.len() && (#[trigger] names[i])@ == text
}

/// Whether `names` holds `text`.
pub fn list_holds(names: &Vec<String>, text: &String) -> (held: bool)
    ensures
        held == lists(names@, text@),
{
    for i in 0..names.len()
        invariant
            forall|j: int| 0 <= j < i ==> (#[trigger] names@[j])@ != text@,
    {
        if names[i] == *text {
            return true;
        }
    }
    false
}

/// Whether `s` begins with `prefix`.
pub open spec fn begins_with(s: Seq<char>, prefix: Seq<char>) -> bool {
    s.len() >= prefix.len() && s.take(prefix.len() as int) == prefix
}

/// Whether `s` begins with `prefix`.
pub fn starts_with(s: &Vec<char>, prefix: &str) -> (yes: bool)
    ensures
        yes == begins_with(s@, prefix@),
{
    let start = chars_of(prefix);
    if s.len() < start.len() {
        return false;
    }
    for i in 0..start.len()
        invariant
            start@ == prefix@,
            start@.len() <= s@.len(),
            forall|j: int| 0 <= j < i ==> s@[j] == prefix@[j],
    {
        if s[i] != start[i] {
            assert(s@.take(prefix@.len() as int)[i as int] != prefix@[i as int]);
            return false;
        }
    }
    assert(s@.take(prefix@.len() as int) =~= prefix@);
    true
}

/// A whole number below zero or not, in decimal.
pub open spec fn signed_decimal(n: int) -> Seq<char> {
    if n < 0 {
        seq!['-'] + decimal((-n) as nat)
    } else {
        decimal(n as nat)
    }
}

/// A whole number, in decimal.
pub fn signed_text(n: i64) -> (s: String)
    ensures
        s@ == signed_decimal(n as int),
{
    if n < 0 {
        let mut s = String::new();
        s.push('-');
        assert(s@ =~= seq!['-']);
        let size: u64 = (-(n as i128)) as u64;
        s.append(decimal_text(size).as_str());
        s
    } else {
        decimal_text(n as u64)
    }
}

/// The hexadecimal digit `d`, in lower case.
pub open spec fn hex_digit(d: nat) -> char {
    if d < 10 {
        digit(d)
    } else {
        ('a' as u32 + (d - 10)) as char
    }
}

/// `n` in hexadecimal, in lower case and without leading zeros.
pub open spec fn hexadecimal(n: nat) -> Seq<char>
    decreases n,
{
    if n < 16 {
        seq![hex_digit(n)]
    } else {
        hexadecimal(n / 16).push(hex_digit(n % 16))
    }
}

/// `n` in hexadecimal.
pub fn hex_text(n: u128) -> (s: String)
    ensures
        s@ == hexadecimal(n as nat),
    decreases n,
{
    let last = (n % 16) as u8;
    let c = if last < 10 {
        (48u8 + last) as char
    } else {
        (87u8 + last) as char
    };
    assert(c == hex_digit((n % 16) as nat));
    if n < 16 {
        let mut s = String::new();
        s.push(c);
        assert(s@ =~= seq![hex_digit(n as nat)]);
        s
    } else {
        let mut s = hex_text(n / 16);
        s.push(c);
        s
    }
}

/// Control characters: the C0 and C1 ranges and delete.
pub open spec fn is_control(c: char) -> bool {
    c as u32 <= 0x1f || 0x7f <= c as u32 <= 0x9f
}

/// Characters with the Unicode property `White_Space`.
pub open spec fn is_space(c: char) -> bool {
    let code = c as u32;
    ||| 0x9 <= code <= 0xd
    ||| code == 0x20
    ||| code == 0x85
    ||| code == 0xa0
    ||| code == 0x1680
    ||| 0x2000 <= code <= 0x200a
    ||| code == 0x2028
    ||| code == 0x2029
    ||| code == 0x202f
    ||| code == 0x205f
    ||| code == 0x3000
}

/// Whether `c` is a control character.
pub fn control(c: char) -> (yes: bool)
    ensures
        yes == is_control(c),
{
    let code = c as u32;
    code <= 0x1f || (0x7f <= code && code <= 0x9f)
}

/// Whether `c` is white space.
pub fn space(c: char) -> (yes: bool)
    ensures
        yes == is_space(c),
{
    let code = c as u32;
    (0x9 <= code && code <= 0xd) || code == 0x20 || code == 0x85 || code == 0xa0 || code == 0x1680
        || (0x2000 <= code && code <= 0x200a) || code == 0x2028 || code == 0x2029 || code == 0x202f
        || code == 0x205f || code == 0x3000
}

/// `s` without the white space that leads it.
pub open spec fn trimmed_start(s: Seq<char>) -> Seq<char>
    decreases s.len(),
{
    if s.len() > 0 && is_space(s[0]) {
        trimmed_start(s.drop_first())
    } else {
        s
    }
}

/// `s` without the white space that trails it.
pub open spec fn trimmed_end(s: Seq<char>) -> Seq<char>
    decreases s.len(),
{
    if s.len() > 0 && is_space(s.last()) {
        trimmed_end(s.drop_last())
    } else {
        s
    }
}

/// `s` without the white space at either end.
pub open spec fn trimmed(s: Seq<char>) -> Seq<char> {
    trimmed_end(trimmed_start(s))
}

/// `c` in lower case, where it is a Latin capital of ASCII.
pub open spec fn lower(c: char) -> char {
    if 'A' <= c && c <= 'Z' {
        (c as u32 + 32) as char
    } else {
        c
    }
}

/// `s` with its ASCII capitals in lower case.
pub open spec fn lowered(s: Seq<char>) -> Seq<char> {
    s.map_values(|c: char| lower(c))
}

/// `s` with its ASCII capitals in lower case.
pub fn to_lower(s: &Vec<char>) -> (t: Vec<char>)
    ensures
        t@ == lowered(s@),
{
    let mut t: Vec<char> = Vec::new();
    for i in 0..s.len()
        invariant
            t@ == lowered(s@).take(i as int),
    {
        let c = s[i];
        if 'A' <= c && c <= 'Z' {
            t.push((c as u8 + 32) as char);
        } else {
            t.push(c);
        }
        assert(t@ =~= lowered(s@).take(i + 1));
    }
    assert(t@ =~= lowered(s@));
    t
}

/// Trimming the start drops some first characters, and none that leads what is
/// left is white space.
pub proof fn trimmed_start_drops(s: Seq<char>) -> (dropped: int)
    ensures
        0 <= dropped <= s.len(),
        trimmed_start(s) == s.skip(dropped),
        trimmed_start(s).len() > 0 ==> !is_space(trimmed_start(s)[0]),
    decreases s.len(),
{
    if s.len() > 0 && is_space(s[0]) {
        let dropped = trimmed_start_drops(s.drop_first());
        assert(s.drop_first().skip(dropped) =~= s.skip(dropped + 1));
        dropped + 1
    } else {
        assert(s.skip(0) =~= s);
        0
    }
}

/// Trimming the end keeps some first characters, and none that ends what is
/// left is white space.
pub proof fn trimmed_end_keeps(s: Seq<char>) -> (kept: int)
    ensures
        0 <= kept <= s.len(),
        trimmed_end(s) == s.take(kept),
        trimmed_end(s).len() > 0 ==> !is_space(trimmed_end(s).last()),
    decreases s.len(),
{
    if s.len() > 0 && is_space(s.last()) {
        let kept = trimmed_end_keeps(s.drop_last());
        assert(s.drop_last().take(kept) =~= s.take(kept));
        kept
    } else {
        assert(s.take(s.len() as int) =~= s);
        s.len() as int
    }
}

/// Trimmed text is a part of the text, neither begins nor ends with white
/// space, and stays as it is when trimmed again.
pub proof fn trimmed_is_a_part(s: Seq<char>) -> (range: (int, int))
    ensures
        0 <= range.0 <= range.1 <= s.len(),
        trimmed(s) == s.subrange(range.0, range.1),
        trimmed(s).len() > 0 ==> !is_space(trimmed(s)[0]) && !is_space(trimmed(s).last()),
        trimmed(trimmed(s)) == trimmed(s),
{
    let dropped = trimmed_start_drops(s);
    let rest = trimmed_start(s);
    let kept = trimmed_end_keeps(rest);
    assert(rest.take(kept) =~= s.subrange(dropped, dropped + kept));
    (dropped, dropped + kept)
}

/// `s` without the white space at either end.
pub fn trim(s: &Vec<char>) -> (t: Vec<char>)
    ensures
        t@ == trimmed(s@),
{
    let mut start: usize = 0;
    assert(s@.skip(0) =~= s@);
    while start < s.len() && space(s[start])
        invariant
            start <= s@.len(),
            trimmed_start(s@) == trimmed_start(s@.skip(start as int)),
        decreases s@.len() - start,
    {
        assert(s@.skip(start as int).drop_first() =~= s@.skip(start + 1));
        start = start + 1;
    }
    let ghost tail = s@.skip(start as int);
    assert(trimmed_start(s@) == tail);
    let mut end: usize = s.len();
    assert(tail =~= s@.subrange(start as int, end as int));
    while end > start && space(s[end - 1])
        invariant
            start <= end <= s@.len(),
            tail == s@.skip(start as int),
            trimmed_end(tail) == trimmed_end(s@.subrange(start as int, end as int)),
        decreases end,
    {
        assert(s@.subrange(start as int, end as int).drop_last() =~= s@.subrange(
            start as int,
            end - 1,
        ));
        end = end - 1;
    }
    slice_of(s, start, end)
}

/// The characters of `s` from `start` up to `end`.
pub fn slice_of(s: &Vec<char>, start: usize, end: usize) -> (t: Vec<char>)
    requires
        start <= end <= s@.len(),
    ensures
        t@ == s@.subrange(start as int, end as int),
{
    let mut t: Vec<char> = Vec::new();
    for i in start..end
        invariant
            end <= s@.len(),
            start <= i <= end,
            t@ == s@.subrange(start as int, i as int),
    {
        t.push(s[i]);
        assert(t@ =~= s@.subrange(start as int, i + 1));
    }
    t
}

/// Trimming takes nothing but white space: all that stands in front of the part
/// that is left, and all that stands behind it, is white space.
pub proof fn trimmed_is_the_middle(s: Seq<char>) -> (span: (int, int))
    ensures
        0 <= span.0 <= span.1 <= s.len(),
        trimmed(s) == s.subrange(span.0, span.1),
        forall|i: int| 0 <= i < span.0 ==> is_space(#[trigger] s[i]),
        forall|i: int| span.1 <= i < s.len() ==> is_space(#[trigger] s[i]),
        span.0 < span.1 ==> !is_space(s[span.0]) && !is_space(s[span.1 - 1]),
{
    let from = trimmed_start_takes_space(s);
    let rest = s.skip(from);
    let kept = trimmed_end_takes_space(rest);
    assert(rest.take(kept) =~= s.subrange(from, from + kept));
    assert forall|i: int| from + kept <= i < s.len() implies is_space(#[trigger] s[i]) by {
        assert(is_space(rest[i - from]));
    }
    if kept > 0 {
        assert(s[from] == rest[0] && s[from + kept - 1] == rest[kept - 1]);
    }
    (from, from + kept)
}

proof fn trimmed_start_takes_space(s: Seq<char>) -> (dropped: int)
    ensures
        0 <= dropped <= s.len(),
        trimmed_start(s) == s.skip(dropped),
        forall|i: int| 0 <= i < dropped ==> is_space(#[trigger] s[i]),
        dropped < s.len() ==> !is_space(s[dropped]),
    decreases s.len(),
{
    if s.len() > 0 && is_space(s[0]) {
        let rest = s.drop_first();
        let dropped = trimmed_start_takes_space(rest);
        assert(rest.skip(dropped) =~= s.skip(dropped + 1));
        assert forall|i: int| 0 <= i < dropped + 1 implies is_space(#[trigger] s[i]) by {
            if i > 0 {
                assert(is_space(rest[i - 1]));
            }
        }
        dropped + 1
    } else {
        assert(s.skip(0) =~= s);
        0
    }
}

proof fn trimmed_end_takes_space(s: Seq<char>) -> (kept: int)
    ensures
        0 <= kept <= s.len(),
        trimmed_end(s) == s.take(kept),
        forall|i: int| kept <= i < s.len() ==> is_space(#[trigger] s[i]),
        kept > 0 ==> !is_space(s[kept - 1]),
        kept > 0 && !is_space(s[0]) ==> !is_space(s.take(kept)[0]),
    decreases s.len(),
{
    if s.len() > 0 && is_space(s.last()) {
        let rest = s.drop_last();
        let kept = trimmed_end_takes_space(rest);
        assert(rest.take(kept) =~= s.take(kept));
        assert forall|i: int| kept <= i < s.len() implies is_space(#[trigger] s[i]) by {
            if i < s.len() - 1 {
                assert(is_space(rest[i]));
            }
        }
        kept
    } else {
        assert(s.take(s.len() as int) =~= s);
        s.len() as int
    }
}

/// Texts are joined with the separator between each two and nothing else: one text
/// is itself, and two lists join as what each joins to, the separator between.
pub proof fn joining_is_putting_side_by_side(
    parts: Seq<Seq<char>>,
    more: Seq<Seq<char>>,
    part: Seq<char>,
    separator: Seq<char>,
)
    ensures
        joined(Seq::<Seq<char>>::empty(), separator).len() == 0,
        joined(seq![part], separator) == part,
        parts.len() > 0 && more.len() > 0 ==> joined(parts + more, separator) == joined(
            parts,
            separator,
        ) + separator + joined(more, separator),
    decreases more.len(),
{
    if parts.len() > 0 && more.len() > 0 {
        let all = parts + more;
        assert(all.last() == more.last());
        if more.len() == 1 {
            assert(all.drop_last() =~= parts);
            assert(more[0] == more.last());
        } else {
            let less = more.drop_last();
            assert(all.drop_last() =~= parts + less);
            joining_is_putting_side_by_side(parts, less, part, separator);
            assert(joined(all, separator) =~= joined(parts, separator) + separator + joined(
                more,
                separator,
            ));
        }
    }
}

/// A number in decimal or hexadecimal gains a digit for what it grows by: the
/// digits of `n` and then one more stand for that many times `n` and that digit.
/// Nothing begins with a needless zero.
pub proof fn numbers_are_spelled_digit_by_digit(n: nat, d: nat)
    ensures
        d < 10 && n > 0 ==> decimal(10 * n + d) == decimal(n).push(digit(d)),
        d < 10 ==> decimal(d) == seq![digit(d)],
        d < 16 && n > 0 ==> hexadecimal(16 * n + d) == hexadecimal(n).push(hex_digit(d)),
        d < 16 ==> hexadecimal(d) == seq![hex_digit(d)],
        decimal(n).len() > 0 && hexadecimal(n).len() > 0,
        n > 0 ==> decimal(n)[0] != '0' && hexadecimal(n)[0] != '0',
{
    no_number_begins_with_a_needless_zero(n);
}

proof fn no_number_begins_with_a_needless_zero(n: nat)
    ensures
        decimal(n).len() > 0 && hexadecimal(n).len() > 0,
        n > 0 ==> decimal(n)[0] != '0' && hexadecimal(n)[0] != '0',
    decreases n,
{
    if n >= 10 {
        no_number_begins_with_a_needless_zero(n / 10);
    }
    if n >= 16 {
        no_number_begins_with_a_needless_zero(n / 16);
    }
}

/// The digits are the ten characters from zero to nine, and for hexadecimal the
/// first six letters after them.
pub proof fn digits_are_the_usual_ones()
    ensures
        digit(0) == '0' && digit(1) == '1' && digit(2) == '2' && digit(3) == '3' && digit(4) == '4',
        digit(5) == '5' && digit(6) == '6' && digit(7) == '7' && digit(8) == '8' && digit(9) == '9',
        forall|d: nat| d < 10 ==> #[trigger] hex_digit(d) == digit(d),
        hex_digit(10) == 'a' && hex_digit(11) == 'b' && hex_digit(12) == 'c',
        hex_digit(13) == 'd' && hex_digit(14) == 'e' && hex_digit(15) == 'f',
{
}

/// A text without its commas.
pub open spec fn without_commas(s: Seq<char>) -> Seq<char>
    decreases s.len(),
{
    if s.len() == 0 {
        s
    } else if s.last() == ',' {
        without_commas(s.drop_last())
    } else {
        without_commas(s.drop_last()).push(s.last())
    }
}

proof fn commas_go_from_each_part(a: Seq<char>, b: Seq<char>)
    ensures
        without_commas(a + b) == without_commas(a) + without_commas(b),
    decreases b.len(),
{
    if b.len() == 0 {
        assert(a + b =~= a);
        assert(without_commas(a) + without_commas(b) =~= without_commas(a));
    } else {
        commas_go_from_each_part(a, b.drop_last());
        assert((a + b).drop_last() =~= a + b.drop_last());
        assert(without_commas(a + b) =~= without_commas(a) + without_commas(b));
    }
}

proof fn nothing_goes_without_commas(s: Seq<char>)
    requires
        forall|i: int| 0 <= i < s.len() ==> #[trigger] s[i] != ',',
    ensures
        without_commas(s) == s,
    decreases s.len(),
{
    if s.len() > 0 {
        assert forall|i: int| 0 <= i < s.len() - 1 implies #[trigger] s.drop_last()[i] != ',' by {
            assert(s.drop_last()[i] == s[i]);
        }
        nothing_goes_without_commas(s.drop_last());
        assert(s.drop_last().push(s.last()) =~= s);
    }
}

proof fn a_small_number_has_no_commas(n: nat)
    requires
        n < 1000,
    ensures
        decimal(n).len() <= 3,
        forall|i: int| 0 <= i < decimal(n).len() ==> #[trigger] decimal(n)[i] != ',',
{
    reveal_with_fuel(decimal, 4);
}

proof fn three_digits_have_no_commas(n: nat)
    requires
        n < 1000,
    ensures
        low_digits(n, 3).len() == 3,
        forall|i: int| 0 <= i < 3 ==> #[trigger] low_digits(n, 3)[i] != ',',
{
    reveal_with_fuel(low_digits, 4);
}

proof fn the_last_three_digits_stand_apart(n: nat)
    requires
        n >= 1000,
    ensures
        decimal(n) == decimal(n / 1000) + low_digits(n % 1000, 3),
{
    reveal_with_fuel(low_digits, 4);
    let low = n % 1000;
    assert(n / 10 / 10 / 10 == n / 1000);
    assert(low % 10 == n % 10);
    assert(low / 10 % 10 == n / 10 % 10);
    assert(low / 10 / 10 % 10 == n / 10 / 10 % 10);
    assert(decimal(n) == decimal(n / 10).push(digit(n % 10)));
    assert(decimal(n / 10) == decimal(n / 10 / 10).push(digit(n / 10 % 10)));
    assert(decimal(n / 10 / 10) == decimal(n / 10 / 10 / 10).push(digit(n / 10 / 10 % 10)));
    assert(decimal(n) =~= decimal(n / 1000) + low_digits(low, 3));
}

/// The commas change nothing: without them a grouped number is the number in
/// decimal. They stand in front of every third digit from the end and nowhere
/// else.
pub proof fn commas_only_group(n: nat)
    ensures
        without_commas(grouped_digits(n)) == decimal(n),
        forall|i: int|
            0 <= i < grouped_digits(n).len() ==> (#[trigger] grouped_digits(n)[i] == ',' <==> (
            grouped_digits(n).len() - i) % 4 == 0),
    decreases n,
{
    let s = grouped_digits(n);
    if n < 1000 {
        a_small_number_has_no_commas(n);
        nothing_goes_without_commas(s);
    } else {
        commas_only_group(n / 1000);
        let front = grouped_digits(n / 1000);
        let back = low_digits(n % 1000, 3);
        let comma = seq![','];
        three_digits_have_no_commas(n % 1000);
        the_last_three_digits_stand_apart(n);
        nothing_goes_without_commas(back);
        assert(s =~= front + comma + back);
        commas_go_from_each_part(front + comma, back);
        commas_go_from_each_part(front, comma);
        assert(without_commas(comma) == without_commas(comma.drop_last()));
        assert(comma.drop_last().len() == 0);
        assert(without_commas(comma).len() == 0);
        assert(without_commas(s) =~= decimal(n / 1000) + back);
        assert forall|i: int| 0 <= i < s.len() implies (#[trigger] s[i] == ',' <==> (s.len() - i)
            % 4 == 0) by {
            if i < front.len() {
                assert(s[i] == front[i]);
                assert((s.len() - i) % 4 == (front.len() - i) % 4);
            } else if i > front.len() {
                assert(s[i] == back[i - front.len() - 1]);
            }
        }
    }
}

/// A number below zero is its size behind a minus, and any other is its size.
pub proof fn a_sign_stands_only_below_zero(n: int)
    ensures
        n >= 0 ==> signed_decimal(n) == decimal(n as nat),
        n < 0 ==> signed_decimal(n).len() > 0 && signed_decimal(n)[0] == '-' && signed_decimal(
            n,
        ).skip(1) == decimal((-n) as nat),
{
    if n < 0 {
        assert(signed_decimal(n).skip(1) =~= decimal((-n) as nat));
    }
}

/// Lower case is the small letter of each of the 26 capitals, and every other
/// character as it is; a text in lower case has as many characters, each of them
/// in lower case, and stays as it is.
pub proof fn lower_case_is_settled(s: Seq<char>)
    ensures
        lower('A') == 'a' && lower('M') == 'm' && lower('Z') == 'z',
        lowered(s).len() == s.len(),
        lowered(lowered(s)) == lowered(s),
        forall|i: int|
            0 <= i < s.len() ==> {
                &&& !('A' <= #[trigger] lowered(s)[i] <= 'Z')
                &&& !('A' <= s[i] <= 'Z') ==> lowered(s)[i] == s[i]
                &&& 'A' <= s[i] <= 'Z' ==> lowered(s)[i] as u32 - s[i] as u32 == 32
            },
{
    assert(lowered(lowered(s)) =~= lowered(s));
}

/// A text is listed exactly where one of the names is that text; an empty list
/// lists nothing.
pub proof fn a_text_is_listed_by_its_own_name(names: Seq<String>, text: Seq<char>, i: int)
    ensures
        0 <= i < names.len() && names[i]@ == text ==> lists(names, text),
        lists(names, text) ==> exists|j: int|
            0 <= j < names.len() && (#[trigger] names[j])@ == text,
        names.len() == 0 ==> !lists(names, text),
{
}

/// A text begins with whatever it was put behind, itself included, and with nothing
/// that it was not put behind.
pub proof fn a_text_begins_with_what_it_was_put_behind(front: Seq<char>, back: Seq<char>)
    ensures
        begins_with(front + back, front),
        begins_with(front, front),
        begins_with(back, front) ==> back == front + back.skip(front.len() as int),
{
    assert((front + back).take(front.len() as int) =~= front);
    assert(front.take(front.len() as int) =~= front);
    if begins_with(back, front) {
        assert(back =~= front + back.skip(front.len() as int));
    }
}

/// The low digits of a number are as many as are asked for; the last of them is the
/// number's last, and the others are those of the number without it.
pub proof fn low_digits_are_the_last_ones(n: nat, width: nat)
    ensures
        low_digits(n, width).len() == width,
        width > 0 ==> low_digits(n, width).last() == digit(n % 10),
        width > 0 ==> low_digits(n, width).drop_last() == low_digits(n / 10, (width - 1) as nat),
    decreases width,
{
    if width > 0 {
        low_digits_are_the_last_ones(n / 10, (width - 1) as nat);
        assert(low_digits(n, width).drop_last() =~= low_digits(n / 10, (width - 1) as nat));
    }
}

} // verus!

//! What is shown reads back: durations exactly or nearly, amounts nearly.

use crate::doubles;
use crate::gui::parsers::{
    amount_typed, gold_shown, gold_typed, is_separator, minutes_shown, minutes_typed, ms_shown,
    ms_typed, ms_typed_after, tenths_are_near, tenths_shown, typed, without_minute_suffix,
    without_separators, without_trailing,
};
use crate::numbers::{
    a_digit_is_plain, a_digit_reads_back, all_digits, decimal_reads_back, decimals_scale,
    digits_are_spelled, digits_are_whole, first_of_is_first, is_digit, value_of,
    whole_part,
};
use crate::text::{self, decimal, digit, low_digits};
use vstd::prelude::*;
use vstd::string::*;

verus! {

/// Neither white space nor an ASCII capital.
pub open spec fn is_plain(s: Seq<char>) -> bool {
    forall|i: int| 0 <= i < s.len() ==> !text::is_space(#[trigger] s[i]) && text::lower(s[i]) == s[i]
}

/// Plain text is typed as it is read.
proof fn plain_text_is_typed_as_is(s: Seq<char>)
    requires
        is_plain(s),
    ensures
        text::trimmed(s) == s,
        typed(s) == s,
{
    assert(text::lowered(s) =~= s);
}

/// Text without separators keeps all of itself.
proof fn nothing_to_drop(s: Seq<char>)
    requires
        forall|i: int| 0 <= i < s.len() ==> !is_separator(#[trigger] s[i]),
    ensures
        without_separators(s) == s,
    decreases s.len(),
{
    if s.len() > 0 {
        nothing_to_drop(s.drop_last());
        assert(s.drop_last().push(s.last()) =~= s);
    }
}

/// Two digits read back as the number below a hundred that they spell.
proof fn two_digits_read_back(n: nat)
    requires
        n < 100,
    ensures
        low_digits(n, 2).len() == 2,
        all_digits(low_digits(n, 2)),
        value_of(low_digits(n, 2)) == n,
{
    reveal_with_fuel(low_digits, 3);
    reveal_with_fuel(whole_part, 3);
    a_digit_reads_back(n % 10);
    a_digit_reads_back((n / 10) % 10);
    assert(low_digits(n, 2) =~= seq![digit((n / 10) % 10), digit(n % 10)]);
}

/// A duration in minutes reads back as the very duration that was shown.
pub proof fn minutes_read_back(n: nat)
    requires
        n <= u32::MAX,
    ensures
        minutes_typed(minutes_shown(n)) == Some(n),
{
    reveal_strlit("m");
    reveal_strlit("h");
    let hours = n / 60;
    let minutes = n % 60;
    let s = minutes_shown(n);
    let front = if hours == 0 {
        decimal(minutes)
    } else {
        decimal(hours)
    };
    let back = if hours == 0 || minutes == 0 {
        Seq::<char>::empty()
    } else {
        low_digits(minutes, 2)
    };
    decimal_reads_back(hours);
    decimal_reads_back(minutes);
    two_digits_read_back(minutes);
    let unit = if hours == 0 {
        'm'
    } else {
        'h'
    };
    assert(s =~= front + seq![unit] + back);
    assert forall|i: int| 0 <= i < s.len() implies !text::is_space(#[trigger] s[i]) && text::lower(
        s[i],
    ) == s[i] by {
        if i < front.len() {
            assert(s[i] == front[i]);
            a_digit_is_plain(front[i]);
        } else if i > front.len() {
            assert(s[i] == back[i - front.len() - 1]);
            a_digit_is_plain(back[i - front.len() - 1]);
        }
    }
    plain_text_is_typed_as_is(s);
    assert forall|i: int| 0 <= i < front.len() implies s[i] != 'h' && s[i] == front[i] by {
        a_digit_is_plain(front[i]);
    }
    assert(is_plain(front)) by {
        assert forall|i: int| 0 <= i < front.len() implies !text::is_space(#[trigger] front[i])
            && text::lower(front[i]) == front[i] by {
            a_digit_is_plain(front[i]);
        }
    }
    assert(is_plain(back)) by {
        assert forall|i: int| 0 <= i < back.len() implies !text::is_space(#[trigger] back[i])
            && text::lower(back[i]) == back[i] by {
            a_digit_is_plain(back[i]);
        }
    }
    plain_text_is_typed_as_is(front);
    plain_text_is_typed_as_is(back);
    digits_are_whole(front, u32::MAX as nat);
    if hours == 0 {
        first_of_is_first(s, 'h', s.len() as int);
        assert(s.drop_last() =~= front);
        a_digit_is_plain(front.last());
        assert(s.len() >= 2 && s[s.len() - 2] == front.last());
        assert(without_minute_suffix(s) == front);
    } else {
        first_of_is_first(s, 'h', front.len() as int);
        assert(s.take(front.len() as int) =~= front);
        assert(s.skip(front.len() as int + 1) =~= back);
        if minutes > 0 {
            a_digit_is_plain(back.last());
            assert(without_minute_suffix(back) == back);
            digits_are_whole(back, u32::MAX as nat);
        } else {
            assert(without_minute_suffix(back) == back);
        }
    }
}

/// A number of gold with its suffix: digits, then perhaps a point and one more
/// digit, then letters.
proof fn an_amount_is_read_whole(front: Seq<char>, point: Seq<char>, suffix: Seq<char>)
    requires
        front.len() > 0,
        all_digits(front),
        point.len() > 0 ==> point.len() == 2 && point[0] == '.' && is_digit(point[1]),
        suffix.len() == 0 || suffix == seq!['K'] || suffix == seq!['M'],
    ensures
        amount_typed(front + point + suffix + seq!['g']) == front + point
            + suffix,
{
    let kept = front + point + suffix;
    let s = kept + seq!['g'];
    assert forall|i: int| 0 <= i < kept.len() implies !text::is_space(#[trigger] kept[i])
        && !is_separator(kept[i]) && kept[i] != 'g' && kept[i] != 'G' by {
        if i < front.len() {
            assert(kept[i] == front[i]);
            a_digit_is_plain(front[i]);
        } else if i < front.len() + point.len() {
            assert(kept[i] == point[i - front.len()]);
            if i == front.len() + 1 {
                a_digit_is_plain(point[1]);
            }
        } else {
            assert(kept[i] == suffix[i - front.len() - point.len()]);
        }
    }
    assert(s[0] == kept[0]);
    assert(s.last() == 'g');
    assert(text::trimmed(s) == s);
    assert(s.drop_last() =~= kept);
    assert(kept.last() == kept[kept.len() - 1]);
    assert(without_trailing(kept, 'g') == kept);
    assert(without_trailing(s, 'g') == kept);
    assert(without_trailing(kept, 'G') == kept);
    nothing_to_drop(kept);
}

/// An amount of gold reads back as what its condensed form says: at most a
/// tenth and a hundred below, and never above.
pub proof fn gold_reads_back_nearly(n: nat)
    requires
        n <= u32::MAX,
    ensures
        gold_typed(gold_shown(n)) matches Some(read) && read <= n && n - read <= n / 10 + 100,
        n < 1_000 ==> gold_typed(gold_shown(n)) == Some(n),
{
    reveal_strlit("g");
    reveal_strlit("Kg");
    reveal_strlit("Mg");
    reveal_strlit(".");
    let s = gold_shown(n);
    let none = Seq::<char>::empty();
    if n < 1_000 {
        decimal_reads_back(n);
        an_amount_is_read_whole(decimal(n), none, none);
        assert(s =~= decimal(n) + none + none + seq!['g']);
        assert(decimal(n) + none + none =~= decimal(n));
        a_digit_is_plain(decimal(n).last());
        digits_are_whole(decimal(n), u32::MAX as nat);
    } else {
        let letter = if n < 1_000_000 {
            'K'
        } else {
            'M'
        };
        let front = if n < 1_000_000 {
            n / 1_000
        } else {
            n / 1_000_000
        };
        let tenth = if n < 1_000_000 {
            (n % 1_000) / 100
        } else {
            (n % 1_000_000) / 100_000
        };
        decimal_reads_back(front);
        decimal_reads_back(tenth);
        decimals_scale(front, tenth);
        digits_are_spelled(decimal(front), decimal(tenth));
        let point = if front < 10 {
            seq!['.'] + decimal(tenth)
        } else {
            none
        };
        an_amount_is_read_whole(decimal(front), point, seq![letter]);
        assert(s =~= decimal(front) + point + seq![letter] + seq!['g']);
        let kept = decimal(front) + point + seq![letter];
        if front < 10 {
            assert(kept.drop_last() =~= decimal(front) + seq!['.'] + decimal(tenth));
        } else {
            assert(kept.drop_last() =~= decimal(front));
        }
    }
}

/// A duration in milliseconds reads back nearly as it was: exactly below a
/// second, as its tenths below ten, as its whole seconds from there on, and
/// always within a twentieth of it and fifty more.
pub proof fn ms_read_back_nearly(ms: nat)
    requires
        ms <= u64::MAX,
    ensures
        ms < 1_000 ==> ms_typed(ms_shown(ms)) == Some(ms),
        1_000 <= ms < 10_000 ==> ms_typed(ms_shown(ms)) == Some(tenths_shown(ms) * 100),
        10_000 <= ms && doubles::seconds(ms) <= 1_000_000 ==> ms_typed(ms_shown(ms)) == Some(
            doubles::seconds(ms) * 1_000,
        ),
        ms_typed(ms_shown(ms)) matches Some(read) && read - ms <= ms / 20 + 50 && ms - read <= ms
            / 20 + 50,
{
    reveal_strlit("ms");
    reveal_strlit("s");
    reveal_strlit(".");
    let s = ms_shown(ms);
    let n = s.len() as int;
    if ms < 1_000 {
        let front = decimal(ms);
        decimal_reads_back(ms);
        assert(s =~= front + seq!['m', 's']);
        assert forall|i: int| 0 <= i < s.len() implies !text::is_space(#[trigger] s[i])
            && text::lower(s[i]) == s[i] by {
            if i < front.len() {
                assert(s[i] == front[i]);
                a_digit_is_plain(front[i]);
            }
        }
        plain_text_is_typed_as_is(s);
        assert(s.take(n - 2) =~= front);
        assert(is_plain(front)) by {
            assert forall|i: int| 0 <= i < front.len() implies !text::is_space(#[trigger] front[i])
                && text::lower(front[i]) == front[i] by {
                a_digit_is_plain(front[i]);
            }
        }
        plain_text_is_typed_as_is(front);
        digits_are_whole(front, u64::MAX as nat);
    } else {
        let front: nat = if ms < 10_000 {
            tenths_shown(ms) / 10
        } else {
            doubles::seconds(ms)
        };
        let tenth: nat = if ms < 10_000 {
            tenths_shown(ms) % 10
        } else {
            0
        };
        decimal_reads_back(front);
        decimal_reads_back(tenth);
        decimals_scale(front, tenth);
        digits_are_spelled(decimal(front), decimal(tenth));
        let head = if ms < 10_000 {
            decimal(front) + seq!['.'] + decimal(tenth)
        } else {
            decimal(front)
        };
        assert(s =~= head + seq!['s']);
        assert forall|i: int| 0 <= i < head.len() implies !text::is_space(#[trigger] head[i])
            && text::lower(head[i]) == head[i] && head[i] != 'm' by {
            if i < decimal(front).len() {
                assert(head[i] == decimal(front)[i]);
                a_digit_is_plain(decimal(front)[i]);
            } else if i > decimal(front).len() {
                assert(head[i] == decimal(tenth)[i - decimal(front).len() - 1]);
                a_digit_is_plain(decimal(tenth)[i - decimal(front).len() - 1]);
            }
        }
        assert forall|i: int| 0 <= i < s.len() implies !text::is_space(#[trigger] s[i])
            && text::lower(s[i]) == s[i] by {
            if i < head.len() {
                assert(s[i] == head[i]);
            }
        }
        plain_text_is_typed_as_is(s);
        plain_text_is_typed_as_is(head);
        assert(s.take(n - 1) =~= head);
        assert(s[n - 2] == head[n - 2]);
        if ms < 10_000 {
            tenths_are_near(ms);
        } else {
            doubles::seconds_read_back_nearly(ms);
        }
    }
}

/// A word in front of a duration is read over.
pub proof fn a_word_in_front_is_read_over(prefix: Seq<char>, ms: nat)
    ensures
        ms_typed_after(prefix, prefix + ms_shown(ms)) == ms_typed(ms_shown(ms)),
{
    let shown = prefix + ms_shown(ms);
    assert(shown.take(prefix.len() as int) =~= prefix);
    assert(shown.skip(prefix.len() as int) =~= ms_shown(ms));
}

/// Digits are plain.
proof fn digits_are_plain(digits: Seq<char>)
    requires
        all_digits(digits),
    ensures
        is_plain(digits),
        text::trimmed(digits) == digits,
{
    assert forall|i: int| 0 <= i < digits.len() implies !text::is_space(#[trigger] digits[i])
        && text::lower(digits[i]) == digits[i] by {
        a_digit_is_plain(digits[i]);
    }
    plain_text_is_typed_as_is(digits);
}

/// Minutes are read with or without an `m` or a `min` behind them, as long as they
/// can be held.
pub proof fn minutes_need_no_unit(n: nat)
    ensures
        n <= u32::MAX ==> minutes_typed(decimal(n)) == Some(n) && minutes_typed(
            decimal(n) + seq!['m'],
        ) == Some(n) && minutes_typed(decimal(n) + seq!['m', 'i', 'n']) == Some(n),
        n > u32::MAX ==> minutes_typed(decimal(n)) is None && minutes_typed(decimal(n) + seq!['m'])
            is None && minutes_typed(decimal(n) + seq!['m', 'i', 'n']) is None,
{
    let digits = decimal(n);
    decimal_reads_back(n);
    digits_are_plain(digits);
    a_digit_is_plain(digits.last());
    a_digit_is_plain(digits[0]);
    if n <= u32::MAX {
        digits_are_whole(digits, u32::MAX as nat);
    }
    minutes_with_a_unit(n, Seq::empty());
    minutes_with_a_unit(n, seq!['m']);
    minutes_with_a_unit(n, seq!['m', 'i', 'n']);
    assert(digits + Seq::empty() =~= digits);
}

proof fn minutes_with_a_unit(n: nat, unit: Seq<char>)
    requires
        unit == Seq::<char>::empty() || unit == seq!['m'] || unit == seq!['m', 'i', 'n'],
    ensures
        minutes_typed(decimal(n) + unit) == crate::numbers::whole(decimal(n), u32::MAX as nat),
{
    let digits = decimal(n);
    let s = digits + unit;
    decimal_reads_back(n);
    digits_are_plain(digits);
    a_digit_is_plain(digits.last());
    assert forall|i: int| 0 <= i < s.len() implies !text::is_space(#[trigger] s[i]) && text::lower(
        s[i],
    ) == s[i] && s[i] != 'h' by {
        if i < digits.len() {
            assert(s[i] == digits[i]);
            a_digit_is_plain(digits[i]);
        }
    }
    plain_text_is_typed_as_is(s);
    first_of_is_first(s, 'h', s.len() as int);
    assert(s.take(digits.len() as int) =~= digits);
    if unit.len() == 0 {
        assert(s =~= digits);
    } else if unit.len() == 1 {
        assert(s.drop_last() =~= digits);
        assert(s[s.len() - 2] == digits.last());
    }
    assert(without_minute_suffix(s) == digits);
}

/// Hours with an `h` and minutes behind it are read as sixty minutes for each hour
/// and the minutes, as long as all of that can be held; no minutes are none.
pub proof fn hours_are_sixty_minutes(hours: nat, minutes: nat)
    ensures
        hours * 60 + minutes <= u32::MAX ==> minutes_typed(
            decimal(hours) + seq!['h'] + decimal(minutes),
        ) == Some(hours * 60 + minutes),
        hours * 60 + minutes > u32::MAX ==> minutes_typed(
            decimal(hours) + seq!['h'] + decimal(minutes),
        ) is None,
        hours * 60 <= u32::MAX ==> minutes_typed(decimal(hours) + seq!['h']) == Some(hours * 60),
{
    let front = decimal(hours);
    let back = decimal(minutes);
    decimal_reads_back(hours);
    decimal_reads_back(minutes);
    digits_are_plain(front);
    digits_are_plain(back);
    a_digit_is_plain(front[0]);
    a_digit_is_plain(back[0]);
    a_digit_is_plain(back.last());
    hours_stand_in_front(front, back);
    hours_stand_in_front(front, Seq::empty());
    assert(front + seq!['h'] + Seq::empty() =~= front + seq!['h']);
    assert(without_minute_suffix(back) == back);
    if hours <= u32::MAX {
        digits_are_whole(front, u32::MAX as nat);
    }
    if minutes <= u32::MAX {
        digits_are_whole(back, u32::MAX as nat);
    }
    assert(without_minute_suffix(Seq::empty()) == Seq::<char>::empty());
}

proof fn hours_stand_in_front(front: Seq<char>, back: Seq<char>)
    requires
        front.len() > 0,
        all_digits(front),
        all_digits(back),
    ensures
        minutes_typed(front + seq!['h'] + back) == crate::gui::parsers::hours_and_minutes(
            crate::numbers::whole(front, u32::MAX as nat),
            crate::gui::parsers::minutes_after_hours(back),
        ),
        text::trimmed(back) == back,
{
    let s = front + seq!['h'] + back;
    digits_are_plain(front);
    digits_are_plain(back);
    assert forall|i: int| 0 <= i < s.len() implies !text::is_space(#[trigger] s[i]) && text::lower(
        s[i],
    ) == s[i] by {
        if i < front.len() {
            assert(s[i] == front[i]);
            a_digit_is_plain(front[i]);
        } else if i > front.len() {
            assert(s[i] == back[i - front.len() - 1]);
            a_digit_is_plain(back[i - front.len() - 1]);
        }
    }
    plain_text_is_typed_as_is(s);
    assert forall|i: int| 0 <= i < front.len() implies s[i] != 'h' by {
        assert(s[i] == front[i]);
        a_digit_is_plain(front[i]);
    }
    first_of_is_first(s, 'h', front.len() as int);
    assert(s.take(front.len() as int) =~= front);
    assert(s.skip(front.len() as int + 1) =~= back);
}

/// An amount is read as it stands, with or without a `g`, as long as it can be
/// held; behind a `K` it counts thousands and behind an `M` millions.
pub proof fn amounts_count_thousands_and_millions(n: nat)
    ensures
        n <= u32::MAX ==> gold_typed(decimal(n) + seq!['g']) == Some(n),
        n > u32::MAX ==> gold_typed(decimal(n) + seq!['g']) is None,
        n * 1_000 <= u32::MAX ==> gold_typed(decimal(n) + seq!['K', 'g']) == Some(n * 1_000),
        n * 1_000_000 <= u32::MAX ==> gold_typed(decimal(n) + seq!['M', 'g']) == Some(
            n * 1_000_000,
        ),
        n <= 1_000_000 && n * 1_000_000 > u32::MAX ==> gold_typed(decimal(n) + seq!['M', 'g'])
            is None,
{
    let digits = decimal(n);
    let none = Seq::<char>::empty();
    decimal_reads_back(n);
    decimals_scale(n, 0);
    digits_are_spelled(digits, none);
    a_digit_is_plain(digits.last());
    a_digit_is_plain(digits[0]);
    an_amount_is_read_whole(digits, none, none);
    an_amount_is_read_whole(digits, none, seq!['K']);
    an_amount_is_read_whole(digits, none, seq!['M']);
    assert(digits + none + none + seq!['g'] =~= digits + seq!['g']);
    assert(digits + none + none =~= digits);
    assert(digits + none + seq!['K'] + seq!['g'] =~= digits + seq!['K', 'g']);
    assert(digits + none + seq!['M'] + seq!['g'] =~= digits + seq!['M', 'g']);
    assert((digits + none + seq!['K']).drop_last() =~= digits);
    assert((digits + none + seq!['M']).drop_last() =~= digits);
    if n * 1_000 <= u32::MAX {
        doubles::a_whole_product_is_exact(n, 1, 1_000, n * 1_000);
    }
    if n <= u32::MAX {
        digits_are_whole(digits, u32::MAX as nat);
    }
}

/// A time without a unit is in milliseconds, and so is one with `ms`; behind an `s`
/// it is in seconds.
pub proof fn times_without_a_unit_are_milliseconds(n: nat)
    ensures
        n <= u64::MAX ==> ms_typed(decimal(n)) == Some(n) && ms_typed(decimal(n) + seq!['m', 's'])
            == Some(n),
        n > u64::MAX ==> ms_typed(decimal(n)) is None && ms_typed(decimal(n) + seq!['m', 's'])
            is None,
        n <= 1_000_000 ==> ms_typed(decimal(n) + seq!['s']) == Some(n * 1_000),
{
    let digits = decimal(n);
    decimal_reads_back(n);
    digits_are_plain(digits);
    a_digit_is_plain(digits.last());
    a_digit_is_plain(digits[0]);
    if n <= u64::MAX {
        digits_are_whole(digits, u64::MAX as nat);
    }
    let in_ms = digits + seq!['m', 's'];
    let in_s = digits + seq!['s'];
    assert forall|i: int| 0 <= i < in_ms.len() implies !text::is_space(#[trigger] in_ms[i])
        && text::lower(in_ms[i]) == in_ms[i] by {
        if i < digits.len() {
            assert(in_ms[i] == digits[i]);
        }
    }
    assert forall|i: int| 0 <= i < in_s.len() implies !text::is_space(#[trigger] in_s[i])
        && text::lower(in_s[i]) == in_s[i] by {
        if i < digits.len() {
            assert(in_s[i] == digits[i]);
        }
    }
    plain_text_is_typed_as_is(digits);
    plain_text_is_typed_as_is(in_ms);
    plain_text_is_typed_as_is(in_s);
    assert(in_ms.take(in_ms.len() - 2) =~= digits);
    assert(in_s.take(in_s.len() - 1) =~= digits);
    assert(in_s[in_s.len() - 2] == digits.last());
    decimals_scale(n, 0);
    digits_are_spelled(digits, Seq::empty());
}

} // verus!

//! Saving the settings that the window edits: which of them are saved, under
//! which keys, and how the settings file keeps everything else as it is.

use super::settings_file::{
    self, contents, digits_start, ending, headed, headings, is_bare, is_decimal_literal, is_filled,
    is_in_reach, is_native, is_real_literal, is_split_at, is_under, is_written, is_written_whole,
    read, remarks, rest, sections, settings, trails, without, At, Contents, Setting, Step, Thing,
};
use crate::numbers::{self, is_digit};
use crate::text::{self, decimal, low_digits};
use toml_edit::{DocumentMut, Value};
use vstd::prelude::*;
use vstd::string::*;

verus! {

/// A decimal number as it is written in the settings file.
#[derive(Debug, PartialEq, Eq)]
pub struct Real {
    text: String,
}

impl View for Real {
    type V = Seq<char>;

    closed spec fn view(&self) -> Seq<char> {
        self.text@
    }
}

impl Clone for Real {
    fn clone(&self) -> (copy: Self)
        ensures
            copy@ == self@,
    {
        proof {
            use_type_invariant(self);
        }
        Real { text: self.text.as_str().to_owned() }
    }
}

/// The digits behind the point of so many thousandths, without needless zeros.
pub open spec fn fraction(thousandths: nat) -> Seq<char> {
    if thousandths % 100 == 0 {
        low_digits(thousandths / 100, 1)
    } else if thousandths % 10 == 0 {
        low_digits(thousandths / 10, 2)
    } else {
        low_digits(thousandths, 3)
    }
}

/// So many thousandths, as a decimal number.
pub open spec fn in_thousandths(n: int) -> Seq<char> {
    let size = if n < 0 {
        (-n) as nat
    } else {
        n as nat
    };
    (if n < 0 {
        seq!['-']
    } else {
        Seq::empty()
    }) + decimal(size / 1000) + seq!['.'] + fraction(size % 1000)
}

/// A number in decimal has no needless zero in front, and as many digits as
/// its size asks for.
proof fn decimal_is_tight(n: nat, width: nat, bound: nat)
    requires
        n < bound,
        width > 0,
        bound == vstd::arithmetic::power::pow(10, width),
    ensures
        decimal(n).len() <= width,
        n > 0 ==> decimal(n)[0] != '0',
        n < 10 ==> decimal(n).len() == 1,
    decreases n,
{
    if n < 10 {
        numbers::a_digit_reads_back(n);
    } else {
        reveal(vstd::arithmetic::power::pow);
        if width == 1 {
            vstd::arithmetic::power::lemma_pow1(10);
            assert(false);
        }
        let less = vstd::arithmetic::power::pow(10, (width - 1) as nat);
        assert(bound == 10 * less);
        vstd::arithmetic::power::lemma_pow_positive(10, (width - 1) as nat);
        numbers::decimal_reads_back(n / 10);
        decimal_is_tight(n / 10, (width - 1) as nat, less as nat);
    }
}

proof fn low_digits_are_digits(n: nat, width: nat)
    ensures
        low_digits(n, width).len() == width,
        numbers::all_digits(low_digits(n, width)),
    decreases width,
{
    if width > 0 {
        low_digits_are_digits(n / 10, (width - 1) as nat);
        numbers::a_digit_reads_back(n % 10);
    }
}

/// So many thousandths always make a decimal number that can be read back.
proof fn thousandths_are_literals(n: int)
    requires
        i64::MIN <= n <= i64::MAX,
    ensures
        is_real_literal(in_thousandths(n)),
{
    let size = if n < 0 {
        (-n) as nat
    } else {
        n as nat
    };
    let sign: Seq<char> = if n < 0 {
        seq!['-']
    } else {
        Seq::empty()
    };
    let front = decimal(size / 1000);
    let back = fraction(size % 1000);
    let s = in_thousandths(n);
    assert(vstd::arithmetic::power::pow(10, 20) == 100_000_000_000_000_000_000) by {
        reveal_with_fuel(vstd::arithmetic::power::pow, 21);
    }
    decimal_is_tight(size / 1000, 20, 100_000_000_000_000_000_000);
    numbers::decimal_reads_back(size / 1000);
    low_digits_are_digits(size % 1000 / 100, 1);
    low_digits_are_digits(size % 1000 / 10, 2);
    low_digits_are_digits(size % 1000, 3);
    numbers::a_digit_is_plain(front[0]);
    let start = sign.len() as int;
    let point = start + front.len();
    assert(s.len() == start + front.len() + 1 + back.len());
    assert forall|i: int| start <= i < point implies is_digit(#[trigger] s[i]) by {
        assert(s[i] == front[i - start]);
    }
    assert forall|i: int| point < i < s.len() implies is_digit(#[trigger] s[i]) by {
        assert(s[i] == back[i - point - 1]);
    }
    assert(s[point] == '.');
    assert(s[start] == front[0]);
    if n < 0 {
        assert(s[0] == sign[0]);
    }
    assert(digits_start(s) == start);
    assert(is_split_at(s, digits_start(s), point));
    assert(is_in_reach(s.subrange(digits_start(s), point)));
}

impl Real {
    #[verifier::type_invariant]
    spec fn is_readable(self) -> bool {
        is_real_literal(self.text@)
    }

    /// So many thousandths.
    pub fn thousandths(n: i64) -> (number: Self)
        ensures
            number@ == in_thousandths(n as int),
    {
        let size: u64 = if n < 0 {
            (-(n as i128)) as u64
        } else {
            n as u64
        };
        let mut text = String::new();
        if n < 0 {
            text.push('-');
        }
        let ghost sign = text@;
        assert(sign =~= if n < 0 {
            seq!['-']
        } else {
            Seq::empty()
        });
        text.append(text::decimal_text(size / 1000).as_str());
        text.push('.');
        let ghost front = text@;
        assert(front =~= sign + decimal((size / 1000) as nat) + seq!['.']);
        let rest: u64 = size % 1000;
        if rest % 100 == 0 {
            text.append(text::low_digits_text(rest / 100, 1).as_str());
        } else if rest % 10 == 0 {
            text.append(text::low_digits_text(rest / 10, 2).as_str());
        } else {
            text.append(text::low_digits_text(rest, 3).as_str());
        }
        assert(text@ =~= in_thousandths(n as int));
        proof {
            thousandths_are_literals(n as int);
        }
        Real { text }
    }

    /// The number that a text spells, where it spells one.
    pub fn parse(text: &str) -> (number: Option<Self>)
        ensures
            match number {
                Some(number) => number@ == text@ && is_real_literal(text@),
                None => !is_real_literal(text@),
            },
    {
        let chars = text::chars_of(text);
        if is_a_decimal(&chars) || text::same_text(text, "inf") || text::same_text(text, "-inf")
            || text::same_text(text, "nan") || text::same_text(text, "-nan") {
            Some(Real { text: text.to_owned() })
        } else {
            None
        }
    }
}

/// Whether a text is a plain decimal number, no larger than a double can be.
fn is_a_decimal(chars: &Vec<char>) -> (yes: bool)
    ensures
        yes == is_decimal_literal(chars@),
{
    let start: usize = if chars.len() > 0 && chars[0] == '-' {
        1
    } else {
        0
    };
    let mut point: usize = start;
    while point < chars.len() && is_a_digit(chars[point])
        invariant
            start <= point <= chars.len() || (point == start && chars.len() == 0),
            forall|i: int| start <= i < point ==> is_digit(#[trigger] chars@[i]),
        decreases chars.len() - point,
    {
        point = point + 1;
    }
    let ghost digits_end = point as int;
    proof {
        assert forall|p: int| is_split_at(chars@, start as int, p) implies p == digits_end by {
            if p < digits_end {
                numbers::a_digit_is_plain(chars@[p]);
            }
            if p > digits_end {
                assert(is_digit(chars@[digits_end]));
            }
        }
    }
    if point == start || point >= chars.len() || chars.len() - point < 2 || chars[point] != '.' {
        return false;
    }
    if chars[start] == '0' && point != start + 1 {
        return false;
    }
    let mut i: usize = point + 1;
    while i < chars.len()
        invariant
            start < point < i <= chars.len(),
            chars@[point as int] == '.',
            point == digits_end,
            forall|p: int| is_split_at(chars@, start as int, p) ==> p == digits_end,
            start == digits_start(chars@),
            chars@[start as int] == '0' ==> point == start + 1,
            forall|j: int| start <= j < point ==> is_digit(#[trigger] chars@[j]),
            forall|j: int| point < j < i ==> is_digit(#[trigger] chars@[j]),
        decreases chars.len() - i,
    {
        if !is_a_digit(chars[i]) {
            return false;
        }
        i = i + 1;
    }
    assert(is_split_at(chars@, digits_start(chars@), point as int));
    let digits = text::slice_of(chars, start, point);
    reaches(&digits)
}

/// Whether digits stand for no more than the largest double.
fn reaches(digits: &Vec<char>) -> (yes: bool)
    requires
        numbers::all_digits(digits@),
    ensures
        yes == is_in_reach(digits@),
{
    if digits.len() != 309 {
        return digits.len() < 309;
    }
    let mut front: u64 = 0;
    for i in 0..17usize
        invariant
            digits@.len() == 309,
            numbers::all_digits(digits@),
            front == numbers::whole_part(digits@, i as int),
            front < numbers::ten_to(i as nat),
    {
        proof {
            numbers::ten_to_grows(i as nat, 16);
            assert(numbers::ten_to(16) == 10_000_000_000_000_000) by {
                reveal_with_fuel(numbers::ten_to, 17);
            }
        }
        let next: u64 = match numbers::digit_of(digits[i]) {
            Some(d) => d,
            None => 0,
        };
        front = front * 10 + next;
    }
    front <= 17_976_931_348_623_157
}

fn is_a_digit(c: char) -> (yes: bool)
    ensures
        yes == is_digit(c),
{
    '0' <= c && c <= '9'
}

/// Every setting that the window edits and saves. Ratios, sigmas and pixel
/// lengths are in thousandths.
#[derive(Debug, Clone, PartialEq, Eq)]
pub struct AutoSavedFields {
    pub base_resolution: [u32; 2],
    pub max_refreshes: u32,
    pub stop_after_minutes: u32,
    pub stop_when_mystic_medals: u32,
    pub stop_when_covenants: u32,
    pub stop_when_gold_spent: u32,
    pub buy_mystic_medals: bool,
    pub buy_covenant: bool,
    pub buy_button_y_offset_ratio: i64,
    pub buy_button_band_h_ratio: i64,
    pub buy_calibration_line_y_ratio: i64,
    pub threshold: i64,
    pub preview_refresh_ms: u32,
    pub sleep_when_done: bool,
    pub shop_grid: Option<[i64; 4]>,
    pub z_refresh: Option<[i64; 4]>,
    pub z_refresh_confirm: Option<[i64; 4]>,
    pub z_buy_confirm: Option<[i64; 4]>,
    pub z_buy_column: Option<[i64; 4]>,
    pub click_delay_mean_ms: Real,
    pub click_delay_sigma: i64,
    pub click_delay_min_ms: u64,
    pub click_delay_max_ms: u64,
    pub move_steps_min: u32,
    pub move_steps_max: u32,
    pub move_step_min_ms: u64,
    pub move_step_max_ms: u64,
    pub move_to_click_min_ms: u64,
    pub move_to_click_max_ms: u64,
    pub move_curve_amplitude_px: i64,
    pub jitter_radius_px: i64,
    pub inter_round_min_ms: u64,
    pub inter_round_max_ms: u64,
    pub long_pause_every_n: u32,
    pub long_pause_min_ms: u64,
    pub long_pause_max_ms: u64,
    pub scroll_amount: i32,
    pub cooperative_idle_ms: u64,
    pub discord_webhook_url: String,
}

/// What is to become of a key: what it says from now on, or nothing where it
/// goes.
pub struct Entry {
    pub at: At,
    pub change: Option<Setting>,
}

/// A key that says something from now on.
pub open spec fn entry(section: Seq<char>, key: Seq<char>, says: Setting) -> Entry {
    Entry { at: (section, key), change: Some(says) }
}

/// What a number of milliseconds is saved as: the largest integer that a file
/// can hold, where it is larger than that.
pub open spec fn capped(ms: u64) -> int {
    if ms > i64::MAX {
        i64::MAX as int
    } else {
        ms as int
    }
}

/// What so many thousandths say.
pub open spec fn milli_said(n: int) -> Setting {
    Setting::Real(in_thousandths(n))
}

/// What a resolution says.
pub open spec fn pair_said(pair: Seq<u32>) -> Setting {
    Setting::List(seq![Setting::Integer(pair[0] as int), Setting::Integer(pair[1] as int)])
}

/// `n`, or the nearer bound where it is outside of them.
pub open spec fn between(low: int, n: int, high: int) -> int {
    if n < low {
        low
    } else if n > high {
        high
    } else {
        n
    }
}

/// A rectangle as it is saved: with some extent, and inside the window. An
/// extent near the edge is kept, and its corner moves.
pub open spec fn fitted(rect: Seq<i64>) -> Seq<int> {
    let w = between(1, rect[2] as int, 1000);
    let h = between(1, rect[3] as int, 1000);
    seq![between(0, rect[0] as int, 1000 - w), between(0, rect[1] as int, 1000 - h), w, h]
}

/// What a rectangle says.
pub open spec fn rect_said(rect: Seq<i64>) -> Setting {
    let edges = fitted(rect);
    Setting::List(
        seq![
            milli_said(edges[0]),
            milli_said(edges[1]),
            milli_said(edges[2]),
            milli_said(edges[3]),
        ],
    )
}

/// The key of a rectangle, which goes where there is none.
pub open spec fn rect_entry(section: Seq<char>, key: Seq<char>, rect: Option<[i64; 4]>) -> Entry {
    Entry {
        at: (section, key),
        change: match rect {
            Some(rect) => Some(rect_said(rect@)),
            None => None,
        },
    }
}

/// A saved rectangle has some extent and lies inside the window.
pub proof fn a_saved_rectangle_is_in_the_window(rect: Seq<i64>)
    requires
        rect.len() == 4,
    ensures
        ({
            let edges = fitted(rect);
            &&& edges[0] >= 0 && edges[1] >= 0
            &&& edges[2] >= 1 && edges[0] + edges[2] <= 1000
            &&& edges[3] >= 1 && edges[1] + edges[3] <= 1000
        }),
{
}

/// A rectangle that lies inside the window is saved as it is.
pub proof fn a_rectangle_in_the_window_is_kept(rect: Seq<i64>)
    requires
        rect.len() == 4,
        0 <= rect[0] && 1 <= rect[2] && rect[0] + rect[2] <= 1000,
        0 <= rect[1] && 1 <= rect[3] && rect[1] + rect[3] <= 1000,
    ensures
        fitted(rect) == seq![rect[0] as int, rect[1] as int, rect[2] as int, rect[3] as int],
{
}

/// Every saved key, with what it says.
pub open spec fn entries(fields: AutoSavedFields) -> Seq<Entry> {
    seq![
        entry("window"@, "base_resolution"@, pair_said(fields.base_resolution@)),
        entry("shop"@, "max_refreshes"@, Setting::Integer(fields.max_refreshes as int)),
        entry("shop"@, "stop_after_minutes"@, Setting::Integer(fields.stop_after_minutes as int)),
        entry(
            "shop"@,
            "stop_when_mystic_medals"@,
            Setting::Integer(fields.stop_when_mystic_medals as int),
        ),
        entry("shop"@, "stop_when_covenants"@, Setting::Integer(fields.stop_when_covenants as int)),
        entry(
            "shop"@,
            "stop_when_gold_spent"@,
            Setting::Integer(fields.stop_when_gold_spent as int),
        ),
        entry("shop"@, "buy_mystic_medals"@, Setting::Flag(fields.buy_mystic_medals)),
        entry("shop"@, "buy_covenant"@, Setting::Flag(fields.buy_covenant)),
        entry(
            "shop"@,
            "buy_button_y_offset_ratio"@,
            milli_said(fields.buy_button_y_offset_ratio as int),
        ),
        entry(
            "shop"@,
            "buy_button_band_h_ratio"@,
            milli_said(fields.buy_button_band_h_ratio as int),
        ),
        entry(
            "shop"@,
            "buy_calibration_line_y_ratio"@,
            milli_said(fields.buy_calibration_line_y_ratio as int),
        ),
        entry("shop"@, "sleep_when_done"@, Setting::Flag(fields.sleep_when_done)),
        entry("matching"@, "threshold"@, milli_said(fields.threshold as int)),
        entry(
            "matching"@,
            "preview_refresh_ms"@,
            Setting::Integer(fields.preview_refresh_ms as int),
        ),
        entry("timing"@, "click_delay_mean_ms"@, Setting::Real(fields.click_delay_mean_ms@)),
        entry("timing"@, "click_delay_sigma"@, milli_said(fields.click_delay_sigma as int)),
        entry(
            "timing"@,
            "click_delay_min_ms"@,
            Setting::Integer(capped(fields.click_delay_min_ms)),
        ),
        entry(
            "timing"@,
            "click_delay_max_ms"@,
            Setting::Integer(capped(fields.click_delay_max_ms)),
        ),
        entry("timing"@, "move_steps_min"@, Setting::Integer(fields.move_steps_min as int)),
        entry("timing"@, "move_steps_max"@, Setting::Integer(fields.move_steps_max as int)),
        entry("timing"@, "move_step_min_ms"@, Setting::Integer(capped(fields.move_step_min_ms))),
        entry("timing"@, "move_step_max_ms"@, Setting::Integer(capped(fields.move_step_max_ms))),
        entry(
            "timing"@,
            "move_to_click_min_ms"@,
            Setting::Integer(capped(fields.move_to_click_min_ms)),
        ),
        entry(
            "timing"@,
            "move_to_click_max_ms"@,
            Setting::Integer(capped(fields.move_to_click_max_ms)),
        ),
        entry(
            "timing"@,
            "move_curve_amplitude_px"@,
            milli_said(fields.move_curve_amplitude_px as int),
        ),
        entry("timing"@, "jitter_radius_px"@, milli_said(fields.jitter_radius_px as int)),
        entry(
            "timing"@,
            "inter_round_min_ms"@,
            Setting::Integer(capped(fields.inter_round_min_ms)),
        ),
        entry(
            "timing"@,
            "inter_round_max_ms"@,
            Setting::Integer(capped(fields.inter_round_max_ms)),
        ),
        entry("timing"@, "long_pause_every_n"@, Setting::Integer(fields.long_pause_every_n as int)),
        entry("timing"@, "long_pause_min_ms"@, Setting::Integer(capped(fields.long_pause_min_ms))),
        entry("timing"@, "long_pause_max_ms"@, Setting::Integer(capped(fields.long_pause_max_ms))),
        entry("timing"@, "scroll_amount"@, Setting::Integer(fields.scroll_amount as int)),
        entry(
            "timing"@,
            "cooperative_idle_ms"@,
            Setting::Integer(capped(fields.cooperative_idle_ms)),
        ),
        rect_entry("regions"@, "shop_grid"@, fields.shop_grid),
        rect_entry("zones"@, "refresh"@, fields.z_refresh),
        rect_entry("zones"@, "refresh_confirm"@, fields.z_refresh_confirm),
        rect_entry("zones"@, "buy_confirm"@, fields.z_buy_confirm),
        rect_entry("zones"@, "buy_column"@, fields.z_buy_column),
        entry("notifications"@, "discord_webhook_url"@, Setting::Text(fields.discord_webhook_url@)),
    ]
}

/// A document's sections and settings.
pub type Held = (Map<Seq<char>, bool>, Map<At, Setting>);

/// Whether a name is free for a section, or is one already.
pub open spec fn is_open(held: Held, section: Seq<char>) -> bool {
    held.0.contains_key(section) ==> held.0[section]
}

/// A document after one key was saved: its section is there, and the key says
/// what it is to say; unless the section's name is taken by something else.
pub open spec fn after(held: Held, saved: Entry) -> Held {
    if !is_open(held, saved.at.0) {
        held
    } else {
        (
            if held.0.contains_key(saved.at.0) {
                held.0
            } else {
                held.0.insert(saved.at.0, true)
            },
            match saved.change {
                Some(says) => held.1.insert(saved.at, says),
                None => held.1.remove(saved.at),
            },
        )
    }
}

/// A document after keys were saved, one after another.
pub open spec fn after_all(held: Held, saved: Seq<Entry>) -> Held
    decreases saved.len(),
{
    if saved.len() == 0 {
        held
    } else {
        after(after_all(held, saved.drop_last()), saved.last())
    }
}

/// What is to become of a key.
#[derive(Debug)]
enum Change {
    Integer(i64),
    Flag(bool),
    Text(String),
    Real(Real),
    Pair(u32, u32),
    Rect(Option<[i64; 4]>),
}

#[derive(Debug)]
struct Edit {
    section: &'static str,
    key: &'static str,
    change: Change,
}

impl View for Edit {
    type V = Entry;

    closed spec fn view(&self) -> Entry {
        let (section, key) = (self.section@, self.key@);
        match self.change {
            Change::Integer(n) => entry(section, key, Setting::Integer(n as int)),
            Change::Flag(yes) => entry(section, key, Setting::Flag(yes)),
            Change::Text(s) => entry(section, key, Setting::Text(s@)),
            Change::Real(number) => entry(section, key, Setting::Real(number@)),
            Change::Pair(w, h) => entry(section, key, pair_said(seq![w, h])),
            Change::Rect(rect) => rect_entry(section, key, rect),
        }
    }
}

fn edit(section: &'static str, key: &'static str, change: Change) -> (edit: Edit)
    ensures
        edit.section == section,
        edit.key == key,
        edit.change == change,
{
    Edit { section, key, change }
}

fn capped_integer(ms: u64) -> (n: i64)
    ensures
        n == capped(ms),
{
    if ms > i64::MAX as u64 {
        i64::MAX
    } else {
        ms as i64
    }
}

/// The edits that save the fields, in order.
#[verifier::rlimit(60)]
fn edits(fields: &AutoSavedFields) -> (list: Vec<Edit>)
    ensures
        list@.map_values(|edit: Edit| edit@) == entries(*fields),
{
    let mut list: Vec<Edit> = Vec::new();
    list.push(
        edit(
            "window",
            "base_resolution",
            Change::Pair(fields.base_resolution[0], fields.base_resolution[1]),
        ),
    );
    list.push(edit("shop", "max_refreshes", Change::Integer(fields.max_refreshes as i64)));
    list.push(
        edit("shop", "stop_after_minutes", Change::Integer(fields.stop_after_minutes as i64)),
    );
    list.push(
        edit(
            "shop",
            "stop_when_mystic_medals",
            Change::Integer(fields.stop_when_mystic_medals as i64),
        ),
    );
    list.push(
        edit("shop", "stop_when_covenants", Change::Integer(fields.stop_when_covenants as i64)),
    );
    list.push(
        edit("shop", "stop_when_gold_spent", Change::Integer(fields.stop_when_gold_spent as i64)),
    );
    list.push(edit("shop", "buy_mystic_medals", Change::Flag(fields.buy_mystic_medals)));
    list.push(edit("shop", "buy_covenant", Change::Flag(fields.buy_covenant)));
    list.push(
        edit(
            "shop",
            "buy_button_y_offset_ratio",
            Change::Real(Real::thousandths(fields.buy_button_y_offset_ratio)),
        ),
    );
    list.push(
        edit(
            "shop",
            "buy_button_band_h_ratio",
            Change::Real(Real::thousandths(fields.buy_button_band_h_ratio)),
        ),
    );
    list.push(
        edit(
            "shop",
            "buy_calibration_line_y_ratio",
            Change::Real(Real::thousandths(fields.buy_calibration_line_y_ratio)),
        ),
    );
    list.push(edit("shop", "sleep_when_done", Change::Flag(fields.sleep_when_done)));
    list.push(edit("matching", "threshold", Change::Real(Real::thousandths(fields.threshold))));
    list.push(
        edit("matching", "preview_refresh_ms", Change::Integer(fields.preview_refresh_ms as i64)),
    );
    list.push(
        edit("timing", "click_delay_mean_ms", Change::Real(fields.click_delay_mean_ms.clone())),
    );
    list.push(
        edit(
            "timing",
            "click_delay_sigma",
            Change::Real(Real::thousandths(fields.click_delay_sigma)),
        ),
    );
    list.push(
        edit(
            "timing",
            "click_delay_min_ms",
            Change::Integer(capped_integer(fields.click_delay_min_ms)),
        ),
    );
    list.push(
        edit(
            "timing",
            "click_delay_max_ms",
            Change::Integer(capped_integer(fields.click_delay_max_ms)),
        ),
    );
    list.push(edit("timing", "move_steps_min", Change::Integer(fields.move_steps_min as i64)));
    list.push(edit("timing", "move_steps_max", Change::Integer(fields.move_steps_max as i64)));
    list.push(
        edit(
            "timing",
            "move_step_min_ms",
            Change::Integer(capped_integer(fields.move_step_min_ms)),
        ),
    );
    list.push(
        edit(
            "timing",
            "move_step_max_ms",
            Change::Integer(capped_integer(fields.move_step_max_ms)),
        ),
    );
    list.push(
        edit(
            "timing",
            "move_to_click_min_ms",
            Change::Integer(capped_integer(fields.move_to_click_min_ms)),
        ),
    );
    list.push(
        edit(
            "timing",
            "move_to_click_max_ms",
            Change::Integer(capped_integer(fields.move_to_click_max_ms)),
        ),
    );
    list.push(
        edit(
            "timing",
            "move_curve_amplitude_px",
            Change::Real(Real::thousandths(fields.move_curve_amplitude_px)),
        ),
    );
    list.push(
        edit(
            "timing",
            "jitter_radius_px",
            Change::Real(Real::thousandths(fields.jitter_radius_px)),
        ),
    );
    list.push(
        edit(
            "timing",
            "inter_round_min_ms",
            Change::Integer(capped_integer(fields.inter_round_min_ms)),
        ),
    );
    list.push(
        edit(
            "timing",
            "inter_round_max_ms",
            Change::Integer(capped_integer(fields.inter_round_max_ms)),
        ),
    );
    list.push(
        edit("timing", "long_pause_every_n", Change::Integer(fields.long_pause_every_n as i64)),
    );
    list.push(
        edit(
            "timing",
            "long_pause_min_ms",
            Change::Integer(capped_integer(fields.long_pause_min_ms)),
        ),
    );
    list.push(
        edit(
            "timing",
            "long_pause_max_ms",
            Change::Integer(capped_integer(fields.long_pause_max_ms)),
        ),
    );
    list.push(edit("timing", "scroll_amount", Change::Integer(fields.scroll_amount as i64)));
    list.push(
        edit(
            "timing",
            "cooperative_idle_ms",
            Change::Integer(capped_integer(fields.cooperative_idle_ms)),
        ),
    );
    list.push(edit("regions", "shop_grid", Change::Rect(fields.shop_grid)));
    list.push(edit("zones", "refresh", Change::Rect(fields.z_refresh)));
    list.push(edit("zones", "refresh_confirm", Change::Rect(fields.z_refresh_confirm)));
    list.push(edit("zones", "buy_confirm", Change::Rect(fields.z_buy_confirm)));
    list.push(edit("zones", "buy_column", Change::Rect(fields.z_buy_column)));
    list.push(
        edit(
            "notifications",
            "discord_webhook_url",
            Change::Text(fields.discord_webhook_url.as_str().to_owned()),
        ),
    );
    assert(pair_said(fields.base_resolution@) == pair_said(
        seq![fields.base_resolution@[0], fields.base_resolution@[1]],
    ));
    assert(list@.map_values(|edit: Edit| edit@) =~= entries(*fields));
    list
}

/// Whether the same is written at every header and at the end.
spec fn is_framed_alike(a: DocumentMut, b: DocumentMut) -> bool {
    headings(a) == headings(b) && ending(a) == ending(b)
}

/// Whether the same is written around all that two documents hold.
spec fn is_noted_alike(a: DocumentMut, b: DocumentMut) -> bool {
    &&& remarks(a) == remarks(b)
    &&& trails(a) == trails(b)
    &&& is_framed_alike(a, b)
}

/// Whether the same is written around all that two documents hold, but for one
/// key.
spec fn is_noted_alike_but(a: DocumentMut, b: DocumentMut, at: At) -> bool {
    &&& remarks(a).remove(at) == remarks(b).remove(at)
    &&& trails(a).remove(at) == trails(b).remove(at)
    &&& is_framed_alike(a, b)
}

/// Puts a value under a key of a section: where a value stands already it is
/// replaced, and what is written around it stays.
fn set_scalar(doc: &mut DocumentMut, section: &str, key: &str, value: Value)
    requires
        is_native(*old(doc)),
        is_bare(value),
        sections(*old(doc)).contains_key(section@) && sections(*old(doc))[section@],
    ensures
        is_native(*final(doc)),
        sections(*final(doc)) == sections(*old(doc)),
        settings(*final(doc)) == settings(*old(doc)).insert(
            (section@, key@),
            settings_file::said(value),
        ),
        settings(*old(doc)).contains_key((section@, key@)) ==> is_noted_alike(
            *final(doc),
            *old(doc),
        ),
        is_noted_alike_but(*final(doc), *old(doc), (section@, key@)),
        rest(*final(doc)) == without(rest(*old(doc)), (section@, key@)),
        headed(*final(doc)) == headed(*old(doc)),
{
    let ghost at = (section@, key@);
    let ghost before = *doc;
    if settings_file::holds_value(doc, section, key) {
        settings_file::replace(doc, section, key, value);
    } else {
        settings_file::insert(doc, section, key, value);
        assert(remarks(*doc).remove(at) =~= remarks(before).remove(at));
        assert(trails(*doc).remove(at) =~= trails(before).remove(at));
    }
}

/// `n`, or the nearer bound where it is outside of them.
fn clamped(low: i64, n: i64, high: i64) -> (m: i64)
    ensures
        m == between(low as int, n as int, high as int),
{
    if n < low {
        low
    } else if n > high {
        high
    } else {
        n
    }
}

/// Appends so many thousandths to the list that a key holds.
fn push_thousandths(doc: &mut DocumentMut, section: &str, key: &str, n: i64)
    requires
        is_native(*old(doc)),
        settings(*old(doc)).contains_key((section@, key@)),
        settings(*old(doc))[(section@, key@)] is List,
    ensures
        is_native(*final(doc)),
        sections(*final(doc)) == sections(*old(doc)),
        settings(*final(doc)) == settings(*old(doc)).insert(
            (section@, key@),
            Setting::List(settings(*old(doc))[(section@, key@)]->List_0.push(milli_said(n as int))),
        ),
        is_noted_alike(*final(doc), *old(doc)),
        rest(*final(doc)) == rest(*old(doc)),
        headed(*final(doc)) == headed(*old(doc)),
{
    let number = Real::thousandths(n);
    proof {
        use_type_invariant(&number);
    }
    settings_file::push_to_list(doc, section, key, settings_file::number(number.text.as_str()));
}

/// Puts a rectangle under a key of a section, filling a list that stands there
/// anew and keeping what is written around it; or removes the key where there is
/// no rectangle.
fn set_region(doc: &mut DocumentMut, section: &str, key: &str, rect: Option<[i64; 4]>)
    requires
        is_native(*old(doc)),
        sections(*old(doc)).contains_key(section@) && sections(*old(doc))[section@],
    ensures
        is_native(*final(doc)),
        sections(*final(doc)) == sections(*old(doc)),
        settings(*final(doc)) == match rect {
            Some(rect) => settings(*old(doc)).insert((section@, key@), rect_said(rect@)),
            None => settings(*old(doc)).remove((section@, key@)),
        },
        rect is Some && settings(*old(doc)).contains_key((section@, key@)) ==> is_noted_alike(
            *final(doc),
            *old(doc),
        ),
        is_noted_alike_but(*final(doc), *old(doc), (section@, key@)),
        rest(*final(doc)) == without(rest(*old(doc)), (section@, key@)),
        headed(*final(doc)) == headed(*old(doc)),
{
    let ghost at = (section@, key@);
    let ghost before = settings(*doc);
    let ghost noted = *doc;
    match rect {
        Some(rect) => {
            let w: i64 = clamped(1, rect[2], 1000);
            let h: i64 = clamped(1, rect[3], 1000);
            let x: i64 = clamped(0, rect[0], 1000 - w);
            let y: i64 = clamped(0, rect[1], 1000 - h);
            if settings_file::holds_list(doc, section, key) {
                settings_file::clear_list(doc, section, key);
            } else {
                set_scalar(doc, section, key, settings_file::empty_list());
            }
            assert(settings(*doc) == before.insert(at, Setting::List(Seq::empty())));
            push_thousandths(doc, section, key, x);
            push_thousandths(doc, section, key, y);
            push_thousandths(doc, section, key, w);
            push_thousandths(doc, section, key, h);
            settings_file::tidy_list(doc, section, key);
            proof {
                let list = Seq::<Setting>::empty().push(milli_said(x as int)).push(
                    milli_said(y as int),
                ).push(milli_said(w as int)).push(milli_said(h as int));
                assert(list =~= rect_said(rect@)->List_0);
                assert(settings(*doc) =~= before.insert(at, rect_said(rect@)));
            }
        },
        None => {
            settings_file::remove(doc, section, key);
            assert(remarks(*doc).remove(at) =~= remarks(noted).remove(at));
            assert(trails(*doc).remove(at) =~= trails(noted).remove(at));
        },
    }
}

/// Puts a pair of integers under a key of a section.
fn set_pair(doc: &mut DocumentMut, section: &str, key: &str, w: u32, h: u32)
    requires
        is_native(*old(doc)),
        sections(*old(doc)).contains_key(section@) && sections(*old(doc))[section@],
    ensures
        is_native(*final(doc)),
        sections(*final(doc)) == sections(*old(doc)),
        settings(*final(doc)) == settings(*old(doc)).insert(
            (section@, key@),
            pair_said(seq![w, h]),
        ),
        settings(*old(doc)).contains_key((section@, key@)) ==> is_noted_alike(
            *final(doc),
            *old(doc),
        ),
        is_noted_alike_but(*final(doc), *old(doc), (section@, key@)),
        rest(*final(doc)) == without(rest(*old(doc)), (section@, key@)),
        headed(*final(doc)) == headed(*old(doc)),
{
    let ghost at = (section@, key@);
    let ghost before = settings(*doc);
    set_scalar(doc, section, key, settings_file::empty_list());
    settings_file::push_to_list(doc, section, key, settings_file::integer(w as i64));
    settings_file::push_to_list(doc, section, key, settings_file::integer(h as i64));
    settings_file::tidy_list(doc, section, key);
    proof {
        let list = Seq::<Setting>::empty().push(Setting::Integer(w as int)).push(
            Setting::Integer(h as int),
        );
        assert(list =~= pair_said(seq![w, h])->List_0);
        assert(settings(*doc) =~= before.insert(at, pair_said(seq![w, h])));
    }
}

/// Whether saving a key loses what is written around it: where it goes, and
/// where it holds no value yet.
pub open spec fn loses_remark(before: Map<At, Setting>, saved: Entry) -> bool {
    saved.change is None || !before.contains_key(saved.at)
}

/// Whether the same is written in front of every key, or behind its value, but
/// for those that lose it by being saved.
pub open spec fn keeps_remarks(
    before: Map<At, Setting>,
    saved: Seq<Entry>,
    noted: Map<At, Seq<char>>,
    notes: Map<At, Seq<char>>,
) -> bool {
    forall|at: At|
        (forall|i: int|
            0 <= i < saved.len() && (#[trigger] saved[i]).at == at ==> !loses_remark(
                before,
                saved[i],
            )) ==> #[trigger] same_remark(notes, noted, at)
}

/// Whether a document, once keys were saved in it, has the same written around
/// all that it held: in front of every key and behind its value, but for the
/// keys that are new or that go; at every header; and at the end.
pub open spec fn keeps_what_is_written(
    before: Contents,
    saved: Seq<Entry>,
    after: Contents,
) -> bool {
    &&& keeps_remarks(before.settings, saved, before.remarks, after.remarks)
    &&& keeps_remarks(before.settings, saved, before.trails, after.trails)
    &&& before.headings.submap_of(after.headings)
    &&& after.ending == before.ending
}

/// Whether the same is written in front of a key, or behind its value.
pub open spec fn same_remark(a: Map<At, Seq<char>>, b: Map<At, Seq<char>>, at: At) -> bool {
    a.contains_key(at) == b.contains_key(at) && (a.contains_key(at) ==> a[at] == b[at])
}

proof fn remarks_agree_elsewhere(a: Map<At, Seq<char>>, b: Map<At, Seq<char>>, at: At, other: At)
    requires
        a.remove(at) == b.remove(at),
        other != at,
    ensures
        same_remark(a, b, other),
{
    assert(a.remove(at).contains_key(other) == a.contains_key(other));
    assert(b.remove(at).contains_key(other) == b.contains_key(other));
    if a.contains_key(other) {
        assert(a.remove(at)[other] == a[other]);
        assert(b.remove(at)[other] == b[other]);
    }
}

/// Whether a document is what another one is once a key was saved.
#[verifier::opaque]
spec fn is_after_save(a: DocumentMut, saved: Entry, b: DocumentMut) -> bool {
    let held = (sections(a), settings(a));
    &&& is_native(b)
    &&& (sections(b), settings(b)) == after(held, saved)
    &&& forall|at: At| at != saved.at ==> #[trigger] same_remark(remarks(b), remarks(a), at)
    &&& forall|at: At| at != saved.at ==> #[trigger] same_remark(trails(b), trails(a), at)
    &&& !loses_remark(settings(a), saved) ==> is_noted_alike(b, a)
    &&& is_framed_alike(b, a)
    &&& rest(b) == if is_open(held, saved.at.0) {
        without(rest(a), saved.at)
    } else {
        rest(a)
    }
    &&& headed(b) == if sections(a).contains_key(saved.at.0) {
        headed(a)
    } else {
        headed(a).insert(saved.at.0)
    }
}

/// Saves one key.
fn save(doc: &mut DocumentMut, edit: &Edit)
    requires
        is_native(*old(doc)),
    ensures
        is_native(*final(doc)),
        is_after_save(*old(doc), edit@, *final(doc)),
{
    proof {
        reveal(is_after_save);
    }
    let ghost noted = *doc;
    if !settings_file::open_section(doc, edit.section) {
        return ;
    }
    match &edit.change {
        Change::Integer(n) => set_scalar(
            doc,
            edit.section,
            edit.key,
            settings_file::integer(*n),
        ),
        Change::Flag(yes) => set_scalar(doc, edit.section, edit.key, settings_file::flag(*yes)),
        Change::Text(s) => set_scalar(
            doc,
            edit.section,
            edit.key,
            settings_file::text(s.as_str()),
        ),
        Change::Real(number) => {
            proof {
                use_type_invariant(number);
            }
            set_scalar(
                doc,
                edit.section,
                edit.key,
                settings_file::number(number.text.as_str()),
            )
        },
        Change::Pair(w, h) => set_pair(doc, edit.section, edit.key, *w, *h),
        Change::Rect(rect) => set_region(doc, edit.section, edit.key, *rect),
    }
    proof {
        assert forall|at: At| at != edit@.at implies #[trigger] same_remark(
            remarks(*doc),
            remarks(noted),
            at,
        ) by {
            remarks_agree_elsewhere(remarks(*doc), remarks(noted), edit@.at, at);
        }
        assert forall|at: At| at != edit@.at implies #[trigger] same_remark(
            trails(*doc),
            trails(noted),
            at,
        ) by {
            remarks_agree_elsewhere(trails(*doc), trails(noted), edit@.at, at);
        }
    }
}

/// Which of the saved keys a key is, told by its length and a few letters.
spec fn place(key: Seq<char>) -> int {
    if key.len() == 7 {
        34
    } else if key.len() == 9 {
        if key[0] == 't' {
            12
        } else {
            33
        }
    } else if key.len() == 10 {
        37
    } else if key.len() == 11 {
        36
    } else if key.len() == 12 {
        7
    } else if key.len() == 13 {
        if key[0] == 'm' {
            1
        } else {
            31
        }
    } else if key.len() == 14 {
        if key[12] == 'i' {
            18
        } else {
            19
        }
    } else if key.len() == 15 {
        if key[0] == 'b' {
            0
        } else if key[0] == 's' {
            11
        } else {
            35
        }
    } else if key.len() == 16 {
        if key[11] == 'i' {
            20
        } else if key[11] == 'a' {
            21
        } else {
            25
        }
    } else if key.len() == 17 {
        if key[12] == 'e' {
            6
        } else if key[12] == 's' {
            15
        } else if key[12] == 'i' {
            29
        } else {
            30
        }
    } else if key.len() == 18 {
        if key[0] == 's' {
            2
        } else if key[0] == 'p' {
            13
        } else if key[0] == 'c' {
            if key[13] == 'i' {
                16
            } else {
                17
            }
        } else if key[0] == 'i' {
            if key[13] == 'i' {
                26
            } else {
                27
            }
        } else {
            28
        }
    } else if key.len() == 19 {
        if key[1] == 't' {
            4
        } else if key[1] == 'l' {
            14
        } else if key[1] == 'o' {
            32
        } else {
            38
        }
    } else if key.len() == 20 {
        if key[15] == 's' {
            5
        } else if key[15] == 'i' {
            22
        } else {
            23
        }
    } else if key.len() == 23 {
        if key[0] == 's' {
            3
        } else if key[0] == 'b' {
            9
        } else {
            24
        }
    } else if key.len() == 25 {
        8
    } else if key.len() == 28 {
        10
    } else {
        -1
    }
}

/// No two saved keys are the same.
proof fn the_keys_are_told_apart(fields: AutoSavedFields)
    ensures
        entries(fields).len() == 39,
        forall|i: int| 0 <= i < 39 ==> place((#[trigger] entries(fields)[i]).at.1) == i,
{
    reveal_strlit("base_resolution");
    assert(place("base_resolution"@) == 0);
    reveal_strlit("max_refreshes");
    assert(place("max_refreshes"@) == 1);
    reveal_strlit("stop_after_minutes");
    assert(place("stop_after_minutes"@) == 2);
    reveal_strlit("stop_when_mystic_medals");
    assert(place("stop_when_mystic_medals"@) == 3);
    reveal_strlit("stop_when_covenants");
    assert(place("stop_when_covenants"@) == 4);
    reveal_strlit("stop_when_gold_spent");
    assert(place("stop_when_gold_spent"@) == 5);
    reveal_strlit("buy_mystic_medals");
    assert(place("buy_mystic_medals"@) == 6);
    reveal_strlit("buy_covenant");
    assert(place("buy_covenant"@) == 7);
    reveal_strlit("buy_button_y_offset_ratio");
    assert(place("buy_button_y_offset_ratio"@) == 8);
    reveal_strlit("buy_button_band_h_ratio");
    assert(place("buy_button_band_h_ratio"@) == 9);
    reveal_strlit("buy_calibration_line_y_ratio");
    assert(place("buy_calibration_line_y_ratio"@) == 10);
    reveal_strlit("sleep_when_done");
    assert(place("sleep_when_done"@) == 11);
    reveal_strlit("threshold");
    assert(place("threshold"@) == 12);
    reveal_strlit("preview_refresh_ms");
    assert(place("preview_refresh_ms"@) == 13);
    reveal_strlit("click_delay_mean_ms");
    assert(place("click_delay_mean_ms"@) == 14);
    reveal_strlit("click_delay_sigma");
    assert(place("click_delay_sigma"@) == 15);
    reveal_strlit("click_delay_min_ms");
    assert(place("click_delay_min_ms"@) == 16);
    reveal_strlit("click_delay_max_ms");
    assert(place("click_delay_max_ms"@) == 17);
    reveal_strlit("move_steps_min");
    assert(place("move_steps_min"@) == 18);
    reveal_strlit("move_steps_max");
    assert(place("move_steps_max"@) == 19);
    reveal_strlit("move_step_min_ms");
    assert(place("move_step_min_ms"@) == 20);
    reveal_strlit("move_step_max_ms");
    assert(place("move_step_max_ms"@) == 21);
    reveal_strlit("move_to_click_min_ms");
    assert(place("move_to_click_min_ms"@) == 22);
    reveal_strlit("move_to_click_max_ms");
    assert(place("move_to_click_max_ms"@) == 23);
    reveal_strlit("move_curve_amplitude_px");
    assert(place("move_curve_amplitude_px"@) == 24);
    reveal_strlit("jitter_radius_px");
    assert(place("jitter_radius_px"@) == 25);
    reveal_strlit("inter_round_min_ms");
    assert(place("inter_round_min_ms"@) == 26);
    reveal_strlit("inter_round_max_ms");
    assert(place("inter_round_max_ms"@) == 27);
    reveal_strlit("long_pause_every_n");
    assert(place("long_pause_every_n"@) == 28);
    reveal_strlit("long_pause_min_ms");
    assert(place("long_pause_min_ms"@) == 29);
    reveal_strlit("long_pause_max_ms");
    assert(place("long_pause_max_ms"@) == 30);
    reveal_strlit("scroll_amount");
    assert(place("scroll_amount"@) == 31);
    reveal_strlit("cooperative_idle_ms");
    assert(place("cooperative_idle_ms"@) == 32);
    reveal_strlit("shop_grid");
    assert(place("shop_grid"@) == 33);
    reveal_strlit("refresh");
    assert(place("refresh"@) == 34);
    reveal_strlit("refresh_confirm");
    assert(place("refresh_confirm"@) == 35);
    reveal_strlit("buy_confirm");
    assert(place("buy_confirm"@) == 36);
    reveal_strlit("buy_column");
    assert(place("buy_column"@) == 37);
    reveal_strlit("discord_webhook_url");
    assert(place("discord_webhook_url"@) == 38);
}

/// What is not among the first keys saved is as it was.
proof fn saving_keys_touches_no_other(held: Held, saved: Seq<Entry>, at: At)
    requires
        forall|i: int| 0 <= i < saved.len() ==> (#[trigger] saved[i]).at != at,
    ensures
        after_all(held, saved).1.contains_key(at) == held.1.contains_key(at),
        held.1.contains_key(at) ==> after_all(held, saved).1[at] == held.1[at],
    decreases saved.len(),
{
    if saved.len() > 0 {
        assert(saved.last() == saved[saved.len() - 1]);
        assert forall|i: int| 0 <= i < saved.drop_last().len() implies (
        #[trigger] saved.drop_last()[i]).at != at by {
            assert(saved.drop_last()[i] == saved[i]);
        }
        saving_keys_touches_no_other(held, saved.drop_last(), at);
    }
}

/// Saving opens and closes no section that was there.
proof fn saving_keeps_sections_open(held: Held, saved: Seq<Entry>, section: Seq<char>)
    ensures
        is_open(after_all(held, saved), section) == is_open(held, section),
    decreases saved.len(),
{
    if saved.len() > 0 {
        saving_keeps_sections_open(held, saved.drop_last(), section);
    }
}

/// The last save of a key is what it says.
proof fn a_save_lasts(held: Held, saved: Seq<Entry>, i: int)
    requires
        0 <= i < saved.len(),
        forall|j: int| i < j < saved.len() ==> (#[trigger] saved[j]).at != saved[i].at,
        is_open(held, saved[i].at.0),
    ensures
        ({
            let settings = after_all(held, saved).1;
            match saved[i].change {
                Some(says) => settings.contains_key(saved[i].at) && settings[saved[i].at] == says,
                None => !settings.contains_key(saved[i].at),
            }
        }),
    decreases saved.len(),
{
    saving_keeps_sections_open(held, saved.drop_last(), saved[i].at.0);
    if i < saved.len() - 1 {
        assert(saved.drop_last()[i] == saved[i]);
        assert forall|j: int| i < j < saved.drop_last().len() implies (
        #[trigger] saved.drop_last()[j]).at != saved.drop_last()[i].at by {
            assert(saved.drop_last()[j] == saved[j]);
        }
        a_save_lasts(held, saved.drop_last(), i);
        assert(saved[saved.len() - 1].at != saved[i].at);
    }
}

/// Every saved field survives: after a save, each field's key says what the
/// field holds, and the key of a rectangle that is not set is gone; unless the
/// name of the key's section is taken by something that is no section.
pub proof fn every_saved_field_survives(held: Held, fields: AutoSavedFields, i: int)
    requires
        0 <= i < entries(fields).len(),
        is_open(held, entries(fields)[i].at.0),
    ensures
        ({
            let saved = entries(fields)[i];
            let settings = after_all(held, entries(fields)).1;
            match saved.change {
                Some(says) => settings.contains_key(saved.at) && settings[saved.at] == says,
                None => !settings.contains_key(saved.at),
            }
        }),
{
    let saved = entries(fields);
    the_keys_are_told_apart(fields);
    assert forall|j: int| i < j < saved.len() implies (#[trigger] saved[j]).at != saved[i].at by {
        assert(place(saved[j].at.1) == j);
        assert(place(saved[i].at.1) == i);
    }
    a_save_lasts(held, saved, i);
}

/// What else a document holds after keys were saved: all but what stood under a
/// saved key.
pub open spec fn rest_after(
    held: Held,
    rest: Map<Seq<Step>, Thing>,
    saved: Seq<Entry>,
) -> Map<Seq<Step>, Thing> {
    Map::new(
        |path: Seq<Step>|
            rest.contains_key(path) && forall|i: int|
                0 <= i < saved.len() && is_under(path, (#[trigger] saved[i]).at) ==> !is_open(
                    held,
                    saved[i].at.0,
                ),
        |path| rest[path],
    )
}

/// Whether a document holds what another one held, with the fields saved: every
/// saved key says what it is to say, and all else is as it was. The sections of
/// the saved keys are there; any other section is there where it was, unless it
/// had no header and holds nothing any more.
pub open spec fn is_saved(before: Contents, fields: AutoSavedFields, after: Contents) -> bool {
    let held = (before.sections, before.settings);
    let saved = after_all(held, entries(fields));
    &&& after.settings == saved.1
    &&& after.rest == rest_after(held, before.rest, entries(fields))
    &&& after.sections.submap_of(saved.0)
    &&& forall|name: Seq<char>| #[trigger]
        after.sections.contains_key(name) <==> saved.0.contains_key(name) && (!saved.0[name]
            || !before.sections.contains_key(name) || before.headed.contains(name) || is_filled(
            after.settings,
            after.rest,
            name,
        ))
    &&& keeps_what_is_written(before, entries(fields), after)
}

/// Saving opens no section but those of the saved keys, and closes none.
proof fn saving_opens_only_its_sections(held: Held, saved: Seq<Entry>, name: Seq<char>)
    ensures
        held.0.contains_key(name) ==> after_all(held, saved).0.contains_key(name) && after_all(
            held,
            saved,
        ).0[name] == held.0[name],
        after_all(held, saved).0.contains_key(name) && !held.0.contains_key(name) ==> after_all(
            held,
            saved,
        ).0[name],
        (forall|i: int| 0 <= i < saved.len() ==> (#[trigger] saved[i]).at.0 != name) ==> after_all(
            held,
            saved,
        ).0.contains_key(name) == held.0.contains_key(name),
    decreases saved.len(),
{
    if saved.len() > 0 {
        let less = saved.drop_last();
        saving_opens_only_its_sections(held, less, name);
        saving_opens_only_its_sections(held, less, saved.last().at.0);
        if forall|i: int| 0 <= i < saved.len() ==> (#[trigger] saved[i]).at.0 != name {
            assert forall|i: int| 0 <= i < less.len() implies (#[trigger] less[i]).at.0 != name by {
                assert(less[i] == saved[i]);
            }
            assert(saved[saved.len() - 1].at.0 != name);
        }
    }
}

/// A save changes no key but the saved ones. Whatever else a file holds, it holds
/// afterwards: every other key of a section; every value outside of a section,
/// every table within one and every row of tables, with all that they hold and
/// the comments on it, but for what stands under a saved key; and every section.
/// No section appears but those of the saved keys.
pub proof fn unknown_keys_survive(
    before: Contents,
    fields: AutoSavedFields,
    after: Contents,
    at: At,
    path: Seq<Step>,
    name: Seq<char>,
)
    requires
        is_written_whole(before),
        is_saved(before, fields, after),
    ensures
        (forall|i: int| 0 <= i < entries(fields).len() ==> (#[trigger] entries(fields)[i]).at
            != at) ==> after.settings.contains_key(at) == before.settings.contains_key(at) && (
        before.settings.contains_key(at) ==> after.settings[at] == before.settings[at]),
        (forall|i: int|
            0 <= i < entries(fields).len() ==> !is_under(path, (#[trigger] entries(fields)[i]).at))
            ==> after.rest.contains_key(path) == before.rest.contains_key(path) && (
        before.rest.contains_key(path) ==> after.rest[path] == before.rest[path]),
        after.rest.contains_key(path) ==> before.rest.contains_key(path),
        (forall|i: int| 0 <= i < entries(fields).len() ==> (#[trigger] entries(fields)[i]).at.0
            != name) ==> after.sections.contains_key(name) == before.sections.contains_key(name)
            && (before.sections.contains_key(name) ==> after.sections[name]
            == before.sections[name]),
{
    let held = (before.sections, before.settings);
    let saved = entries(fields);
    if forall|i: int| 0 <= i < saved.len() ==> (#[trigger] saved[i]).at != at {
        saving_keys_touches_no_other(held, saved, at);
    }
    if forall|i: int| 0 <= i < saved.len() ==> (#[trigger] saved[i]).at.0 != name {
        saving_opens_only_its_sections(held, saved, name);
        if before.sections.contains_key(name) {
            assert(is_written(before, name));
            if is_filled(before.settings, before.rest, name) {
                an_untouched_section_stays_filled(before, fields, after, name);
            }
            assert(after.sections.contains_key(name));
            assert(after.sections[name] == after_all(held, saved).0[name]);
        }
    }
}

/// What stands in a section that has no saved key stands there afterwards.
proof fn an_untouched_section_stays_filled(
    before: Contents,
    fields: AutoSavedFields,
    after: Contents,
    name: Seq<char>,
)
    requires
        is_saved(before, fields, after),
        is_filled(before.settings, before.rest, name),
        forall|i: int| 0 <= i < entries(fields).len() ==> (#[trigger] entries(fields)[i]).at.0
            != name,
    ensures
        is_filled(after.settings, after.rest, name),
{
    let held = (before.sections, before.settings);
    let saved = entries(fields);
    if exists|key: Seq<char>| #[trigger] before.settings.contains_key((name, key)) {
        let key = choose|key: Seq<char>| #[trigger] before.settings.contains_key((name, key));
        assert forall|i: int| 0 <= i < saved.len() implies (#[trigger] saved[i]).at != (
            name,
            key,
        ) by {
            assert(saved[i].at.0 != name);
        }
        saving_keys_touches_no_other(held, saved, (name, key));
        assert(after.settings.contains_key((name, key)));
    } else {
        let path = choose|path: Seq<Step>| #[trigger]
            before.rest.contains_key(path) && path.len() > 1 && path[0] == Step::Key(name);
        assert forall|i: int|
            0 <= i < saved.len() && is_under(path, (#[trigger] saved[i]).at) implies !is_open(
            held,
            saved[i].at.0,
        ) by {
            assert(saved[i].at.0 != name);
        }
        assert(after.rest.contains_key(path));
    }
}

/// Two saves of the same fields are as good as one.
pub proof fn saving_twice_is_saving_once(
    held: Held,
    fields: AutoSavedFields,
    at: At,
)
    ensures
        ({
            let once = after_all(held, entries(fields));
            let twice = after_all(once, entries(fields));
            twice.1.contains_key(at) == once.1.contains_key(at) && (once.1.contains_key(at)
                ==> twice.1[at] == once.1[at])
        }),
{
    let saved = entries(fields);
    let once = after_all(held, saved);
    if exists|i: int| 0 <= i < saved.len() && (#[trigger] saved[i]).at == at {
        let i = choose|i: int| 0 <= i < saved.len() && (#[trigger] saved[i]).at == at;
        saving_keeps_sections_open(held, saved, at.0);
        if is_open(held, at.0) {
            every_saved_field_survives(held, fields, i);
            every_saved_field_survives(once, fields, i);
        } else {
            a_closed_section_stays_as_it_is(once, saved, at);
        }
    } else {
        saving_keys_touches_no_other(once, saved, at);
    }
}

/// Nothing is saved under a name that is taken by something that is no section.
pub proof fn a_closed_section_stays_as_it_is(held: Held, saved: Seq<Entry>, at: At)
    requires
        !is_open(held, at.0),
    ensures
        after_all(held, saved).1.contains_key(at) == held.1.contains_key(at),
        held.1.contains_key(at) ==> after_all(held, saved).1[at] == held.1[at],
    decreases saved.len(),
{
    if saved.len() > 0 {
        a_closed_section_stays_as_it_is(held, saved.drop_last(), at);
        saving_keeps_sections_open(held, saved.drop_last(), at.0);
    }
}

/// Comments survive a save: what was written in front of a key and behind its
/// value is still there, unless the save takes the key out; and so is what was
/// written at the header of a section and at the end of the file.
pub proof fn comments_survive(
    before: Contents,
    fields: AutoSavedFields,
    after: Contents,
    at: At,
    section: Seq<char>,
)
    requires
        keeps_what_is_written(before, entries(fields), after),
        before.settings.contains_key(at),
        forall|i: int|
            0 <= i < entries(fields).len() && (#[trigger] entries(fields)[i]).at == at ==> entries(
                fields,
            )[i].change is Some,
    ensures
        same_remark(after.remarks, before.remarks, at),
        same_remark(after.trails, before.trails, at),
        before.headings.contains_key(section) ==> after.headings.contains_key(section)
            && after.headings[section] == before.headings[section],
        after.ending == before.ending,
{
    assert forall|i: int|
        0 <= i < entries(fields).len() && (#[trigger] entries(fields)[i]).at
            == at implies !loses_remark(before.settings, entries(fields)[i]) by {}
    if before.headings.contains_key(section) {
        assert(before.headings.dom().contains(section));
        assert(after.headings.dom().contains(section));
        assert(before.headings[section] == after.headings[section]);
    }
}

/// What is written at a key after one more key was saved: the same as before,
/// and so the same as at first, but for the keys that lose it by being saved.
proof fn one_more_save_keeps_remarks(
    first: Map<At, Setting>,
    current: Map<At, Setting>,
    saved: Seq<Entry>,
    i: int,
    noted: Map<At, Seq<char>>,
    before: Map<At, Seq<char>>,
    notes: Map<At, Seq<char>>,
)
    requires
        0 <= i < saved.len(),
        keeps_remarks(first, saved, noted, before),
        current.contains_key(saved[i].at) == first.contains_key(saved[i].at),
        forall|at: At| at != saved[i].at ==> #[trigger] same_remark(notes, before, at),
        !loses_remark(current, saved[i]) ==> notes == before,
    ensures
        keeps_remarks(first, saved, noted, notes),
{
    assert forall|at: At|
        (forall|k: int|
            0 <= k < saved.len() && (#[trigger] saved[k]).at == at ==> !loses_remark(
                first,
                saved[k],
            )) implies #[trigger] same_remark(notes, noted, at) by {
        assert(same_remark(before, noted, at));
        if at == saved[i].at {
            assert(!loses_remark(first, saved[i]));
        } else {
            assert(same_remark(notes, before, at));
        }
    }
}

/// What else a document holds after one more key was saved.
proof fn one_more_save_keeps_the_rest(
    held: Held,
    rest: Map<Seq<Step>, Thing>,
    saved: Seq<Entry>,
    i: int,
)
    requires
        0 <= i < saved.len(),
    ensures
        rest_after(held, rest, saved.take(i + 1)) == if is_open(held, saved[i].at.0) {
            without(rest_after(held, rest, saved.take(i)), saved[i].at)
        } else {
            rest_after(held, rest, saved.take(i))
        },
{
    let done = saved.take(i);
    let next = saved.take(i + 1);
    let one = rest_after(held, rest, next);
    let other = if is_open(held, saved[i].at.0) {
        without(rest_after(held, rest, done), saved[i].at)
    } else {
        rest_after(held, rest, done)
    };
    assert forall|path: Seq<Step>| one.contains_key(path) == other.contains_key(path) by {
        if one.contains_key(path) {
            assert forall|k: int|
                0 <= k < done.len() && is_under(path, (#[trigger] done[k]).at) implies !is_open(
                held,
                done[k].at.0,
            ) by {
                assert(next[k] == done[k]);
            }
            assert(next[i] == saved[i]);
        }
        if other.contains_key(path) {
            assert forall|k: int|
                0 <= k < next.len() && is_under(path, (#[trigger] next[k]).at) implies !is_open(
                held,
                next[k].at.0,
            ) by {
                if k < i {
                    assert(next[k] == done[k]);
                }
            }
        }
    }
    assert(one =~= other);
}

/// Whether a document is what another one is once keys were saved. What is
/// written around it stays, but for the keys that are new or that go.
#[verifier::opaque]
spec fn is_after_saves(
    first: DocumentMut,
    saved: Seq<Entry>,
    done: Seq<Entry>,
    doc: DocumentMut,
) -> bool {
    let held = (sections(first), settings(first));
    &&& (sections(doc), settings(doc)) == after_all(held, done)
    &&& keeps_remarks(settings(first), saved, remarks(first), remarks(doc))
    &&& keeps_remarks(settings(first), saved, trails(first), trails(doc))
    &&& is_framed_alike(doc, first)
    &&& rest(doc) == rest_after(held, rest(first), done)
    &&& forall|name: Seq<char>| #[trigger]
        headed(doc).contains(name) <==> headed(first).contains(name) || (sections(
            doc,
        ).contains_key(name) && !held.0.contains_key(name))
}

/// The sections with a header after one more key was saved.
proof fn one_more_save_keeps_headers(
    first: DocumentMut,
    saved: Seq<Entry>,
    i: int,
    before: DocumentMut,
    doc: DocumentMut,
    name: Seq<char>,
)
    requires
        0 <= i < saved.len(),
        is_after_saves(first, saved, saved.take(i), before),
        is_after_save(before, saved[i], doc),
    ensures
        headed(doc).contains(name) <==> headed(first).contains(name) || (sections(
            doc,
        ).contains_key(name) && !sections(first).contains_key(name)),
{
    reveal(is_after_saves);
    reveal(is_after_save);
    let held = (sections(first), settings(first));
    saving_opens_only_its_sections(held, saved.take(i), name);
    saving_opens_only_its_sections(held, saved.take(i), saved[i].at.0);
    assert(headed(before).contains(name) <==> headed(first).contains(name) || (sections(
        before,
    ).contains_key(name) && !held.0.contains_key(name)));
}

/// One more key is saved.
proof fn one_more_save(
    first: DocumentMut,
    saved: Seq<Entry>,
    i: int,
    before: DocumentMut,
    doc: DocumentMut,
)
    requires
        0 <= i < saved.len(),
        forall|k: int| 0 <= k < i ==> (#[trigger] saved[k]).at != saved[i].at,
        is_after_saves(first, saved, saved.take(i), before),
        is_after_save(before, saved[i], doc),
    ensures
        is_after_saves(first, saved, saved.take(i + 1), doc),
{
    let held = (sections(first), settings(first));
    let done = saved.take(i);
    let next = saved.take(i + 1);
    let at = saved[i].at;
    assert(next.drop_last() =~= done);
    assert(next.last() == saved[i]);
    assert forall|k: int| 0 <= k < done.len() implies (#[trigger] done[k]).at != at by {
        assert(done[k] == saved[k]);
    }
    saving_keys_touches_no_other(held, done, at);
    saving_keeps_sections_open(held, done, at.0);
    one_more_save_keeps_the_rest(held, rest(first), saved, i);
    assert forall|name: Seq<char>| #[trigger]
        headed(doc).contains(name) <==> headed(first).contains(name) || (sections(
            doc,
        ).contains_key(name) && !held.0.contains_key(name)) by {
        one_more_save_keeps_headers(first, saved, i, before, doc, name);
    }
    reveal(is_after_saves);
    reveal(is_after_save);
    one_more_save_keeps_remarks(
        settings(first),
        settings(before),
        saved,
        i,
        remarks(first),
        remarks(before),
        remarks(doc),
    );
    one_more_save_keeps_remarks(
        settings(first),
        settings(before),
        saved,
        i,
        trails(first),
        trails(before),
        trails(doc),
    );
}

/// Saves the fields into a document.
fn save_all(doc: &mut DocumentMut, fields: &AutoSavedFields)
    requires
        is_native(*old(doc)),
    ensures
        is_native(*final(doc)),
        is_after_saves(*old(doc), entries(*fields), entries(*fields), *final(doc)),
{
    let list = edits(fields);
    let ghost saved = entries(*fields);
    let ghost first = *doc;
    assert(list@.map_values(|edit: Edit| edit@).len() == saved.len());
    proof {
        the_keys_are_told_apart(*fields);
        assert(is_after_saves(first, saved, saved.take(0), first)) by {
            reveal(is_after_saves);
            assert(saved.take(0) =~= Seq::<Entry>::empty());
            let held = (sections(first), settings(first));
            assert(rest(first) =~= rest_after(held, rest(first), saved.take(0)));
        }
    }
    for i in 0..list.len()
        invariant
            list@.map_values(|edit: Edit| edit@) == saved,
            saved.len() == 39,
            list@.len() == saved.len(),
            is_native(*doc),
            forall|k: int| 0 <= k < 39 ==> place((#[trigger] saved[k]).at.1) == k,
            is_after_saves(first, saved, saved.take(i as int), *doc),
    {
        let ghost before = *doc;
        save(doc, &list[i]);
        proof {
            assert(list@.map_values(|edit: Edit| edit@)[i as int] == list@[i as int]@);
            assert forall|k: int| 0 <= k < i implies (#[trigger] saved[k]).at
                != saved[i as int].at by {
                assert(place(saved[k].at.1) == k);
                assert(place(saved[i as int].at.1) == i);
            }
            one_more_save(first, saved, i as int, before, *doc);
        }
    }
    assert(saved.take(saved.len() as int) =~= saved);
}

/// The text of the settings file with the fields saved into it: a file that is
/// no document is refused with the reason, and any other reads afterwards as
/// what it was with every field saved. What was written in front of its keys,
/// behind their values, at its headers and at its end is still there, but for
/// what was written at keys that go. How a list is laid out that is filled anew,
/// and the spaces around an equals sign, are not told.
pub fn write_all_back(raw: &str, fields: &AutoSavedFields) -> (text: Result<String, String>)
    ensures
        match (text, read(raw@)) {
            (Ok(text), Ok(before)) => is_written_whole(before) && (read(text@) matches Ok(after)
                && is_saved(before, *fields, after)),
            (Err(error), Err(why)) => error@ == why,
            _ => false,
        },
{
    match settings_file::parse(raw) {
        Ok(parsed) => {
            let mut doc = parsed;
            let ghost before = contents(doc);
            save_all(&mut doc, fields);
            let text = settings_file::text_of(&doc);
            proof {
                reveal(is_after_saves);
                let held = (before.sections, before.settings);
                let saved = after_all(held, entries(*fields));
                let after = read(text@)->Ok_0;
                assert forall|name: Seq<char>| #[trigger]
                    after.sections.contains_key(name) <==> saved.0.contains_key(name) && (
                    !saved.0[name] || !before.sections.contains_key(name)
                        || before.headed.contains(name) || is_filled(
                        after.settings,
                        after.rest,
                        name,
                    )) by {
                    assert(after.sections.contains_key(name) <==> is_written(contents(doc), name));
                    assert(headed(doc).contains(name) <==> before.headed.contains(name) || (
                    saved.0.contains_key(name) && !before.sections.contains_key(name)));
                }
            }
            Ok(text)
        },
        Err(error) => Err(error),
    }
}

} // verus!

//! Numbers as they are typed: whole numbers, and decimals that are read as
//! doubles, multiplied and rounded to a whole number.

use crate::doubles::{
    self, a_whole_product_is_exact, the_large_stays_large, the_small_vanishes, two_to, two_to_adds,
    two_to_is_positive, FULL,
};
use crate::text::{self, decimal, digit};
use vstd::arithmetic::div_mod::{lemma_fundamental_div_mod, lemma_fundamental_div_mod_converse};
use vstd::prelude::*;

verus! {

/// A decimal digit.
pub open spec fn is_digit(c: char) -> bool {
    '0' <= c && c <= '9'
}

/// What a digit stands for.
pub open spec fn digit_value(c: char) -> nat {
    if is_digit(c) {
        (c as u32 - '0' as u32) as nat
    } else {
        0
    }
}

/// Every character is a digit.
pub open spec fn all_digits(s: Seq<char>) -> bool {
    forall|i: int| 0 <= i < s.len() ==> is_digit(#[trigger] s[i])
}

/// The digit at place `i`, and zero past the end.
pub open spec fn digit_at(digits: Seq<char>, i: int) -> nat {
    if 0 <= i < digits.len() {
        digit_value(digits[i])
    } else {
        0
    }
}

/// What the digits before `point` stand for, with zeros past the end: the whole
/// part of the number whose decimal point stands there.
pub open spec fn whole_part(digits: Seq<char>, point: int) -> nat
    decreases point,
{
    if point <= 0 {
        0
    } else {
        whole_part(digits, point - 1) * 10 + digit_at(digits, point - 1)
    }
}

/// Ten to the `n`.
pub open spec fn ten_to(n: nat) -> nat
    decreases n,
{
    if n == 0 {
        1
    } else {
        10 * ten_to((n - 1) as nat)
    }
}

/// What a run of digits stands for.
pub open spec fn value_of(digits: Seq<char>) -> nat {
    whole_part(digits, digits.len() as int)
}

/// `s` without a leading plus sign.
pub open spec fn without_plus(s: Seq<char>) -> Seq<char> {
    if s.len() > 0 && s[0] == '+' {
        s.skip(1)
    } else {
        s
    }
}

/// The whole number that `s` spells: digits, at least one, with a plus sign
/// before them or not. `None` where it spells none, or one above `max`.
pub open spec fn whole(s: Seq<char>, max: nat) -> Option<nat> {
    let digits = without_plus(s);
    if digits.len() == 0 || !all_digits(digits) || value_of(digits) > max {
        None
    } else {
        Some(value_of(digits))
    }
}

/// Whether `c` is a digit.
pub fn digit_of(c: char) -> (d: Option<u64>)
    ensures
        d is Some <==> is_digit(c),
        d matches Some(d) ==> d == digit_value(c) && d < 10,
{
    if '0' <= c && c <= '9' {
        Some((c as u32 - '0' as u32) as u64)
    } else {
        None
    }
}

/// A number never shrinks as its point moves right.
pub proof fn whole_part_grows(digits: Seq<char>, from: int, to: int)
    requires
        from <= to,
    ensures
        whole_part(digits, from) <= whole_part(digits, to),
    decreases to - from,
{
    if from < to {
        whole_part_grows(digits, from, to - 1);
    }
}

/// The whole number that `s` spells, up to `max`.
pub fn parse_whole(s: &Vec<char>, max: u64) -> (n: Option<u64>)
    ensures
        match n {
            Some(n) => whole(s@, max as nat) == Some(n as nat),
            None => whole(s@, max as nat) is None,
        },
{
    let start: usize = if s.len() > 0 && s[0] == '+' {
        1
    } else {
        0
    };
    let ghost digits = without_plus(s@);
    assert(digits =~= s@.skip(start as int));
    if start == s.len() {
        return None;
    }
    let mut n: u64 = 0;
    for i in start..s.len()
        invariant
            start <= s@.len(),
            digits == s@.skip(start as int),
            digits == without_plus(s@),
            n == whole_part(digits, i - start),
            n <= max,
            forall|j: int| 0 <= j < i - start ==> is_digit(#[trigger] digits[j]),
    {
        let ghost here = i - start;
        assert(digits[here] == s@[i as int]);
        match digit_of(s[i]) {
            Some(d) => {
                let next: u128 = n as u128 * 10 + d as u128;
                assert(next == whole_part(digits, here + 1));
                if next > max as u128 {
                    proof {
                        whole_part_grows(digits, here + 1, digits.len() as int);
                    }
                    return None;
                }
                n = next as u64;
            },
            None => {
                assert(!is_digit(digits[here]));
                return None;
            },
        }
    }
    Some(n)
}

/// Where `c` first stands in `s`; its length where it stands nowhere.
pub open spec fn first_of(s: Seq<char>, c: char) -> int
    decreases s.len(),
{
    if s.len() == 0 || s[0] == c {
        0
    } else {
        1 + first_of(s.skip(1), c)
    }
}

/// `first_of` is where the character first stands.
pub proof fn first_of_is_first(s: Seq<char>, c: char, at: int)
    requires
        0 <= at <= s.len(),
        at < s.len() ==> s[at] == c,
        forall|j: int| 0 <= j < at ==> s[j] != c,
    ensures
        first_of(s, c) == at,
    decreases s.len(),
{
    if at > 0 {
        assert forall|j: int| 0 <= j < at - 1 implies s.skip(1)[j] != c by {
            assert(s.skip(1)[j] == s[j + 1]);
        }
        first_of_is_first(s.skip(1), c, at - 1);
    }
}

/// Where `c` first stands in `s`; its length where it stands nowhere.
pub fn position(s: &Vec<char>, c: char) -> (at: usize)
    ensures
        at == first_of(s@, c),
        at <= s@.len(),
        at < s@.len() ==> s@[at as int] == c,
{
    for i in 0..s.len()
        invariant
            forall|j: int| 0 <= j < i ==> s@[j] != c,
    {
        if s[i] == c {
            proof {
                first_of_is_first(s@, c, i as int);
            }
            return i;
        }
    }
    proof {
        first_of_is_first(s@, c, s@.len() as int);
    }
    s.len()
}

/// An exponent counts no further than this: no text is long enough to tell a
/// larger one from it.
pub const FAR: u128 = 0x10_0000_0000_0000_0000_0000_0000;

/// A decimal number: its sign, its digits, and where among them its point
/// stands, before the first or past the last included.
#[verifier::ext_equal]
pub struct Spelled {
    pub negative: bool,
    pub digits: Seq<char>,
    pub point: int,
}

/// `s` without a leading sign.
pub open spec fn unsigned(s: Seq<char>) -> Seq<char> {
    if s.len() > 0 && (s[0] == '+' || s[0] == '-') {
        s.skip(1)
    } else {
        s
    }
}

/// The power of ten that an exponent spells.
pub open spec fn exponent(s: Seq<char>) -> Option<int> {
    let digits = unsigned(s);
    if digits.len() == 0 || !all_digits(digits) {
        None
    } else {
        let size = if value_of(digits) < FAR {
            value_of(digits) as int
        } else {
            FAR as int
        };
        Some(
            if s[0] == '-' {
                -size
            } else {
                size
            },
        )
    }
}

/// The digits of a mantissa, its point taken out.
pub open spec fn mantissa_digits(s: Seq<char>) -> Seq<char> {
    let dot = first_of(s, '.');
    if dot < s.len() {
        s.take(dot) + s.skip(dot + 1)
    } else {
        s
    }
}

/// The number that an unsigned mantissa with `power` behind it spells.
pub open spec fn with_power(negative: bool, mantissa: Seq<char>, power: Option<int>) -> Option<
    Spelled,
> {
    let digits = mantissa_digits(mantissa);
    if digits.len() == 0 || !all_digits(digits) || power is None {
        None
    } else {
        Some(Spelled { negative, digits, point: first_of(mantissa, '.') + power->0 })
    }
}

/// Where the exponent of an unsigned decimal begins; its length where it has
/// none.
pub open spec fn exponent_mark(s: Seq<char>) -> int {
    if first_of(s, 'e') < first_of(s, 'E') {
        first_of(s, 'e')
    } else {
        first_of(s, 'E')
    }
}

/// The decimal number that `s` spells: an optional sign, digits with an
/// optional point among them, and an optional exponent.
pub open spec fn spelled(s: Seq<char>) -> Option<Spelled> {
    let negative = s.len() > 0 && s[0] == '-';
    let body = unsigned(s);
    let mark = exponent_mark(body);
    with_power(
        negative,
        body.take(mark),
        if mark < body.len() {
            exponent(body.skip(mark + 1))
        } else {
            Some(0)
        },
    )
}

/// A decimal number as it was read.
pub struct Decimal {
    negative: bool,
    digits: Vec<char>,
    point: i128,
}

impl View for Decimal {
    type V = Spelled;

    closed spec fn view(&self) -> Spelled {
        Spelled { negative: self.negative, digits: self.digits@, point: self.point as int }
    }
}

fn skip_sign(s: &Vec<char>) -> (body: Vec<char>)
    ensures
        body@ == unsigned(s@),
{
    if s.len() > 0 && (s[0] == '+' || s[0] == '-') {
        let body = text::slice_of(s, 1, s.len());
        assert(body@ =~= s@.skip(1));
        body
    } else {
        let body = text::slice_of(s, 0, s.len());
        assert(body@ =~= s@);
        body
    }
}

fn parse_exponent(s: &Vec<char>) -> (power: Option<i128>)
    ensures
        match power {
            Some(power) => exponent(s@) == Some(power as int) && -FAR <= power <= FAR,
            None => exponent(s@) is None,
        },
{
    let digits = skip_sign(s);
    if digits.len() == 0 {
        return None;
    }
    let mut size: u128 = 0;
    for i in 0..digits.len()
        invariant
            digits@ == unsigned(s@),
            forall|j: int| 0 <= j < i ==> is_digit(#[trigger] digits@[j]),
            size == if whole_part(digits@, i as int) < FAR {
                whole_part(digits@, i as int) as int
            } else {
                FAR as int
            },
    {
        match digit_of(digits[i]) {
            Some(d) => {
                let next: u128 = size * 10 + d as u128;
                size =
                if next < FAR {
                    next
                } else {
                    FAR
                };
            },
            None => {
                return None;
            },
        }
    }
    if s[0] == '-' {
        Some(-(size as i128))
    } else {
        Some(size as i128)
    }
}

fn take_point_out(mantissa: &Vec<char>) -> (digits: Vec<char>)
    ensures
        digits@ == mantissa_digits(mantissa@),
{
    let dot = position(mantissa, '.');
    if dot < mantissa.len() {
        let mut digits = text::slice_of(mantissa, 0, dot);
        let mut rest = text::slice_of(mantissa, dot + 1, mantissa.len());
        digits.append(&mut rest);
        assert(digits@ =~= mantissa@.take(dot as int) + mantissa@.skip(dot + 1));
        digits
    } else {
        let digits = text::slice_of(mantissa, 0, mantissa.len());
        assert(digits@ =~= mantissa@);
        digits
    }
}

/// The decimal number that `s` spells.
pub fn parse_decimal(s: &Vec<char>) -> (number: Option<Decimal>)
    ensures
        match number {
            Some(number) => spelled(s@) == Some(number@),
            None => spelled(s@) is None,
        },
{
    let negative = s.len() > 0 && s[0] == '-';
    let body = skip_sign(s);
    let small = position(&body, 'e');
    let large = position(&body, 'E');
    let mark: usize = if small < large {
        small
    } else {
        large
    };
    let mantissa = text::slice_of(&body, 0, mark);
    assert(mantissa@ =~= body@.take(mark as int));
    let power: i128 = if mark < body.len() {
        let tail = text::slice_of(&body, mark + 1, body.len());
        assert(tail@ =~= body@.skip(mark + 1));
        match parse_exponent(&tail) {
            Some(power) => power,
            None => {
                return None;
            },
        }
    } else {
        0
    };
    let dot = position(&mantissa, '.');
    let digits = take_point_out(&mantissa);
    if digits.len() == 0 {
        return None;
    }
    for i in 0..digits.len()
        invariant
            spelled(s@) == with_power(negative, mantissa@, Some(power as int)),
            digits@ == mantissa_digits(mantissa@),
            forall|j: int| 0 <= j < i ==> is_digit(#[trigger] digits@[j]),
    {
        if digit_of(digits[i]).is_none() {
            return None;
        }
    }
    Some(Decimal { negative, digits, point: dot as i128 + power })
}

/// Past its last digit, a number that is zero stays zero.
proof fn nothing_stays_nothing(digits: Seq<char>, from: int, to: int)
    requires
        digits.len() <= from <= to,
        whole_part(digits, from) == 0,
    ensures
        whole_part(digits, to) == 0,
    decreases to - from,
{
    if from < to {
        nothing_stays_nothing(digits, from, to - 1);
    }
}

impl Spelled {
    /// All the digits of the number, and zeros up to its point.
    pub open spec fn num(self) -> nat {
        whole_part(
            self.digits,
            if self.point > self.digits.len() {
                self.point
            } else {
                self.digits.len() as int
            },
        )
    }

    /// What the digits are to be divided by.
    pub open spec fn den(self) -> nat {
        ten_to(
            if self.point < self.digits.len() {
                (self.digits.len() - self.point) as nat
            } else {
                0
            },
        )
    }

    /// The double nearest to the number without its sign.
    pub open spec fn double(self) -> nat {
        doubles::double(self.num(), self.den())
    }

    /// The number without its sign, read as a double, times a whole number,
    /// rounded to a whole number.
    pub open spec fn scaled(self, factor: nat) -> nat {
        doubles::rounded(doubles::times(self.double(), factor))
    }
}

pub proof fn ten_to_is_positive(n: nat)
    ensures
        ten_to(n) > 0,
    decreases n,
{
    if n > 0 {
        ten_to_is_positive((n - 1) as nat);
    }
}

proof fn ten_to_adds(a: nat, b: nat)
    ensures
        ten_to(a + b) == ten_to(a) * ten_to(b),
    decreases a,
{
    if a > 0 {
        ten_to_adds((a - 1) as nat, b);
        let less = ten_to((a - 1) as nat);
        assert((10 * less) * ten_to(b) == 10 * (less * ten_to(b))) by (nonlinear_arith);
    } else {
        assert(1 * ten_to(b) == ten_to(b));
    }
}

pub proof fn ten_to_grows(a: nat, b: nat)
    requires
        a <= b,
    ensures
        ten_to(a) <= ten_to(b),
    decreases b - a,
{
    if a < b {
        ten_to_grows(a, (b - 1) as nat);
        ten_to_is_positive((b - 1) as nat);
    }
}

/// Eight is less than ten, and so are their powers.
proof fn eights_are_fewer(n: nat)
    ensures
        two_to(3 * n) <= ten_to(n),
    decreases n,
{
    if n > 0 {
        eights_are_fewer((n - 1) as nat);
        reveal_with_fuel(two_to, 4);
        assert(two_to(3 * n) == 8 * two_to((3 * n - 3) as nat));
    }
}

/// So many digits stand for less than that power of ten.
proof fn digits_are_bounded(digits: Seq<char>, point: int)
    requires
        point >= 0,
    ensures
        whole_part(digits, point) < ten_to(point as nat),
    decreases point,
{
    if point > 0 {
        digits_are_bounded(digits, point - 1);
    }
}

/// What the digits from place `from` on stand for.
pub open spec fn tail_value(places: Seq<u8>, from: int) -> nat
    decreases places.len() - from,
{
    if from < 0 || from >= places.len() {
        0
    } else {
        places[from] as nat * ten_to((places.len() - 1 - from) as nat) + tail_value(
            places,
            from + 1,
        )
    }
}

/// What stands before a tail is not part of it.
proof fn a_tail_is_its_own(a: Seq<u8>, b: Seq<u8>, from: int)
    requires
        a.len() == b.len(),
        forall|i: int| from <= i < a.len() ==> a[i] == b[i],
    ensures
        tail_value(a, from) == tail_value(b, from),
    decreases a.len() - from,
{
    if 0 <= from < a.len() {
        a_tail_is_its_own(a, b, from + 1);
    }
}

/// A tail of digits stands for less than a power of ten.
proof fn a_tail_is_bounded(places: Seq<u8>, from: int)
    requires
        0 <= from <= places.len(),
        forall|i: int| from <= i < places.len() ==> places[i] < 10,
    ensures
        tail_value(places, from) < ten_to((places.len() - from) as nat),
    decreases places.len() - from,
{
    if from < places.len() {
        a_tail_is_bounded(places, from + 1);
        let less = ten_to((places.len() - from - 1) as nat);
        assert(places[from] * less <= 9 * less) by (nonlinear_arith)
            requires
                places[from] <= 9,
        ;
    }
}

/// Doubles the digits from place `from` on, and gives what is carried out of
/// them.
fn double_tail(places: &mut Vec<u8>, from: usize) -> (carry: bool)
    requires
        from <= old(places)@.len(),
        forall|i: int| from <= i < old(places)@.len() ==> old(places)@[i] < 10,
    ensures
        final(places)@.len() == old(places)@.len(),
        forall|i: int| from <= i < final(places)@.len() ==> final(places)@[i] < 10,
        2 * tail_value(old(places)@, from as int) == (if carry {
            ten_to((old(places)@.len() - from) as nat)
        } else {
            0
        }) + tail_value(final(places)@, from as int),
{
    let ghost before = places@;
    let n = places.len();
    let mut at: usize = n;
    let mut carry: u8 = 0;
    assert(carry as nat * ten_to(0) == 0);
    while at > from
        invariant
            from <= at <= n,
            n == before.len(),
            places@.len() == n,
            carry <= 1,
            forall|i: int| from <= i < n ==> before[i] < 10,
            forall|i: int| from <= i < at ==> places@[i] == before[i],
            forall|i: int| at <= i < n ==> places@[i] < 10,
            2 * tail_value(before, at as int) == carry as nat * ten_to((n - at) as nat)
                + tail_value(places@, at as int),
        decreases at,
    {
        let ghost held = places@;
        assert(places@[at - 1] == before[at - 1]);
        let doubled: u8 = 2 * places[at - 1] + carry;
        let over: u8 = if doubled >= 10 {
            1
        } else {
            0
        };
        let left: u8 = doubled - 10 * over;
        places[at - 1] = left;
        proof {
            a_tail_is_its_own(held, places@, at as int);
            let unit = ten_to((n - at) as nat);
            let d = before[at - 1];
            assert(2 * (d * unit) + carry * unit == over * (10 * unit) + left * unit)
                by (nonlinear_arith)
                requires
                    2 * d + carry == 10 * over + left,
            ;
            assert(ten_to((n - (at - 1)) as nat) == 10 * unit);
            assert(tail_value(before, at - 1) == d as nat * unit + tail_value(before, at as int));
            assert(tail_value(places@, at - 1) == left as nat * unit + tail_value(
                places@,
                at as int,
            ));
        }
        carry = over;
        at = at - 1;
    }
    proof {
        let whole = ten_to((n - from) as nat);
        assert(carry as nat * whole == if carry == 1 {
            whole
        } else {
            0
        });
    }
    carry == 1
}

/// Whether `places` are the digits of a number, behind so many zeros.
spec fn is_laid_out(places: Seq<u8>, digits: Seq<char>, zeros: int) -> bool {
    &&& zeros >= 0
    &&& places.len() == zeros + digits.len()
    &&& forall|i: int| 0 <= i < zeros ==> places[i] == 0
    &&& forall|i: int|
        zeros <= i < places.len() ==> places[i] < 10 && places[i] == digit_at(digits, i - zeros)
}

/// A number is its whole part and its tail.
proof fn a_number_is_whole_and_tail(
    places: Seq<u8>,
    digits: Seq<char>,
    zeros: int,
    point: int,
)
    requires
        is_laid_out(places, digits, zeros),
        0 <= point <= digits.len(),
    ensures
        whole_part(digits, digits.len() as int) == whole_part(digits, point) * ten_to(
            (digits.len() - point) as nat,
        ) + tail_value(places, zeros + point),
    decreases digits.len() - point,
{
    if point < digits.len() {
        a_number_is_whole_and_tail(places, digits, zeros, point + 1);
        let w = whole_part(digits, point);
        let d = digit_at(digits, point);
        let less = ten_to((digits.len() - point - 1) as nat);
        assert((w * 10 + d) * less == w * (10 * less) + d * less) by (nonlinear_arith);
        assert(places[zeros + point] as nat == d);
    } else {
        assert(whole_part(digits, point) * 1 == whole_part(digits, point));
    }
}

/// Zeros in front change nothing.
proof fn zeros_in_front_change_nothing(places: Seq<u8>, zeros: int, from: int)
    requires
        0 <= from <= zeros <= places.len(),
        forall|i: int| 0 <= i < zeros ==> places[i] == 0,
    ensures
        tail_value(places, from) == tail_value(places, zeros),
    decreases zeros - from,
{
    if from < zeros {
        zeros_in_front_change_nothing(places, zeros, from + 1);
        assert(0 * ten_to((places.len() - 1 - from) as nat) == 0);
    }
}

/// A tail is no less than a tail of it.
proof fn a_tail_holds_its_tail(places: Seq<u8>, from: int, to: int)
    requires
        0 <= from <= to,
    ensures
        tail_value(places, to) <= tail_value(places, from),
    decreases to - from,
{
    if from < to {
        a_tail_holds_its_tail(places, from + 1, to);
        if from < places.len() {
            assert(places[from] * ten_to((places.len() - 1 - from) as nat) >= 0)
                by (nonlinear_arith);
        } else {
            assert(tail_value(places, from + 1) == 0);
        }
    }
}

/// Whether the digits from place `from` on are all zero.
fn is_nothing(places: &Vec<u8>, from: usize) -> (yes: bool)
    requires
        from <= places@.len(),
    ensures
        yes == (tail_value(places@, from as int) == 0),
{
    let mut at: usize = places.len();
    while at > from
        invariant
            from <= at <= places@.len(),
            tail_value(places@, at as int) == 0,
        decreases at,
    {
        proof {
            let unit = ten_to((places@.len() - at) as nat);
            ten_to_is_positive((places@.len() - at) as nat);
            a_tail_holds_its_tail(places@, from as int, at - 1);
            assert(places@[at - 1] > 0 ==> places@[at - 1] * unit > 0) by (nonlinear_arith)
                requires
                    unit > 0,
            ;
            assert(0 * unit == 0);
        }
        if places[at - 1] != 0 {
            return false;
        }
        at = at - 1;
    }
    true
}

/// Only what is no more than half of the least double reads as zero.
proof fn only_the_least_vanishes(num: nat, den: nat)
    requires
        den > 0,
    ensures
        doubles::double(num, den) == 0 <==> num * two_to(1075) <= den,
{
    let z = doubles::one();
    let exact = num * z;
    let whole = exact / den;
    let unit = two_to(doubles::excess(whole));
    two_to_is_positive(doubles::excess(whole));
    assert(two_to(1075) == 2 * z);
    assert(num * (2 * z) == 2 * exact) by (nonlinear_arith)
        requires
            exact == num * z,
    ;
    lemma_fundamental_div_mod(exact as int, den as int);
    if whole < FULL {
        assert(unit == 1);
        assert(den * unit == den);
        let n = doubles::nearest(exact, den);
        assert(n * unit == n) by (nonlinear_arith)
            requires
                unit == 1,
        ;
        if whole == 0 {
            assert(den * whole == 0) by (nonlinear_arith)
                requires
                    whole == 0,
            ;
        } else {
            assert(den * whole >= den) by (nonlinear_arith)
                requires
                    whole >= 1,
            ;
        }
    } else {
        doubles::a_full_number_is_kept(exact, den);
        assert(den * whole >= den) by (nonlinear_arith)
            requires
                whole >= 1,
        ;
    }
}

/// Each digit more makes a number ten times as large, or more than that.
proof fn digits_make_more(digits: Seq<char>, point: int, more: nat)
    ensures
        whole_part(digits, point + more) >= whole_part(digits, point) * ten_to(more),
    decreases more,
{
    if more > 0 {
        digits_make_more(digits, point, (more - 1) as nat);
        let front = whole_part(digits, point);
        let by = ten_to((more - 1) as nat);
        assert(front * (10 * by) == 10 * (front * by)) by (nonlinear_arith);
        if point + more <= 0 {
            assert(front == 0);
            assert(0 * (10 * by) == 0);
        }
    } else {
        assert(whole_part(digits, point) * 1 == whole_part(digits, point));
    }
}

/// The whole part of a number is in it.
proof fn a_whole_part_is_in_the_number(number: Spelled)
    ensures
        number.den() > 0,
        number.num() >= whole_part(number.digits, number.point) * number.den(),
{
    let len = number.digits.len() as int;
    if number.point < len {
        ten_to_is_positive((len - number.point) as nat);
        digits_make_more(number.digits, number.point, (len - number.point) as nat);
    } else {
        digits_make_more(number.digits, number.point, 0);
    }
}

/// A number that begins far behind its point is little.
proof fn far_behind_the_point_is_little(number: Spelled, far: nat)
    requires
        number.point < -far,
    ensures
        number.den() > 0,
        number.num() * two_to(3 * far) <= number.den(),
{
    let len = number.digits.len();
    digits_are_bounded(number.digits, len as int);
    let beyond = (-number.point) as nat;
    ten_to_adds(len, beyond);
    ten_to_is_positive(len + beyond);
    ten_to_grows(far, beyond);
    eights_are_fewer(far);
    let num = number.num();
    assert(num * two_to(3 * far) <= ten_to(len) * ten_to(beyond)) by (nonlinear_arith)
        requires
            num <= ten_to(len),
            two_to(3 * far) <= ten_to(beyond),
    ;
}

impl Decimal {
    #[verifier::type_invariant]
    spec fn point_is_near(self) -> bool {
        -FAR <= self.point <= 2 * FAR && all_digits(self.digits@)
    }

    /// Whether a minus sign stands before the number.
    pub fn has_minus(&self) -> (yes: bool)
        ensures
            yes == self@.negative,
    {
        self.negative
    }

    /// The whole part of the number, where it is below `cap`.
    fn whole_below(&self, cap: u64) -> (n: Option<u64>)
        requires
            cap > 0,
        ensures
            match n {
                Some(n) => n == whole_part(self@.digits, self@.point) && n < cap,
                None => whole_part(self@.digits, self@.point) >= cap,
            },
    {
        let point: i128 = self.point;
        let ghost digits = self@.digits;
        let mut n: u64 = 0;
        let mut i: i128 = 0;
        while i < point
            invariant
                digits == self.digits@,
                digits == self@.digits,
                point == self@.point,
                0 <= i,
                n < cap,
                i <= point || i == 0,
                n == whole_part(digits, i as int),
            decreases point - i,
        {
            if i >= self.digits.len() as i128 && n == 0 {
                proof {
                    nothing_stays_nothing(digits, i as int, point as int);
                }
                return Some(0);
            }
            let d: u64 = if i < self.digits.len() as i128 {
                match digit_of(self.digits[i as usize]) {
                    Some(d) => d,
                    None => 0,
                }
            } else {
                0
            };
            assert(d == digit_at(digits, i as int));
            let next: u128 = n as u128 * 10 + d as u128;
            assert(next == whole_part(digits, i + 1));
            if next >= cap as u128 {
                proof {
                    whole_part_grows(digits, i + 1, point as int);
                }
                return None;
            }
            n = next as u64;
            i = i + 1;
        }
        assert(whole_part(digits, 0) == 0);
        Some(n)
    }

    /// The digits of the number, with the zeros that its point needs in front,
    /// and where those behind the point begin.
    fn laid_out(&self) -> (places: (Vec<u8>, usize))
        requires
            self@.point >= -400,
        ensures
            places.1 <= places.0@.len(),
            forall|i: int| 0 <= i < places.0@.len() ==> places.0@[i] < 10,
            self@.den() == ten_to((places.0@.len() - places.1) as nat),
            self@.num() == whole_part(self@.digits, self@.point) * self@.den() + tail_value(
                places.0@,
                places.1 as int,
            ),
    {
        proof {
            use_type_invariant(self);
        }
        let mut places: Vec<u8> = Vec::new();
        let zeros: usize = if self.point < 0 {
            (-self.point) as usize
        } else {
            0
        };
        for i in 0..zeros
            invariant
                places@.len() == i,
                forall|j: int| 0 <= j < i ==> places@[j] == 0,
        {
            places.push(0);
        }
        for i in 0..self.digits.len()
            invariant
                places@.len() == zeros + i,
                all_digits(self.digits@),
                forall|j: int| 0 <= j < zeros ==> places@[j] == 0,
                forall|j: int|
                    zeros <= j < zeros + i ==> places@[j] < 10 && places@[j] == digit_at(
                        self.digits@,
                        j - zeros,
                    ),
        {
            let d: u64 = match digit_of(self.digits[i]) {
                Some(d) => d,
                None => 0,
            };
            places.push(d as u8);
        }
        let ghost digits = self.digits@;
        assert(is_laid_out(places@, digits, zeros as int));
        let from: usize = if self.point < 0 {
            0
        } else if self.point < self.digits.len() as i128 {
            self.point as usize
        } else {
            self.digits.len()
        };
        proof {
            if self.point < 0 {
                a_number_is_whole_and_tail(places@, digits, zeros as int, 0);
                zeros_in_front_change_nothing(places@, zeros as int, 0);
                assert(0 * self@.den() == 0) by (nonlinear_arith);
                assert(0 * ten_to(digits.len()) == 0);
            } else if self.point <= digits.len() {
                a_number_is_whole_and_tail(places@, digits, 0, self.point as int);
            } else {
                assert(self@.den() == 1);
            }
        }
        (places, from)
    }

    /// Whether the number is too small for a double, and reads as zero.
    pub fn vanishes(&self) -> (yes: bool)
        ensures
            yes == (self@.double() == 0),
    {
        let ghost unit = self@.den();
        let ghost tail = self@.num();
        proof {
            a_whole_part_is_in_the_number(self@);
            only_the_least_vanishes(tail, unit);
            two_to_is_positive(1074);
            assert(two_to(1075) == 2 * two_to(1074));
        }
        if self.whole_below(1).is_none() {
            assert(tail * two_to(1075) > unit) by (nonlinear_arith)
                requires
                    tail >= whole_part(self@.digits, self@.point) * unit,
                    whole_part(self@.digits, self@.point) >= 1,
                    two_to(1075) >= 2,
                    unit > 0,
            ;
            return false;
        }
        if self.point < -360 {
            proof {
                far_behind_the_point_is_little(self@, 360);
                doubles::two_to_grows(1075, 1080);
                assert(tail * two_to(1075) <= tail * two_to(1080)) by (nonlinear_arith)
                    requires
                        two_to(1075) <= two_to(1080),
                ;
            }
            return true;
        }
        let (mut places, from) = self.laid_out();
        proof {
            assert(0 * unit == 0);
            assert(two_to(0) == 1);
            assert(tail * 1 == tail);
        }
        for i in 0..1074u32
            invariant
                tail == self@.num(),
                unit == self@.den(),
                unit > 0,
                self@.double() == 0 <==> tail * two_to(1075) <= unit,
                from <= places@.len(),
                unit == ten_to((places@.len() - from) as nat),
                forall|j: int| from <= j < places@.len() ==> places@[j] < 10,
                tail * two_to(i as nat) == tail_value(places@, from as int),
        {
            let ghost by = two_to(i as nat);
            let carried = double_tail(&mut places, from);
            proof {
                assert(two_to((i + 1) as nat) == 2 * by);
                assert(tail * (2 * by) == 2 * (tail * by)) by (nonlinear_arith);
            }
            if carried {
                proof {
                    let left = (1075 - i - 1) as nat;
                    let more = two_to(left);
                    two_to_adds((i + 1) as nat, left);
                    doubles::two_to_grows(1, left);
                    assert(two_to(1) == 2) by {
                        reveal_with_fuel(two_to, 2);
                    }
                    assert(tail * two_to(1075) > unit) by (nonlinear_arith)
                        requires
                            two_to(1075) == (2 * by) * more,
                            tail * (2 * by) >= unit,
                            more >= 2,
                            unit > 0,
                    ;
                }
                return false;
            }
        }
        let carried = double_tail(&mut places, from);
        proof {
            assert(tail * (2 * two_to(1074)) == 2 * (tail * two_to(1074))) by (nonlinear_arith);
            a_tail_is_bounded(places@, from as int);
        }
        !carried || is_nothing(&places, from)
    }

    /// The number without its sign, read as a double, times `factor`, rounded to
    /// a whole number; `None` where that is above `max`.
    pub fn scaled(&self, factor: u64, max: u64) -> (n: Option<u64>)
        requires
            factor == 1_000 || (factor == 1_000_000 && max <= 0xffff_ffff),
        ensures
            match n {
                Some(n) => n == self@.scaled(factor as nat) && n <= max,
                None => self@.scaled(factor as nat) > max,
            },
    {
        // So many bits behind the point, and so large a whole part, are enough.
        let (fine, cap): (u32, u64) = if max <= 0xffff_ffff {
            (80, 0x2_0000_0000)
        } else {
            (66, 0x400_0000_0000_0000)
        };
        let ghost num = self@.num();
        let ghost unit = self@.den();
        proof {
            a_whole_part_is_in_the_number(self@);
            reveal_with_fuel(two_to, 68);
            assert(two_to(10) == 1_024);
            assert(two_to(24) == 0x100_0000);
            assert(two_to(33) == 0x2_0000_0000);
            assert(two_to(42) == 0x400_0000_0000);
            assert(two_to(58) == 0x400_0000_0000_0000);
            assert(two_to(40) == 0x100_0000_0000);
            assert(two_to(66) == 0x4_0000_0000_0000_0000);
            assert(two_to(67) == 0x8_0000_0000_0000_0000);
            two_to_adds(40, 40);
        }
        let whole = match self.whole_below(cap) {
            Some(whole) => whole,
            None => {
                proof {
                    let power: nat = if max <= 0xffff_ffff {
                        33
                    } else {
                        58
                    };
                    assert(num >= unit * two_to(power)) by (nonlinear_arith)
                        requires
                            num >= whole_part(self@.digits, self@.point) * unit,
                            whole_part(self@.digits, self@.point) >= two_to(power),
                    ;
                    the_large_stays_large(num, unit, power, factor as nat);
                }
                return None;
            },
        };
        if self.point < -30 {
            proof {
                far_behind_the_point_is_little(self@, 30);
                doubles::two_to_grows(fine as nat, 90);
                let fined = num * two_to(fine as nat);
                assert(fined <= unit) by (nonlinear_arith)
                    requires
                        fined == num * two_to(fine as nat),
                        num * two_to(90) <= unit,
                        two_to(fine as nat) <= two_to(90),
                ;
                lemma_fundamental_div_mod(fined as int, unit as int);
                assert(fined / unit <= 1) by (nonlinear_arith)
                    requires
                        fined == unit * (fined / unit) + fined % unit,
                        0 <= fined % unit,
                        fined <= unit,
                        unit > 0,
                ;
                the_small_vanishes(num, unit, fine as nat, factor as nat);
            }
            return Some(0);
        }
        let (mut places, from) = self.laid_out();
        let ghost tail = tail_value(places@, from as int);
        let mut bits: u128 = 0;
        proof {
            a_tail_is_bounded(places@, from as int);
            assert(two_to(0) == 1);
            assert(tail * 1 == tail && 0 * unit == 0);
        }
        for i in 0..fine
            invariant
                fine <= 80,
                unit > 0,
                from <= places@.len(),
                unit == ten_to((places@.len() - from) as nat),
                forall|j: int| from <= j < places@.len() ==> places@[j] < 10,
                bits < two_to(i as nat),
                two_to(80) == 0x100_0000_0000 * 0x100_0000_0000,
                tail * two_to(i as nat) == bits * unit + tail_value(places@, from as int),
        {
            let ghost by = two_to(i as nat);
            let ghost left = tail_value(places@, from as int);
            let ghost came = bits;
            proof {
                doubles::two_to_grows((i + 1) as nat, 80);
            }
            let carried = double_tail(&mut places, from);
            bits = if carried {
                2 * bits + 1
            } else {
                2 * bits
            };
            proof {
                assert(two_to((i + 1) as nat) == 2 * by);
                assert(tail * (2 * by) == bits * unit + tail_value(places@, from as int))
                    by (nonlinear_arith)
                    requires
                        tail * by == came * unit + left,
                        2 * left == (if carried {
                            unit
                        } else {
                            0
                        }) + tail_value(places@, from as int),
                        bits == if carried {
                            2 * came + 1
                        } else {
                            2 * came
                        },
                ;
            }
        }
        let by: u128 = if max <= 0xffff_ffff {
            0x1_0000_0000_0000_0000_0000
        } else {
            0x4_0000_0000_0000_0000
        };
        assert(by == two_to(fine as nat));
        assert(whole * by + bits < 0x8000_0000_0000_0000_0000_0000_0000_0000);
        let fined: u128 = whole as u128 * by + bits;
        let has_rest = !is_nothing(&places, from);
        let ghost rest = tail_value(places@, from as int);
        proof {
            a_tail_is_bounded(places@, from as int);
            assert(num * by == fined * unit + rest) by (nonlinear_arith)
                requires
                    num == whole * unit + tail,
                    tail * by == bits * unit + rest,
                    fined == whole * by + bits,
            ;
            lemma_fundamental_div_mod_converse(
                (num * by) as int,
                unit as int,
                fined as int,
                rest as int,
            );
        }
        if fined < 2 * FULL {
            proof {
                the_small_vanishes(num, unit, fine as nat, factor as nat);
            }
            return Some(0);
        }
        let n = doubles::scaled_by_bits(fined, has_rest, fine, factor);
        assert(fined == (num * two_to(fine as nat)) / unit);
        if n > max as u128 {
            None
        } else {
            Some(n as u64)
        }
    }
}

/// The digits before the point say what they say, whatever follows them.
pub proof fn whole_part_reads_the_front(front: Seq<char>, back: Seq<char>, point: int)
    requires
        point <= front.len(),
    ensures
        whole_part(front + back, point) == whole_part(front, point),
    decreases point,
{
    if point > 0 {
        whole_part_reads_the_front(front, back, point - 1);
        assert((front + back)[point - 1] == front[point - 1]);
    }
}

/// A digit reads back as the number it stands for.
pub proof fn a_digit_reads_back(d: nat)
    requires
        d < 10,
    ensures
        is_digit(digit(d)),
        digit_value(digit(d)) == d,
{
}

/// A number in decimal reads back as that number, and holds nothing but digits.
pub proof fn decimal_reads_back(n: nat)
    ensures
        decimal(n).len() > 0,
        all_digits(decimal(n)),
        value_of(decimal(n)) == n,
        n < 10 ==> decimal(n).len() == 1,
    decreases n,
{
    if n < 10 {
        a_digit_reads_back(n);
        assert(whole_part(decimal(n), 0) == 0);
        assert(digit_at(decimal(n), 0) == n);
        assert(whole_part(decimal(n), 1) == n);
    } else {
        let front = decimal(n / 10);
        decimal_reads_back(n / 10);
        a_digit_reads_back(n % 10);
        assert(decimal(n) =~= front + seq![digit(n % 10)]);
        whole_part_reads_the_front(front, seq![digit(n % 10)], front.len() as int);
        assert(decimal(n)[front.len() as int] == digit(n % 10));
        assert(whole_part(decimal(n), front.len() as int) == n / 10);
        assert(digit_at(decimal(n), front.len() as int) == n % 10);
    }
}

/// A digit is none of the characters that the readers look for, and is neither
/// white space nor a capital.
pub proof fn a_digit_is_plain(c: char)
    requires
        is_digit(c),
    ensures
        !text::is_space(c),
        text::lower(c) == c,
        c != 'h' && c != 'm' && c != 'i' && c != 'n' && c != 's' && c != 'g' && c != 'G',
        c != 'e' && c != 'E' && c != '.' && c != '+' && c != '-',
        c != ',' && c != ' ' && c != '_' && c != 'K' && c != 'k' && c != 'M',
{
}

/// A run of digits is read as the number it stands for.
pub proof fn digits_are_whole(digits: Seq<char>, max: nat)
    requires
        digits.len() > 0,
        all_digits(digits),
        value_of(digits) <= max,
    ensures
        whole(digits, max) == Some(value_of(digits)),
{
    a_digit_is_plain(digits[0]);
}

/// A run of digits holds no other character.
pub proof fn digits_hold_no(digits: Seq<char>, c: char)
    requires
        all_digits(digits),
        !is_digit(c),
    ensures
        first_of(digits, c) == digits.len(),
{
    first_of_is_first(digits, c, digits.len() as int);
}

/// Digits, and digits with a point among them, are read as a decimal of those
/// digits.
pub proof fn digits_are_spelled(front: Seq<char>, back: Seq<char>)
    requires
        front.len() > 0,
        all_digits(front),
        all_digits(back),
    ensures
        spelled(front) == Some(
            (Spelled { negative: false, digits: front, point: front.len() as int }),
        ),
        spelled(front + seq!['.'] + back) == Some(
            (Spelled { negative: false, digits: front + back, point: front.len() as int }),
        ),
{
    a_digit_is_plain(front[0]);
    digits_hold_no(front, 'e');
    digits_hold_no(front, 'E');
    digits_hold_no(front, '.');
    assert(front.take(front.len() as int) =~= front);
    let s = front + seq!['.'] + back;
    assert(s[0] == front[0]);
    assert forall|i: int| 0 <= i < s.len() implies s[i] != 'e' && s[i] != 'E' by {
        if i < front.len() {
            assert(s[i] == front[i]);
            a_digit_is_plain(front[i]);
        } else if i > front.len() {
            assert(s[i] == back[i - front.len() - 1]);
            a_digit_is_plain(back[i - front.len() - 1]);
        }
    }
    first_of_is_first(s, 'e', s.len() as int);
    first_of_is_first(s, 'E', s.len() as int);
    assert(s.take(s.len() as int) =~= s);
    assert forall|i: int| 0 <= i < front.len() implies s[i] != '.' by {
        assert(s[i] == front[i]);
        a_digit_is_plain(front[i]);
    }
    first_of_is_first(s, '.', front.len() as int);
    assert(s.take(front.len() as int) =~= front);
    assert(s.skip(front.len() as int + 1) =~= back);
    assert forall|i: int| 0 <= i < (front + back).len() implies is_digit(
        #[trigger] (front + back)[i],
    ) by {
        if i < front.len() {
            assert((front + back)[i] == front[i]);
        } else {
            assert((front + back)[i] == back[i - front.len()]);
        }
    }
}

/// A whole number, and one with a single digit behind the point, times a
/// thousand or a million.
pub proof fn decimals_scale(front: nat, tenth: nat)
    requires
        tenth < 10,
    ensures
        ({
            let plain = Spelled {
                negative: false,
                digits: decimal(front),
                point: decimal(front).len() as int,
            };
            let parted = Spelled {
                negative: false,
                digits: decimal(front) + decimal(tenth),
                point: decimal(front).len() as int,
            };
            &&& plain.num() == front && plain.den() == 1
            &&& parted.num() == front * 10 + tenth && parted.den() == 10
            &&& front <= 1_000_000 ==> plain.scaled(1_000) == front * 1_000 && parted.scaled(1_000)
                == front * 1_000 + tenth * 100
            &&& front <= 1_000_000 ==> plain.scaled(1_000_000) == front * 1_000_000
                && parted.scaled(1_000_000) == front * 1_000_000 + tenth * 100_000
        }),
{
    let digits = decimal(front);
    let n = digits.len() as int;
    decimal_reads_back(front);
    decimal_reads_back(tenth);
    let more = digits + decimal(tenth);
    whole_part_reads_the_front(digits, decimal(tenth), n);
    assert(more[n] == decimal(tenth)[0]);
    assert(whole_part(decimal(tenth), 0) == 0);
    assert(digit_at(decimal(tenth), 0) == tenth) by {
        assert(whole_part(decimal(tenth), 1) == whole_part(decimal(tenth), 0) * 10 + digit_at(
            decimal(tenth),
            0,
        ));
    }
    assert(digit_at(more, n) == tenth);
    assert(whole_part(more, n + 1) == front * 10 + tenth);
    assert(ten_to(0) == 1);
    assert(ten_to(1) == 10) by {
        reveal_with_fuel(ten_to, 2);
    }
    if front <= 1_000_000 {
        let parted = front * 10 + tenth;
        a_whole_product_is_exact(front, 1, 1_000, front * 1_000);
        a_whole_product_is_exact(front, 1, 1_000_000, front * 1_000_000);
        a_whole_product_is_exact(parted, 10, 1_000, front * 1_000 + tenth * 100);
        a_whole_product_is_exact(parted, 10, 1_000_000, front * 1_000_000 + tenth * 100_000);
    }
}

/// Nothing in front of where a character first stands is that character; it stands
/// there, unless it stands nowhere.
pub proof fn first_of_stands_first(s: Seq<char>, c: char)
    ensures
        0 <= first_of(s, c) <= s.len(),
        first_of(s, c) < s.len() ==> s[first_of(s, c)] == c,
        forall|i: int| 0 <= i < first_of(s, c) ==> #[trigger] s[i] != c,
    decreases s.len(),
{
    if s.len() > 0 && s[0] != c {
        let rest = s.skip(1);
        first_of_stands_first(rest, c);
        assert forall|i: int| 0 <= i < first_of(s, c) implies #[trigger] s[i] != c by {
            if i > 0 {
                assert(rest[i - 1] == s[i]);
            }
        }
    }
}

} // verus!

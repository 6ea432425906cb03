//! Numbers of double precision, told in whole numbers. Every double is so many
//! times the least of them, and rounding to one keeps the first 53 bits.

use vstd::arithmetic::div_mod::{
    lemma_div_denominator, lemma_fundamental_div_mod, lemma_fundamental_div_mod_converse,
};
use vstd::prelude::*;

verus! {

/// A whole number with more bits than a double keeps.
pub const FULL: u128 = 0x20_0000_0000_0000;

/// Two to the `n`.
pub open spec fn two_to(n: nat) -> nat
    decreases n,
{
    if n == 0 {
        1
    } else {
        2 * two_to((n - 1) as nat)
    }
}

/// `num / den`, rounded to the nearest whole number, a half to the even one.
pub open spec fn nearest(num: nat, den: nat) -> nat {
    let whole = num / den;
    let rest = num % den;
    if 2 * rest < den || 2 * rest == den && whole % 2 == 0 {
        whole
    } else {
        whole + 1
    }
}

/// How many bits a whole number has more than a double keeps.
pub open spec fn excess(whole: nat) -> nat
    decreases whole,
{
    if whole < FULL {
        0
    } else {
        1 + excess(whole / 2)
    }
}

/// `num / den`, rounded to a whole number of no more bits than a double keeps.
pub open spec fn kept(num: nat, den: nat) -> nat {
    let unit = two_to(excess(num / den));
    nearest(num, den * unit) * unit
}

/// How many of the least doubles make one.
pub open spec fn one() -> nat {
    two_to(1074)
}

/// The double nearest to `num / den`, told in the least doubles.
pub open spec fn double(num: nat, den: nat) -> nat {
    kept(num * one(), den)
}

/// A double times a whole number, as a double.
pub open spec fn times(double: nat, factor: nat) -> nat {
    kept(double * factor, 1)
}

/// The whole number nearest to a double; a half rounds up.
pub open spec fn rounded(double: nat) -> nat {
    (2 * double + one()) / (2 * one())
}

pub proof fn two_to_adds(a: nat, b: nat)
    ensures
        two_to(a + b) == two_to(a) * two_to(b),
    decreases a,
{
    if a > 0 {
        two_to_adds((a - 1) as nat, b);
        let less = two_to((a - 1) as nat);
        assert((2 * less) * two_to(b) == 2 * (less * two_to(b))) by (nonlinear_arith);
    } else {
        assert(1 * two_to(b) == two_to(b));
    }
}

pub proof fn two_to_is_positive(n: nat)
    ensures
        two_to(n) > 0,
    decreases n,
{
    if n > 0 {
        two_to_is_positive((n - 1) as nat);
    }
}

pub proof fn two_to_grows(a: nat, b: nat)
    requires
        a <= b,
    ensures
        two_to(a) <= two_to(b),
    decreases b - a,
{
    if a < b {
        two_to_grows(a, (b - 1) as nat);
        two_to_is_positive((b - 1) as nat);
    }
}

/// What a quotient and its remainder are known by.
proof fn a_quotient_is_known(num: nat, den: nat, whole: nat, rest: nat)
    requires
        num == den * whole + rest,
        rest < den,
    ensures
        num / den == whole,
        num % den == rest,
{
    assert(whole * den == den * whole) by (nonlinear_arith);
    lemma_fundamental_div_mod_converse(num as int, den as int, whole as int, rest as int);
}

/// Rounding moves a quotient by a half at most.
pub proof fn nearest_is_near(num: nat, den: nat)
    requires
        den > 0,
    ensures
        2 * num - den <= 2 * (nearest(num, den) * den) <= 2 * num + den,
{
    let whole = num / den;
    let rest = num % den;
    assert(num == whole * den + rest && rest < den) by (nonlinear_arith)
        requires
            den > 0,
            whole == num / den,
            rest == num % den,
    ;
    assert((whole + 1) * den == whole * den + den) by (nonlinear_arith);
}

/// A quotient depends on its terms only by their ratio, and so does what it is
/// rounded to.
proof fn nearest_goes_by_the_ratio(num: nat, den: nat, by: nat)
    requires
        den > 0,
        by > 0,
    ensures
        nearest(num * by, den * by) == nearest(num, den),
        (num * by) / (den * by) == num / den,
{
    let whole = num / den;
    let rest = num % den;
    lemma_fundamental_div_mod(num as int, den as int);
    assert(num * by == (den * by) * whole + rest * by && 0 <= rest * by < den * by)
        by (nonlinear_arith)
        requires
            num == den * whole + rest,
            0 <= rest < den,
            by > 0,
    ;
    a_quotient_is_known(num * by, den * by, whole, rest * by);
    assert(2 * rest < den <==> 2 * (rest * by) < den * by) by (nonlinear_arith)
        requires
            by > 0,
    ;
    assert(2 * rest == den <==> 2 * (rest * by) == den * by) by (nonlinear_arith)
        requires
            by > 0,
    ;
}

/// The bits past those that are kept.
proof fn excess_is_exact(whole: nat)
    ensures
        whole < FULL * two_to(excess(whole)),
        whole >= FULL ==> excess(whole) > 0 && FULL * two_to(excess(whole)) <= 2 * whole,
        whole < FULL ==> excess(whole) == 0,
    decreases whole,
{
    if whole >= FULL {
        excess_is_exact(whole / 2);
        let less = two_to(excess(whole / 2));
        assert(two_to(excess(whole)) == 2 * less);
        assert(FULL * (2 * less) == 2 * (FULL * less)) by (nonlinear_arith);
        if whole / 2 < FULL {
            assert(less == 1);
        }
    } else {
        assert(two_to(0) == 1);
    }
}

/// Where all the bits that a double keeps are there, twice the number is
/// rounded to twice as much.
proof fn twice_is_kept_twice(num: nat, den: nat)
    requires
        den > 0,
        2 * (num / den) >= FULL,
    ensures
        kept(num * 2, den) == 2 * kept(num, den),
        (num * 2) / den >= 2 * (num / den),
{
    let whole = num / den;
    let rest = num % den;
    lemma_fundamental_div_mod(num as int, den as int);
    let more = if 2 * rest < den {
        2 * whole
    } else {
        2 * whole + 1
    };
    let over = (num * 2 - den * more) as nat;
    assert(num * 2 == den * more + (num * 2 - den * more) && 0 <= num * 2 - den * more < den)
        by (nonlinear_arith)
        requires
            num == den * whole + rest,
            0 <= rest < den,
            more == if 2 * rest < den {
                2 * whole
            } else {
                2 * whole + 1
            },
    ;
    a_quotient_is_known(num * 2, den, more, over);
    assert((num * 2) / den == more);
    assert(more / 2 == whole);
    let unit = two_to(excess(whole));
    two_to_is_positive(excess(whole));
    assert(excess(more) == 1 + excess(whole));
    assert(two_to(excess(more)) == 2 * unit);
    assert(den * unit > 0) by (nonlinear_arith)
        requires
            den > 0,
            unit > 0,
    ;
    nearest_goes_by_the_ratio(num, den * unit, 2);
    assert(den * (2 * unit) == (den * unit) * 2) by (nonlinear_arith);
    let n = nearest(num, den * unit);
    assert(n * (2 * unit) == 2 * (n * unit)) by (nonlinear_arith);
}

/// Where all the bits that a double keeps are there, a power of two passes
/// through rounding.
proof fn a_power_passes_through(num: nat, den: nat, power: nat)
    requires
        den > 0,
        2 * (num / den) >= FULL,
    ensures
        kept(num * two_to(power), den) == kept(num, den) * two_to(power),
        (num * two_to(power)) / den >= num / den,
    decreases power,
{
    if power == 0 {
        assert(num * 1 == num);
        assert(kept(num, den) * 1 == kept(num, den));
    } else {
        let less = two_to((power - 1) as nat);
        a_power_passes_through(num, den, (power - 1) as nat);
        twice_is_kept_twice(num * less, den);
        assert((num * less) * 2 == num * (2 * less)) by (nonlinear_arith);
        let n = kept(num, den);
        assert(2 * (n * less) == n * (2 * less)) by (nonlinear_arith);
    }
}

/// Rounding to a double moves a number by no more than one part in `FULL`, once
/// it has all the bits that a double keeps.
proof fn kept_is_near(num: nat, den: nat)
    requires
        den > 0,
        2 * num >= FULL * den,
    ensures
        FULL * num - num <= FULL * (kept(num, den) * den) <= FULL * num + num,
{
    let whole = num / den;
    let unit = two_to(excess(whole));
    two_to_is_positive(excess(whole));
    excess_is_exact(whole);
    lemma_fundamental_div_mod(num as int, den as int);
    let n = nearest(num, den * unit);
    assert(den * unit > 0) by (nonlinear_arith)
        requires
            den > 0,
            unit > 0,
    ;
    nearest_is_near(num, den * unit);
    assert((n * unit) * den == n * (den * unit)) by (nonlinear_arith);
    assert(FULL * (den * unit) <= 2 * num) by {
        if whole >= FULL {
            assert(FULL * (den * unit) <= 2 * (den * whole)) by (nonlinear_arith)
                requires
                    FULL * unit <= 2 * whole,
                    den > 0,
            ;
        } else {
            assert(unit == 1);
            assert(den * 1 == den);
        }
    }
}

/// A number with all the bits that a double keeps does not vanish.
pub proof fn a_full_number_is_kept(num: nat, den: nat)
    requires
        den > 0,
        num / den >= FULL,
    ensures
        kept(num, den) > 0,
{
    lemma_fundamental_div_mod(num as int, den as int);
    let whole = num / den;
    assert(num >= FULL * den) by (nonlinear_arith)
        requires
            num == den * whole + num % den,
            0 <= num % den,
            whole >= FULL,
    ;
    kept_is_near(num, den);
    let k = kept(num, den);
    assert(k > 0) by (nonlinear_arith)
        requires
            FULL * (k * den) >= FULL * num - num,
            num >= FULL * den,
            den > 0,
            FULL == 0x20_0000_0000_0000,
    ;
}

/// A whole number of no more bits than a double keeps stays as it is.
pub proof fn few_bits_are_kept(n: nat)
    requires
        n < FULL,
    ensures
        kept(n, 1) == n,
{
    assert(n / 1 == n);
    let unit = two_to(excess(n));
    assert(unit == 1);
    assert(1 * unit == 1);
    assert(nearest(n, 1) == n);
    assert(n * unit == n);
}

/// What is at least a power of two is rounded to no less.
proof fn a_power_bounds_below(num: nat, den: nat, power: nat)
    requires
        den > 0,
        num >= den * two_to(power),
    ensures
        kept(num, den) >= two_to(power),
{
    let whole = num / den;
    let bits = excess(whole);
    let unit = two_to(bits);
    two_to_is_positive(bits);
    two_to_is_positive(power);
    excess_is_exact(whole);
    lemma_fundamental_div_mod(num as int, den as int);
    assert(whole >= two_to(power)) by (nonlinear_arith)
        requires
            num == den * whole + num % den,
            0 <= num % den < den,
            num >= den * two_to(power),
            den > 0,
    ;
    lemma_div_denominator(num as int, den as int, unit as int);
    assert(num / (den * unit) == whole / unit);
    let n = nearest(num, den * unit);
    assert(n >= whole / unit);
    if bits <= power {
        let rest = two_to((power - bits) as nat);
        two_to_adds((power - bits) as nat, bits);
        lemma_fundamental_div_mod(whole as int, unit as int);
        assert(whole / unit >= rest) by (nonlinear_arith)
            requires
                whole == unit * (whole / unit) + whole % unit,
                0 <= whole % unit < unit,
                whole >= rest * unit,
        ;
        assert(n * unit >= rest * unit) by (nonlinear_arith)
            requires
                n >= rest,
        ;
    } else {
        two_to_grows(power, bits);
        lemma_fundamental_div_mod(whole as int, unit as int);
        assert(whole / unit >= 1) by (nonlinear_arith)
            requires
                whole == unit * (whole / unit) + whole % unit,
                0 <= whole % unit < unit,
                FULL * unit <= 2 * whole,
                unit > 0,
        ;
        assert(n * unit >= unit) by (nonlinear_arith)
            requires
                n >= 1,
        ;
    }
}

/// What is at most a power of two is rounded to no more.
proof fn a_power_bounds_above(num: nat, den: nat, power: nat)
    requires
        den > 0,
        num <= den * two_to(power),
    ensures
        kept(num, den) <= two_to(power),
{
    let whole = num / den;
    let bits = excess(whole);
    let unit = two_to(bits);
    two_to_is_positive(bits);
    excess_is_exact(whole);
    lemma_fundamental_div_mod(num as int, den as int);
    assert(whole <= two_to(power)) by (nonlinear_arith)
        requires
            num == den * whole + num % den,
            0 <= num % den < den,
            num <= den * two_to(power),
            den > 0,
    ;
    if bits > power {
        two_to_grows(power, bits);
        assert(false);
    }
    let rest = two_to((power - bits) as nat);
    two_to_adds((power - bits) as nat, bits);
    let n = nearest(num, den * unit);
    assert(den * unit > 0) by (nonlinear_arith)
        requires
            den > 0,
            unit > 0,
    ;
    assert(num <= (den * unit) * rest) by (nonlinear_arith)
        requires
            num <= den * (rest * unit),
    ;
    let part = den * unit;
    lemma_fundamental_div_mod(num as int, part as int);
    assert(num / part < rest || (num / part == rest && num % part == 0)) by (nonlinear_arith)
        requires
            num == part * (num / part) + num % part,
            0 <= num % part < part,
            num <= part * rest,
    ;
    assert(n <= rest);
    assert(n * unit <= rest * unit) by (nonlinear_arith)
        requires
            n <= rest,
    ;
}

/// The first bits of a number, as many as a double keeps, rounded by the others
/// and by whether anything follows its last.
pub open spec fn first_bits(whole: nat, has_rest: bool) -> nat {
    let unit = two_to(excess(whole));
    let front = whole / unit;
    let back = whole % unit;
    if 2 * back > unit || 2 * back == unit && (has_rest || front % 2 == 1) {
        front + 1
    } else {
        front
    }
}

/// What a quotient is rounded to is told by its whole part, and by whether it
/// has another, once that has more bits than a double keeps.
proof fn first_bits_decide(num: nat, den: nat)
    requires
        den > 0,
        num / den >= FULL,
    ensures
        kept(num, den) == first_bits(num / den, num % den > 0) * two_to(excess(num / den)),
{
    let whole = num / den;
    let rest = num % den;
    let unit = two_to(excess(whole));
    let half = two_to((excess(whole) - 1) as nat);
    excess_is_exact(whole);
    two_to_is_positive(excess(whole));
    assert(unit == 2 * half);
    let front = whole / unit;
    let back = whole % unit;
    lemma_fundamental_div_mod(num as int, den as int);
    lemma_fundamental_div_mod(whole as int, unit as int);
    let part = den * unit;
    let over = den * back + rest;
    assert(num == front * part + over && 0 <= over < part) by (nonlinear_arith)
        requires
            num == den * whole + rest,
            whole == unit * front + back,
            0 <= rest < den,
            0 <= back < unit,
            part == den * unit,
            over == den * back + rest,
    ;
    lemma_fundamental_div_mod_converse(num as int, part as int, front as int, over as int);
    if back > half {
        assert(2 * (den * back + rest) > den * unit) by (nonlinear_arith)
            requires
                back > half,
                unit == 2 * half,
                den > 0,
                rest >= 0,
        ;
    } else if back < half {
        assert(2 * (den * back + rest) < den * unit) by (nonlinear_arith)
            requires
                back + 1 <= half,
                unit == 2 * half,
                rest < den,
        ;
    } else {
        assert(2 * (den * back) == den * unit) by (nonlinear_arith)
            requires
                back == half,
                unit == 2 * half,
        ;
    }
}

/// The first bits are all that a double keeps.
proof fn first_bits_are_full(whole: nat, has_rest: bool)
    ensures
        first_bits(whole, has_rest) <= FULL,
        whole >= FULL ==> 2 * first_bits(whole, has_rest) >= FULL,
        whole < FULL ==> first_bits(whole, has_rest) == whole,
{
    let unit = two_to(excess(whole));
    two_to_is_positive(excess(whole));
    excess_is_exact(whole);
    lemma_fundamental_div_mod(whole as int, unit as int);
    let front = whole / unit;
    assert(front < FULL) by (nonlinear_arith)
        requires
            whole == unit * front + whole % unit,
            0 <= whole % unit,
            whole < FULL * unit,
    ;
    if whole >= FULL {
        let half = two_to((excess(whole) - 1) as nat);
        assert(unit == 2 * half);
        assert(FULL * unit == 2 * (FULL * half)) by (nonlinear_arith)
            requires
                unit == 2 * half,
        ;
        assert(2 * front >= FULL) by (nonlinear_arith)
            requires
                whole == unit * front + whole % unit,
                0 <= whole % unit < unit,
                FULL * unit <= 2 * whole,
                FULL % 2 == 0,
                unit > 0,
        ;
    } else {
        assert(unit == 1);
        assert(whole / 1 == whole && whole % 1 == 0);
    }
}

/// The double nearest to a quotient, and its product with a whole number, by
/// the first bits of the quotient's multiple.
proof fn a_double_by_its_bits(num: nat, den: nat, fine: nat, factor: nat)
    requires
        den > 0,
        fine <= 1074,
        factor > 0,
        (num * two_to(fine)) / den >= FULL,
    ensures
        ({
            let whole = (num * two_to(fine)) / den;
            let bits = first_bits(whole, (num * two_to(fine)) % den > 0);
            let power = (excess(whole) + 1074 - fine) as nat;
            &&& double(num, den) == bits * two_to(power)
            &&& times(double(num, den), factor) == kept(bits * factor, 1) * two_to(power)
        }),
{
    let fined = num * two_to(fine);
    let whole = fined / den;
    let bits = first_bits(whole, fined % den > 0);
    let left = (1074 - fine) as nat;
    let power = (excess(whole) + 1074 - fine) as nat;
    two_to_adds(fine, left);
    assert(num * one() == fined * two_to(left)) by (nonlinear_arith)
        requires
            one() == two_to(fine) * two_to(left),
            fined == num * two_to(fine),
    ;
    a_power_passes_through(fined, den, left);
    first_bits_decide(fined, den);
    two_to_adds(excess(whole), left);
    assert((bits * two_to(excess(whole))) * two_to(left) == bits * two_to(power))
        by (nonlinear_arith)
        requires
            two_to(power) == two_to(excess(whole)) * two_to(left),
    ;
    first_bits_are_full(whole, fined % den > 0);
    assert((bits * two_to(power)) * factor == (bits * factor) * two_to(power)) by (nonlinear_arith);
    assert(bits * factor >= bits) by (nonlinear_arith)
        requires
            factor > 0,
            bits >= 0,
    ;
    assert((bits * factor) / 1 == bits * factor);
    a_power_passes_through(bits * factor, 1, power);
}

/// What so many parts come to, rounded to a whole number, where a part is one
/// divided, or multiplied, by a power of two.
pub open spec fn rounded_parts(parts: nat, up: nat, down: nat) -> nat {
    if up >= down {
        parts * two_to((up - down) as nat)
    } else {
        let den = two_to((down - up) as nat);
        (2 * parts + den) / (2 * den)
    }
}

/// Rounding goes by the parts.
proof fn rounding_goes_by_parts(parts: nat, up: nat, down: nat)
    requires
        down <= 1074,
    ensures
        rounded(parts * two_to((up + 1074 - down) as nat)) == rounded_parts(parts, up, down),
{
    two_to_is_positive(1074);
    if up >= down {
        let more = (up - down) as nat;
        two_to_adds(more, 1074);
        let n = parts * two_to(more);
        assert(parts * (two_to(more) * one()) == n * one()) by (nonlinear_arith)
            requires
                n == parts * two_to(more),
        ;
        assert(2 * (n * one()) + one() == (2 * one()) * n + one()) by (nonlinear_arith);
        assert((2 * one()) * n == 2 * (n * one())) by (nonlinear_arith);
        a_quotient_is_known(2 * (n * one()) + one(), 2 * one(), n, one());
    } else {
        let less = (down - up) as nat;
        let left = (1074 - less) as nat;
        let den = two_to(less);
        let by = two_to(left);
        two_to_adds(less, left);
        two_to_is_positive(less);
        two_to_is_positive(left);
        assert(2 * (parts * by) + den * by == (2 * parts + den) * by) by (nonlinear_arith);
        assert(2 * (den * by) == (2 * den) * by) by (nonlinear_arith);
        nearest_goes_by_the_ratio(2 * parts + den, 2 * den, by);
    }
}

/// What is no more than a quarter rounds to nothing.
proof fn a_quarter_rounds_to_nothing(double: nat)
    requires
        double <= two_to(1072),
    ensures
        rounded(double) == 0,
{
    two_to_adds(2, 1072);
    assert(two_to(2) == 4) by {
        reveal_with_fuel(two_to, 3);
    }
    two_to_is_positive(1072);
    let z = one();
    assert((2 * z) * 0 == 0) by (nonlinear_arith);
    a_quotient_is_known(2 * double + z, 2 * z, 0, 2 * double + z);
}

/// A number that has few bits, so far behind the point, is small as a double.
proof fn few_fine_bits_are_small(num: nat, den: nat, fine: nat)
    requires
        den > 0,
        fine <= 1074,
        (num * two_to(fine)) / den < 2 * FULL,
    ensures
        double(num, den) <= two_to((54 + 1074 - fine) as nat),
{
    let fined = num * two_to(fine);
    let left = (1074 - fine) as nat;
    let most = two_to(54);
    assert(most == 2 * FULL) by {
        reveal_with_fuel(two_to, 55);
    }
    lemma_fundamental_div_mod(fined as int, den as int);
    assert(fined <= den * most) by (nonlinear_arith)
        requires
            fined == den * (fined / den) + fined % den,
            0 <= fined % den < den,
            fined / den < most,
    ;
    two_to_adds(fine, left);
    two_to_adds(54, left);
    let by = two_to(left);
    assert(num * (two_to(fine) * by) == fined * by) by (nonlinear_arith)
        requires
            fined == num * two_to(fine),
    ;
    assert(fined * by <= den * (most * by)) by (nonlinear_arith)
        requires
            fined <= den * most,
    ;
    a_power_bounds_above(num * one(), den, 54 + left);
}

/// What is below a quarter once it is multiplied vanishes.
pub proof fn the_small_vanishes(num: nat, den: nat, fine: nat, factor: nat)
    requires
        den > 0,
        56 <= fine <= 1074,
        factor <= two_to((fine - 56) as nat),
        (num * two_to(fine)) / den < 2 * FULL,
    ensures
        rounded(times(double(num, den), factor)) == 0,
{
    let d = double(num, den);
    let up = (54 + 1074 - fine) as nat;
    let down = (fine - 56) as nat;
    few_fine_bits_are_small(num, den, fine);
    two_to_adds(up, down);
    let a = two_to(up);
    let b = two_to(down);
    assert(d * factor <= a * b) by (nonlinear_arith)
        requires
            d <= a,
            factor <= b,
    ;
    assert(up + down == 1072);
    assert(1 * two_to(1072) == two_to(1072));
    a_power_bounds_above(d * factor, 1, 1072);
    a_quarter_rounds_to_nothing(times(d, factor));
}

/// What is at least a power of two stays large.
pub proof fn the_large_stays_large(num: nat, den: nat, power: nat, factor: nat)
    requires
        den > 0,
        num >= den * two_to(power),
        factor >= 512,
    ensures
        rounded(times(double(num, den), factor)) >= two_to(power + 9),
{
    let d = double(num, den);
    two_to_is_positive(1074);
    two_to_adds(power, 1074);
    assert(num * one() >= den * two_to(power + 1074)) by (nonlinear_arith)
        requires
            num >= den * two_to(power),
            two_to(power + 1074) == two_to(power) * one(),
    ;
    a_power_bounds_below(num * one(), den, power + 1074);
    two_to_adds(power + 1074, 9);
    two_to_adds(power, 9);
    assert(two_to(9) == 512) by {
        reveal_with_fuel(two_to, 10);
    }
    assert(d * factor >= 1 * two_to(power + 1074 + 9)) by (nonlinear_arith)
        requires
            d >= two_to(power + 1074),
            factor >= 512,
            two_to(power + 1074 + 9) == two_to(power + 1074) * 512,
    ;
    a_power_bounds_below(d * factor, 1, power + 1074 + 9);
    let p = times(d, factor);
    let n = two_to(power + 9);
    assert(p >= n * one()) by (nonlinear_arith)
        requires
            p >= two_to(power + 1074) * 512,
            two_to(power + 1074) == two_to(power) * one(),
            n == two_to(power) * 512,
    ;
    lemma_fundamental_div_mod((2 * p + one()) as int, (2 * one()) as int);
    assert((2 * p + one()) / (2 * one()) >= n) by (nonlinear_arith)
        requires
            2 * p + one() == (2 * one()) * ((2 * p + one()) / (2 * one())) + (2 * p + one()) % (2
                * one()),
            0 <= (2 * p + one()) % (2 * one()) < 2 * one(),
            p >= n * one(),
            one() > 0,
    ;
}

/// Two to the `n`.
fn power(n: u32) -> (p: u128)
    requires
        n <= 120,
    ensures
        p == two_to(n as nat),
        p <= 0x100_0000_0000_0000_0000_0000_0000_0000,
{
    let mut p: u128 = 1;
    proof {
        assert(two_to(60) == 0x1000_0000_0000_0000) by {
            reveal_with_fuel(two_to, 61);
        }
        two_to_adds(60, 60);
    }
    for i in 0..n
        invariant
            n <= 120,
            p == two_to(i as nat),
            p * two_to((120 - i) as nat) == 0x100_0000_0000_0000_0000_0000_0000_0000,
            p <= 0x100_0000_0000_0000_0000_0000_0000_0000,
    {
        let ghost left = two_to((120 - i - 1) as nat);
        proof {
            two_to_is_positive((120 - i - 1) as nat);
            assert(two_to((120 - i) as nat) == 2 * left);
            assert((2 * p) * left == p * (2 * left)) by (nonlinear_arith);
            assert(2 * p <= (2 * p) * left) by (nonlinear_arith)
                requires
                    left >= 1,
            ;
        }
        p = 2 * p;
    }
    p
}

/// The first bits of a number, rounded, and how many bits follow them.
fn take_first_bits(whole: u128, has_rest: bool) -> (taken: (u128, u32))
    requires
        whole < 0x8000_0000_0000_0000_0000_0000_0000_0000,
    ensures
        taken.0 == first_bits(whole as nat, has_rest),
        taken.1 == excess(whole as nat),
        taken.0 <= FULL,
        taken.1 <= 75,
{
    let mut front: u128 = whole;
    let mut unit: u128 = 1;
    let mut bits: u32 = 0;
    proof {
        assert(two_to(25) == 0x200_0000 && two_to(50) == 0x4_0000_0000_0000) by {
            reveal_with_fuel(two_to, 51);
        }
        two_to_adds(50, 25);
        assert(two_to(75) == 0x8_0000_0000_0000 * 0x100_0000);
    }
    while front >= FULL
        invariant
            two_to(75) == 0x8_0000_0000_0000 * 0x100_0000,
            whole < 0x8000_0000_0000_0000_0000_0000_0000_0000,
            unit == two_to(bits as nat),
            unit > 0,
            front == whole / unit,
            excess(whole as nat) == bits + excess(front as nat),
            bits <= 75,
        decreases front,
    {
        proof {
            lemma_fundamental_div_mod(whole as int, unit as int);
            assert(unit * FULL <= whole) by (nonlinear_arith)
                requires
                    whole == unit * (whole / unit) + whole % unit,
                    0 <= whole % unit,
                    whole / unit >= FULL,
            ;
            if bits >= 75 {
                two_to_grows(75, bits as nat);
                assert(false);
            }
            lemma_div_denominator(whole as int, unit as int, 2);
        }
        front = front / 2;
        unit = unit * 2;
        bits = bits + 1;
    }
    proof {
        first_bits_are_full(whole as nat, has_rest);
    }
    let back = whole % unit;
    assert(back < unit);
    let taken = if back > unit - back || (back == unit - back && (has_rest || front % 2 == 1)) {
        front + 1
    } else {
        front
    };
    (taken, bits)
}

/// So many parts, rounded to a whole number.
fn round_parts(parts: u128, up: u32, down: u32) -> (n: u128)
    requires
        parts <= 0x1000_0000_0000_0000_0000_0000,
        up <= down + 16,
        down <= 100,
    ensures
        n == rounded_parts(parts as nat, up as nat, down as nat),
{
    if up >= down {
        let by = power(up - down);
        proof {
            two_to_grows((up - down) as nat, 16);
            assert(two_to(16) == 0x1_0000) by {
                reveal_with_fuel(two_to, 17);
            }
            assert(parts * by <= 0x1000_0000_0000_0000_0000_0000 * 0x1_0000) by (nonlinear_arith)
                requires
                    parts <= 0x1000_0000_0000_0000_0000_0000,
                    by <= 0x1_0000,
            ;
            assert(parts * by >= 0) by (nonlinear_arith)
                requires
                    parts >= 0,
                    by >= 0,
            ;
        }
        parts * by
    } else {
        let den = power(down - up);
        proof {
            two_to_is_positive((down - up) as nat);
        }
        (2 * parts + den) / (2 * den)
    }
}

/// What a whole number is rounded to is told by its first bits.
proof fn a_whole_by_its_bits(n: nat)
    ensures
        kept(n, 1) == first_bits(n, false) * two_to(excess(n)),
        kept(n, 1) <= 2 * n,
{
    assert(n / 1 == n && n % 1 == 0);
    first_bits_are_full(n, false);
    excess_is_exact(n);
    if n < FULL {
        few_bits_are_kept(n);
        assert(two_to(0) == 1);
        assert(n * 1 == n);
    } else {
        first_bits_decide(n, 1);
        let bits = first_bits(n, false);
        let unit = two_to(excess(n));
        assert(bits * unit <= FULL * unit) by (nonlinear_arith)
            requires
                bits <= FULL,
        ;
    }
}

/// What a whole number is as a double.
fn keep(n: u128) -> (k: u128)
    requires
        n < 0x800_0000_0000_0000_0000_0000,
    ensures
        k == kept(n as nat, 1),
        k <= 2 * n,
{
    let (bits, up) = take_first_bits(n, false);
    let by = power(up);
    proof {
        a_whole_by_its_bits(n as nat);
    }
    bits * by
}

/// The double nearest to a quotient, times a whole number, rounded to a whole
/// number: of the quotient multiplied by two to the `fine`, `whole` is the whole
/// part, and `has_rest` tells whether it has another.
pub fn scaled_by_bits(whole: u128, has_rest: bool, fine: u32, factor: u64) -> (n: u128)
    requires
        FULL <= whole < 0x8000_0000_0000_0000_0000_0000_0000_0000,
        60 <= fine <= 100,
        512 <= factor <= 1_000_000,
    ensures
        forall|num: nat, den: nat|
            den > 0 && whole == #[trigger] ((num * two_to(fine as nat)) / den) && has_rest == ((num
                * two_to(fine as nat)) % den > 0) ==> n == rounded(
                times(double(num, den), factor as nat),
            ),
{
    let (bits, up) = take_first_bits(whole, has_rest);
    assert(bits * factor <= FULL * 1_000_000) by (nonlinear_arith)
        requires
            bits <= FULL,
            factor <= 1_000_000,
    ;
    assert(bits * factor >= 0) by (nonlinear_arith)
        requires
            bits >= 0,
            factor >= 0,
    ;
    let parts = keep(bits * factor as u128);
    let n = round_parts(parts, up, fine);
    proof {
        assert forall|num: nat, den: nat|
            den > 0 && whole == #[trigger] ((num * two_to(fine as nat)) / den) && has_rest == ((num
                * two_to(fine as nat)) % den > 0) implies n == rounded(
            times(double(num, den), factor as nat),
        ) by {
            a_double_by_its_bits(num, den, fine as nat, factor as nat);
            rounding_goes_by_parts(parts as nat, up as nat, fine as nat);
        }
    }
    n
}

/// So many milliseconds in seconds, the quotient of two doubles, rounded to a
/// whole number.
pub open spec fn seconds(ms: nat) -> nat {
    rounded(double(kept(ms, 1), 1_000))
}

/// Seconds are fewer than milliseconds.
proof fn seconds_are_few(ms: nat)
    requires
        ms <= u64::MAX,
    ensures
        kept(ms, 1) <= 0x1_0000_0000_0000_0000,
        seconds(ms) <= 0x80_0000_0000_0000,
{
    assert(two_to(55) == 0x80_0000_0000_0000 && two_to(64) == 0x1_0000_0000_0000_0000) by {
        reveal_with_fuel(two_to, 65);
    }
    assert(1 * two_to(64) == two_to(64));
    a_power_bounds_above(ms, 1, 64);
    let x = kept(ms, 1);
    two_to_adds(55, 1074);
    two_to_is_positive(1074);
    assert(x * one() <= 1_000 * two_to(55 + 1074)) by (nonlinear_arith)
        requires
            x <= 0x1_0000_0000_0000_0000,
            two_to(55 + 1074) == 0x80_0000_0000_0000 * one(),
            one() > 0,
    ;
    a_power_bounds_above(x * one(), 1_000, 55 + 1074);
    let d = double(x, 1_000);
    lemma_fundamental_div_mod((2 * d + one()) as int, (2 * one()) as int);
    assert((2 * d + one()) / (2 * one()) <= 0x80_0000_0000_0000) by (nonlinear_arith)
        requires
            2 * d + one() == (2 * one()) * ((2 * d + one()) / (2 * one())) + (2 * d + one()) % (2
                * one()),
            0 <= (2 * d + one()) % (2 * one()),
            d <= 0x80_0000_0000_0000 * one(),
            one() > 0,
    ;
}

/// A thousandth of a double, rounded, by the first bits of it.
proof fn a_thousandth_by_its_bits(x: nat)
    requires
        8_192 <= x,
    ensures
        ({
            let whole = (x * 0x8000_0000_0000_0000) / 1_000;
            let bits = first_bits(whole, (x * 0x8000_0000_0000_0000) % 1_000 > 0);
            rounded(double(x, 1_000)) == rounded_parts(bits, excess(whole), 63)
        }),
{
    assert(two_to(63) == 0x8000_0000_0000_0000) by {
        reveal_with_fuel(two_to, 64);
    }
    let whole = (x * 0x8000_0000_0000_0000) / 1_000;
    let bits = first_bits(whole, (x * 0x8000_0000_0000_0000) % 1_000 > 0);
    a_double_by_its_bits(x, 1_000, 63, 1);
    rounding_goes_by_parts(bits, excess(whole), 63);
}

/// So many milliseconds, ten thousand at least, in seconds.
pub fn in_seconds(ms: u64) -> (s: u64)
    requires
        ms >= 10_000,
    ensures
        s == seconds(ms as nat),
{
    let x = keep(ms as u128);
    proof {
        seconds_are_few(ms as nat);
        assert(two_to(13) == 8_192) by {
            reveal_with_fuel(two_to, 14);
        }
        assert(1 * two_to(13) == 8_192);
        a_power_bounds_below(ms as nat, 1, 13);
        a_thousandth_by_its_bits(x as nat);
    }
    let fined: u128 = x * 0x8000_0000_0000_0000;
    let whole = fined / 1_000;
    let has_rest = fined % 1_000 > 0;
    let (bits, up) = take_first_bits(whole, has_rest);
    let n = round_parts(bits, up, 63);
    n as u64
}

proof fn cancelled(a: int, b: int, by: int)
    requires
        a * by <= b * by,
        by > 0,
    ensures
        a <= b,
{
    assert(a <= b) by (nonlinear_arith)
        requires
            a * by <= b * by,
            by > 0,
    ;
}

/// One is made of very many of the least doubles.
proof fn one_is_large()
    ensures
        one() >= FULL * 1_000,
{
    assert(two_to(64) == 0x1_0000_0000_0000_0000) by {
        reveal_with_fuel(two_to, 65);
    }
    two_to_adds(64, 1010);
    two_to_is_positive(1010);
    assert(two_to(64) * two_to(1010) >= two_to(64)) by (nonlinear_arith)
        requires
            two_to(1010) >= 1,
    ;
}

/// The whole number nearest to a double is off by a half at most.
proof fn rounded_is_near(double: nat)
    ensures
        2 * double - one() <= 2 * (rounded(double) * one()) <= 2 * double + one(),
{
    two_to_is_positive(1074);
    let n = rounded(double);
    lemma_fundamental_div_mod((2 * double + one()) as int, (2 * one()) as int);
    assert((2 * one()) * n == 2 * (n * one())) by (nonlinear_arith);
}

/// A product that is a whole number, and not too large, comes out as it is.
pub proof fn a_whole_product_is_exact(num: nat, den: nat, factor: nat, n: nat)
    requires
        1 <= den <= 10,
        factor > 0,
        num * factor == n * den,
        n <= 0x4_0000_0000_0000,
    ensures
        rounded(times(double(num, den), factor)) == n,
{
    let z = one();
    one_is_large();
    let d = double(num, den);
    let p = times(d, factor);
    let exact = num * z;
    rounded_is_near(p);
    if num == 0 {
        assert(n == 0) by (nonlinear_arith)
            requires
                n * den == 0 * factor,
                den >= 1,
        ;
        assert(0 * z == 0);
        assert(two_to(excess(0)) == 1);
        assert(d == 0) by {
            assert(den * 0 == 0) by (nonlinear_arith);
            a_quotient_is_known(0, den, 0, 0);
            assert(den * 1 == den);
            assert(nearest(0, den) == 0);
            assert(0 * 1 == 0);
        }
        assert(0 * factor == 0);
        few_bits_are_kept(0);
        let r = rounded(p);
        assert(r == 0) by (nonlinear_arith)
            requires
                2 * (r * z) <= z,
                z > 0,
        ;
    } else {
        assert(exact >= z) by (nonlinear_arith)
            requires
                exact == num * z,
                num >= 1,
        ;
        kept_is_near(exact, den);
        assert(d * den >= den) by (nonlinear_arith)
            requires
                FULL * (d * den) >= FULL * exact - exact,
                exact >= FULL * 1_000,
                den <= 10,
        ;
        let scaled = d * factor;
        // The double is far above the bits that a double keeps.
        assert(2 * d >= FULL) by (nonlinear_arith)
            requires
                FULL * (d * den) >= FULL * exact - exact,
                exact >= FULL * 1_000,
                1 <= den <= 10,
                FULL == 0x20_0000_0000_0000,
        ;
        assert(scaled >= d) by (nonlinear_arith)
            requires
                scaled == d * factor,
                factor >= 1,
        ;
        kept_is_near(scaled, 1);
        let whole = n * z;
        // Everything over `den`.
        assert(factor * exact == den * whole) by (nonlinear_arith)
            requires
                exact == num * z,
                whole == n * z,
                num * factor == n * den,
        ;
        let off = p - whole;
        assert(-3 * whole <= FULL * off <= 3 * whole) by (nonlinear_arith)
            requires
                FULL * scaled - scaled <= FULL * (p * 1) <= FULL * scaled + scaled,
                FULL * exact - exact <= FULL * (d * den) <= FULL * exact + exact,
                scaled == d * factor,
                factor * exact == den * whole,
                off == p - whole,
                1 <= den,
                factor >= 1,
                FULL == 0x20_0000_0000_0000,
        {
            let fd = factor * (d * den);
            assert(fd == scaled * den);
            assert(FULL * fd - FULL * (den * whole) <= den * whole) by {
                assert(factor * (FULL * (d * den)) <= factor * (FULL * exact + exact));
            }
            assert(FULL * (den * whole) - FULL * fd <= den * whole) by {
                assert(factor * (FULL * (d * den)) >= factor * (FULL * exact - exact));
            }
            assert(fd <= 2 * (den * whole));
            assert(den * (FULL * p) <= den * (FULL * scaled + scaled));
            assert(den * (FULL * p) >= den * (FULL * scaled - scaled));
            assert(den * (FULL * off) <= den * (3 * whole));
            assert(den * (FULL * off) >= den * (-3 * whole));
        }
        assert(-z < 2 * off < z) by (nonlinear_arith)
            requires
                -3 * whole <= FULL * off <= 3 * whole,
                whole == n * z,
                n <= 0x4_0000_0000_0000,
                FULL == 0x20_0000_0000_0000,
                z > 0,
        ;
        let r = rounded(p);
        assert(r == n) by (nonlinear_arith)
            requires
                2 * p - z <= 2 * (r * z) <= 2 * p + z,
                p == n * z + off,
                -z < 2 * off < z,
                z > 0,
        ;
    }
}

/// Milliseconds as a double are off by very little.
proof fn kept_whole_is_near(n: nat)
    ensures
        1_000_000 * n - n <= 1_000_000 * kept(n, 1) <= 1_000_000 * n + n,
{
    if n < FULL {
        few_bits_are_kept(n);
    } else {
        kept_is_near(n, 1);
    }
}

/// The seconds that milliseconds are shown as are off by little more than half
/// of one.
proof fn seconds_are_near(ms: nat)
    requires
        ms >= 10_000,
    ensures
        1_000_000 * ms - 4 * ms - 501_000_000 <= 1_000_000_000 * seconds(ms) <= 1_000_000 * ms + 4
            * ms + 501_000_000,
{
    let z = one();
    one_is_large();
    let x = kept(ms, 1);
    kept_whole_is_near(ms);
    let exact = x * z;
    assert(exact >= z) by (nonlinear_arith)
        requires
            exact == x * z,
            x >= 1,
    ;
    let d = double(x, 1_000);
    kept_is_near(exact, 1_000);
    assert(1_000_000 * exact - exact <= 1_000_000 * (d * 1_000) <= 1_000_000 * exact + exact);
    rounded_is_near(d);
    let s = seconds(ms);
    // 2 s z is within z of 2 d, and 1000 d within a millionth of x z.
    let high = 1_000_000 * x + x + 500_000_000;
    let low = 1_000_000 * x - x - 500_000_000;
    assert((1_000_000_000 * s) * z <= high * z) by (nonlinear_arith)
        requires
            2 * (s * z) <= 2 * d + z,
            1_000_000 * (d * 1_000) <= 1_000_000 * exact + exact,
            exact == x * z,
            high == 1_000_000 * x + x + 500_000_000,
    ;
    assert(low * z <= (1_000_000_000 * s) * z) by (nonlinear_arith)
        requires
            2 * (s * z) >= 2 * d - z,
            1_000_000 * (d * 1_000) >= 1_000_000 * exact - exact,
            exact == x * z,
            low == 1_000_000 * x - x - 500_000_000,
    ;
    cancelled((1_000_000_000 * s) as int, high as int, z as int);
    cancelled(low, (1_000_000_000 * s) as int, z as int);
}

/// Seconds read as milliseconds are off by very little.
proof fn a_thousandfold_is_near(s: nat)
    requires
        s >= 1,
    ensures
        ({
            let read = rounded(times(double(s, 1), 1_000));
            1_000_000_000 * s - 4_000 * s - 1_000_000 <= 1_000_000 * read <= 1_000_000_000 * s + 4_000
                * s + 1_000_000
        }),
{
    let z = one();
    one_is_large();
    let exact = s * z;
    assert(exact >= z) by (nonlinear_arith)
        requires
            exact == s * z,
            s >= 1,
    ;
    let d = double(s, 1);
    kept_is_near(exact, 1);
    let p = times(d, 1_000);
    kept_is_near(d * 1_000, 1);
    rounded_is_near(p);
    let read = rounded(p);
    let high = 1_000_000_000 * s + 4_000 * s + 1_000_000;
    let low = 1_000_000_000 * s - 4_000 * s - 1_000_000;
    assert((1_000_000 * read) * z <= high * z) by (nonlinear_arith)
        requires
            2 * (read * z) <= 2 * p + z,
            FULL * p <= FULL * (d * 1_000) + d * 1_000,
            FULL * d <= FULL * exact + exact,
            exact == s * z,
            high == 1_000_000_000 * s + 4_000 * s + 1_000_000,
            FULL == 0x20_0000_0000_0000,
    ;
    assert(low * z <= (1_000_000 * read) * z) by (nonlinear_arith)
        requires
            2 * (read * z) >= 2 * p - z,
            FULL * p >= FULL * (d * 1_000) - d * 1_000,
            FULL * d >= FULL * exact - exact,
            FULL * d <= FULL * exact + exact,
            exact == s * z,
            low == 1_000_000_000 * s - 4_000 * s - 1_000_000,
            FULL == 0x20_0000_0000_0000,
    ;
    cancelled((1_000_000 * read) as int, high as int, z as int);
    cancelled(low, (1_000_000 * read) as int, z as int);
}

/// Milliseconds that are shown in seconds read back off by a twentieth, and
/// fifty more, at most.
pub proof fn seconds_read_back_nearly(ms: nat)
    requires
        ms >= 10_000,
    ensures
        ({
            let read = rounded(times(double(seconds(ms), 1), 1_000));
            read - ms <= ms / 20 + 50 && ms - read <= ms / 20 + 50
        }),
{
    seconds_are_near(ms);
    a_thousandfold_is_near(seconds(ms));
}

} // verus!

//! Stat values: double-precision numbers, held and compared by their bits.

use vstd::prelude::*;

verus! {

/// Whether the IEEE 754 double with these bits is not a number.
pub open spec fn is_nan(bits: u64) -> bool {
    bits % 0x8000_0000_0000_0000 > 0x7ff0_0000_0000_0000
}

/// Where the double with these bits stands among the numbers: doubles that are
/// numbers compare as their ranks do, and the two zeros share one rank.
pub open spec fn rank(bits: u64) -> int {
    if bits >= 0x8000_0000_0000_0000 {
        -(bits % 0x8000_0000_0000_0000)
    } else {
        bits as int
    }
}

/// Whether two doubles compare equal; one that is not a number equals nothing,
/// itself included.
pub open spec fn equal(a: u64, b: u64) -> bool {
    !is_nan(a) && !is_nan(b) && rank(a) == rank(b)
}

/// Whether the double `a` is at least `b`; false where either is not a number.
pub open spec fn reaches(a: u64, b: u64) -> bool {
    !is_nan(a) && !is_nan(b) && rank(a) >= rank(b)
}

/// A rolled value or a threshold on one.
#[derive(Debug, Clone, Copy)]
pub struct StatValue {
    bits: u64,
}

impl View for StatValue {
    type V = u64;

    closed spec fn view(&self) -> u64 {
        self.bits
    }
}

impl StatValue {
    /// The value whose double has these bits.
    pub fn from_bits(bits: u64) -> (value: Self)
        ensures
            value@ == bits,
    {
        StatValue { bits }
    }

    /// The bits of this value's double.
    pub fn to_bits(self) -> (bits: u64)
        ensures
            bits == self@,
    {
        self.bits
    }

    /// Whether this value is not a number.
    fn nan(self) -> (yes: bool)
        ensures
            yes == is_nan(self@),
    {
        self.bits % 0x8000_0000_0000_0000 > 0x7ff0_0000_0000_0000
    }

    /// Whether this value and `other` compare equal.
    pub fn equals(self, other: Self) -> (yes: bool)
        ensures
            yes == equal(self@, other@),
    {
        let half: u64 = 0x8000_0000_0000_0000;
        if self.nan() || other.nan() {
            false
        } else if self.bits % half == 0 && other.bits % half == 0 {
            true
        } else {
            self.bits == other.bits
        }
    }

    /// Whether this value is at least `floor`.
    pub fn at_least(self, floor: Self) -> (yes: bool)
        ensures
            yes == reaches(self@, floor@),
    {
        let half: u64 = 0x8000_0000_0000_0000;
        if self.nan() || floor.nan() {
            false
        } else if self.bits >= half {
            if floor.bits >= half {
                self.bits <= floor.bits
            } else {
                self.bits == half && floor.bits == 0
            }
        } else if floor.bits >= half {
            true
        } else {
            self.bits >= floor.bits
        }
    }
}

impl PartialEq for StatValue {
    fn eq(&self, other: &Self) -> (yes: bool) {
        self.equals(*other)
    }
}

impl vstd::std_specs::cmp::PartialEqSpecImpl for StatValue {
    open spec fn obeys_eq_spec() -> bool {
        true
    }

    open spec fn eq_spec(&self, other: &Self) -> bool {
        equal(self@, other@)
    }
}

/// Of two values that are numbers, at least one reaches the other, and two that
/// reach each other compare equal.
pub proof fn values_are_ordered(a: StatValue, b: StatValue)
    requires
        !is_nan(a@),
        !is_nan(b@),
    ensures
        reaches(a@, b@) || reaches(b@, a@),
        reaches(a@, b@) && reaches(b@, a@) <==> equal(a@, b@),
{
}

/// How values compare, told by their bits. A value is no number exactly where its
/// bits without the sign are above those of infinity. Of two numbers without a
/// sign the one with the larger bits is the larger, and of two with one the other;
/// one with a sign never reaches one without, but for the two zeros, which are
/// equal. What is no number reaches nothing, equals nothing, and is not reached.
pub proof fn values_compare_by_their_bits(a: u64, b: u64)
    ensures
        is_nan(a) <==> 0x7ff0_0000_0000_0000 < a < 0x8000_0000_0000_0000 || a
            > 0xfff0_0000_0000_0000,
        is_nan(a) || is_nan(b) ==> !reaches(a, b) && !equal(a, b),
        !is_nan(a) && !is_nan(b) ==> {
            let (minus_a, minus_b) = (a >= 0x8000_0000_0000_0000, b >= 0x8000_0000_0000_0000);
            let zeros = (a == 0 || a == 0x8000_0000_0000_0000) && (b == 0 || b
                == 0x8000_0000_0000_0000);
            &&& zeros ==> reaches(a, b) && equal(a, b)
            &&& !zeros ==> (equal(a, b) <==> a == b)
            &&& !minus_a && !minus_b ==> (reaches(a, b) <==> a >= b)
            &&& minus_a && minus_b ==> (reaches(a, b) <==> a <= b)
            &&& !minus_a && minus_b ==> reaches(a, b)
            &&& minus_a && !minus_b && !zeros ==> !reaches(a, b)
        },
{
}

} // verus!

//! The values that the window lets a player edit, and how far each goes.

use super::snapshot::BuyDragHandle;
use vstd::prelude::*;

verus! {

/// A value that the window lets a player edit.
#[derive(Debug, Clone, Copy, PartialEq, Eq, Structural)]
pub enum Knob {
    MeanDelay,
    DelaySpread,
    DelayClamp,
    JitterRadius,
    PathSteps,
    StepDuration,
    PreClickPause,
    CurveAmplitude,
    InterRound,
    LongPauseEvery,
    LongPause,
    YieldToUser,
    ScrollAmount,
    Refreshes,
    Minutes,
    Items,
    Gold,
    Threshold,
    PreviewRefresh,
    Place,
    BuyReference,
    BuyOffset,
    BuyBand,
}

impl Knob {
    /// Whether the value has decimals: then it counts in thousandths.
    pub open spec fn has_decimals(self) -> bool {
        match self {
            Knob::MeanDelay
            | Knob::DelaySpread
            | Knob::JitterRadius
            | Knob::CurveAmplitude
            | Knob::Threshold
            | Knob::Place
            | Knob::BuyReference
            | Knob::BuyOffset
            | Knob::BuyBand => true,
            _ => false,
        }
    }

    /// The least and the greatest that a value may be.
    pub open spec fn bounds(self) -> (int, int) {
        match self {
            Knob::MeanDelay => (10_000, 2_000_000),
            Knob::DelaySpread => (0, 1_500),
            Knob::DelayClamp => (0, 10_000),
            Knob::JitterRadius => (0, 20_000),
            Knob::PathSteps => (1, 50),
            Knob::StepDuration => (0, 200),
            Knob::PreClickPause => (0, 500),
            Knob::CurveAmplitude => (0, 30_000),
            Knob::InterRound => (0, 60_000),
            Knob::LongPauseEvery => (0, 100),
            Knob::LongPause => (0, 120_000),
            Knob::YieldToUser => (0, 10_000),
            Knob::ScrollAmount => (-30, 30),
            Knob::Refreshes => (0, 10_000),
            Knob::Minutes => (0, 1_440),
            Knob::Items => (0, 10_000),
            Knob::Gold => (0, 100_000_000),
            Knob::Threshold => (500, 999),
            Knob::PreviewRefresh => (100, 5_000),
            Knob::Place => (0, 1_000),
            Knob::BuyReference => (0, 1_000),
            Knob::BuyOffset => (0, 150),
            Knob::BuyBand => (5, 200),
        }
    }

    /// The value that is nearest to one and within the bounds.
    pub open spec fn nearest(self, value: int) -> int {
        if value < self.bounds().0 {
            self.bounds().0
        } else if value > self.bounds().1 {
            self.bounds().1
        } else {
            value
        }
    }

    /// Whether the value has decimals: then it counts in thousandths.
    pub fn counts_thousandths(self) -> (yes: bool)
        ensures
            yes == self.has_decimals(),
    {
        match self {
            Knob::MeanDelay
            | Knob::DelaySpread
            | Knob::JitterRadius
            | Knob::CurveAmplitude
            | Knob::Threshold
            | Knob::Place
            | Knob::BuyReference
            | Knob::BuyOffset
            | Knob::BuyBand => true,
            _ => false,
        }
    }

    /// The least and the greatest that a value may be.
    pub fn range(self) -> (range: (i64, i64))
        ensures
            (range.0 as int, range.1 as int) == self.bounds(),
    {
        match self {
            Knob::MeanDelay => (10_000, 2_000_000),
            Knob::DelaySpread => (0, 1_500),
            Knob::DelayClamp => (0, 10_000),
            Knob::JitterRadius => (0, 20_000),
            Knob::PathSteps => (1, 50),
            Knob::StepDuration => (0, 200),
            Knob::PreClickPause => (0, 500),
            Knob::CurveAmplitude => (0, 30_000),
            Knob::InterRound => (0, 60_000),
            Knob::LongPauseEvery => (0, 100),
            Knob::LongPause => (0, 120_000),
            Knob::YieldToUser => (0, 10_000),
            Knob::ScrollAmount => (-30, 30),
            Knob::Refreshes => (0, 10_000),
            Knob::Minutes => (0, 1_440),
            Knob::Items => (0, 10_000),
            Knob::Gold => (0, 100_000_000),
            Knob::Threshold => (500, 999),
            Knob::PreviewRefresh => (100, 5_000),
            Knob::Place => (0, 1_000),
            Knob::BuyReference => (0, 1_000),
            Knob::BuyOffset => (0, 150),
            Knob::BuyBand => (5, 200),
        }
    }

    /// The value that is nearest to one and within the bounds.
    pub fn keep(self, value: i64) -> (kept: i64)
        ensures
            kept == self.nearest(value as int),
    {
        let (least, greatest) = self.range();
        if value < least {
            least
        } else if value > greatest {
            greatest
        } else {
            value
        }
    }
}

/// The value that a handle on the picture moves.
pub fn moved_by(handle: BuyDragHandle) -> (knob: Knob)
    ensures
        knob == match handle {
            BuyDragHandle::Line => Knob::BuyReference,
            BuyDragHandle::Box => Knob::BuyOffset,
        },
{
    match handle {
        BuyDragHandle::Line => Knob::BuyReference,
        BuyDragHandle::Box => Knob::BuyOffset,
    }
}

/// No drag, however wild, takes a value out of what can be typed; and a value
/// that can be typed stays as it is.
pub proof fn a_drag_stays_in_bounds(knob: Knob, value: int)
    ensures
        knob.bounds().0 <= knob.nearest(value) <= knob.bounds().1,
        knob.bounds().0 <= value <= knob.bounds().1 ==> knob.nearest(value) == value,
{
}

/// Every value is kept as it is edited exactly as far as it may go: delays and
/// radii in thousandths of what they are counted in, pauses in milliseconds, and
/// places as thousandths of the window.
pub proof fn each_value_goes_as_far_as_it_may(value: int)
    ensures
        Knob::MeanDelay.nearest(value) == value <==> 10_000 <= value <= 2_000_000,
        Knob::DelaySpread.nearest(value) == value <==> 0 <= value <= 1_500,
        Knob::DelayClamp.nearest(value) == value <==> 0 <= value <= 10_000,
        Knob::JitterRadius.nearest(value) == value <==> 0 <= value <= 20_000,
        Knob::PathSteps.nearest(value) == value <==> 1 <= value <= 50,
        Knob::StepDuration.nearest(value) == value <==> 0 <= value <= 200,
        Knob::PreClickPause.nearest(value) == value <==> 0 <= value <= 500,
        Knob::CurveAmplitude.nearest(value) == value <==> 0 <= value <= 30_000,
        Knob::InterRound.nearest(value) == value <==> 0 <= value <= 60_000,
        Knob::LongPauseEvery.nearest(value) == value <==> 0 <= value <= 100,
        Knob::LongPause.nearest(value) == value <==> 0 <= value <= 120_000,
        Knob::YieldToUser.nearest(value) == value <==> 0 <= value <= 10_000,
        Knob::ScrollAmount.nearest(value) == value <==> -30 <= value <= 30,
        Knob::Refreshes.nearest(value) == value <==> 0 <= value <= 10_000,
        Knob::Minutes.nearest(value) == value <==> 0 <= value <= 1_440,
        Knob::Items.nearest(value) == value <==> 0 <= value <= 10_000,
        Knob::Gold.nearest(value) == value <==> 0 <= value <= 100_000_000,
        Knob::Threshold.nearest(value) == value <==> 500 <= value <= 999,
        Knob::PreviewRefresh.nearest(value) == value <==> 100 <= value <= 5_000,
        Knob::Place.nearest(value) == value <==> 0 <= value <= 1_000,
        Knob::BuyReference.nearest(value) == value <==> 0 <= value <= 1_000,
        Knob::BuyOffset.nearest(value) == value <==> 0 <= value <= 150,
        Knob::BuyBand.nearest(value) == value <==> 5 <= value <= 200,
{
}

/// A value outside its bounds goes to the bound that it passed, so that a greater
/// value never comes out less.
pub proof fn a_value_goes_to_the_bound_it_passed(knob: Knob, value: int, greater: int)
    requires
        value <= greater,
    ensures
        knob.nearest(value) <= knob.nearest(greater),
        knob.nearest(knob.nearest(value)) == knob.nearest(value),
        knob.nearest(value) < value ==> knob.nearest(greater) == knob.nearest(value),
        knob.nearest(greater) > greater ==> knob.nearest(value) == knob.nearest(greater),
{
}

/// What is a share of something, or a mean that is drawn round, has decimals; what
/// is counted or timed has none.
pub proof fn shares_and_means_have_decimals()
    ensures
        Knob::MeanDelay.has_decimals() && Knob::DelaySpread.has_decimals(),
        Knob::JitterRadius.has_decimals() && Knob::CurveAmplitude.has_decimals(),
        Knob::Threshold.has_decimals() && Knob::Place.has_decimals(),
        Knob::BuyReference.has_decimals() && Knob::BuyOffset.has_decimals()
            && Knob::BuyBand.has_decimals(),
        !Knob::DelayClamp.has_decimals() && !Knob::PathSteps.has_decimals(),
        !Knob::StepDuration.has_decimals() && !Knob::PreClickPause.has_decimals(),
        !Knob::InterRound.has_decimals() && !Knob::LongPauseEvery.has_decimals(),
        !Knob::LongPause.has_decimals() && !Knob::YieldToUser.has_decimals(),
        !Knob::ScrollAmount.has_decimals() && !Knob::Refreshes.has_decimals(),
        !Knob::Minutes.has_decimals() && !Knob::Items.has_decimals(),
        !Knob::Gold.has_decimals() && !Knob::PreviewRefresh.has_decimals(),
{
}

} // verus!

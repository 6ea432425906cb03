//! Clicking like a hand: when to wait for the player, when a click may go out,
//! and where in a rectangle it lands.

use rand::rngs::SmallRng;
use rand::RngExt;
use vstd::prelude::*;

verus! {

/// Longest single sleep, so that a stop is noticed soon.
pub const SLEEP_CHUNK_MS: u64 = 60;

/// Wait after bringing the window forward.
pub const FOREGROUND_SETTLE_MS: u64 = 150;

/// How often an active player is looked at again.
pub const COOPERATIVE_POLL_MS: u64 = 100;

/// How much later than our own last input an input must be to be the player's.
pub const BOT_INPUT_CLASSIFY_MARGIN_MS: u64 = 30;

/// Wait between moving to a place and scrolling there.
pub const SCROLL_SETTLE_MS: u64 = 40;

/// The generator that spreads clicks and pauses.
#[verifier::external_type_specification]
#[verifier::external_body]
pub struct ExSmallRng(SmallRng);

/// `rand`'s `RngExt::random_range` over an inclusive range of integers: a
/// number of that range, whichever. Which one it is depends on the generator's
/// state, of which nothing is said.
#[verifier::external_body]
fn drawn(rng: &mut SmallRng, low: u64, high: u64) -> (n: u64)
    requires
        low <= high,
    ensures
        low <= n <= high,
{
    rng.random_range(low..=high)
}

/// A time between two bounds, or the lower one where the upper is not above it:
/// nothing is drawn then, and the generator stays as it is.
pub fn uniform_ms(rng: &mut SmallRng, min: u64, max: u64) -> (ms: u64)
    ensures
        if min >= max {
            ms == min && *final(rng) == *old(rng)
        } else {
            min <= ms <= max
        },
{
    if min >= max {
        min
    } else {
        drawn(rng, min, max)
    }
}

/// The extent of a rectangle as a click sees it: at least one pixel.
pub open spec fn extent(span: i32) -> int {
    if span < 1 {
        1
    } else {
        span as int
    }
}

/// Whether every pixel of a rectangle has coordinates of its own.
pub open spec fn is_addressable(rect: Seq<i32>) -> bool {
    rect.len() == 4 && rect[0] + extent(rect[2]) - 1 <= i32::MAX && rect[1] + extent(rect[3]) - 1
        <= i32::MAX
}

/// The pixel that lies `dx` right of and `dy` below a rectangle's corner.
pub fn point_in(rect: [i32; 4], dx: u64, dy: u64) -> (point: (i32, i32))
    requires
        is_addressable(rect@),
        dx < extent(rect@[2]),
        dy < extent(rect@[3]),
    ensures
        point.0 == rect@[0] + dx,
        point.1 == rect@[1] + dy,
{
    let x: i64 = rect[0] as i64 + dx as i64;
    let y: i64 = rect[1] as i64 + dy as i64;
    (x as i32, y as i32)
}

/// A pixel inside a rectangle, for a click. A rectangle without extent is its
/// corner.
pub fn click_local_in_rect(rng: &mut SmallRng, rect: [i32; 4]) -> (point: (i32, i32))
    requires
        is_addressable(rect@),
    ensures
        rect@[0] <= point.0 < rect@[0] + extent(rect@[2]),
        rect@[1] <= point.1 < rect@[1] + extent(rect@[3]),
{
    let last_x: u64 = if rect[2] < 1 {
        0
    } else {
        (rect[2] - 1) as u64
    };
    let last_y: u64 = if rect[3] < 1 {
        0
    } else {
        (rect[3] - 1) as u64
    };
    let dx: u64 = drawn(rng, 0, last_x);
    let dy: u64 = drawn(rng, 0, last_y);
    point_in(rect, dx, dy)
}

/// In how many steps the mouse moves: a number between the bounds, and at
/// least one.
pub fn move_steps(rng: &mut SmallRng, min: u32, max: u32) -> (steps: u32)
    requires
        min <= max,
    ensures
        steps >= 1,
        min <= steps,
        steps <= max || (steps == 1 && max == 0),
{
    let steps: u32 = drawn(rng, min as u64, max as u64) as u32;
    if steps < 1 {
        1
    } else {
        steps
    }
}

/// How long ago the player last touched anything, by the system's wrapping
/// millisecond clock; nothing where the last input was our own or is unknown.
pub open spec fn since_user_input(now: u32, last_input: Option<u32>, since_bot_ms: u64) -> Option<
    int,
> {
    match last_input {
        None => None,
        Some(at) => {
            let since = (now - at) % 0x1_0000_0000;
            if since + BOT_INPUT_CLASSIFY_MARGIN_MS < since_bot_ms {
                Some(since)
            } else {
                None
            }
        },
    }
}

/// How long ago the player last touched anything, given the system's clock, the
/// time of the last input on it and how long ago our own last input was;
/// nothing where the last input was our own or is unknown.
pub fn ms_since_user_input(now: u32, last_input: Option<u32>, since_bot_ms: u64) -> (ms: Option<
    u64,
>)
    ensures
        match ms {
            Some(ms) => since_user_input(now, last_input, since_bot_ms) == Some(ms as int),
            None => since_user_input(now, last_input, since_bot_ms) is None,
        },
{
    match last_input {
        None => None,
        Some(at) => {
            let since: u64 = if now >= at {
                (now - at) as u64
            } else {
                0x1_0000_0000 - (at - now) as u64
            };
            assert(since == (now - at) % 0x1_0000_0000);
            if since + BOT_INPUT_CLASSIFY_MARGIN_MS < since_bot_ms {
                Some(since)
            } else {
                None
            }
        },
    }
}

/// What to do while the player may be active.
#[derive(Debug, Clone, Copy, PartialEq, Eq, Structural)]
pub enum IdleStep {
    /// Go ahead.
    Proceed,
    /// Sleep [`COOPERATIVE_POLL_MS`] and look again.
    Wait,
}

/// Whether to wait for the player to be idle for long enough: not where that
/// is switched off by a threshold of zero, not after a stop, and not where the
/// player is idle already.
pub fn wait_for_user_idle(threshold_ms: u64, stopped: bool, since_user_ms: Option<u64>) -> (step:
    IdleStep)
    ensures
        step is Wait == (threshold_ms > 0 && !stopped && (since_user_ms matches Some(ms) && ms
            < threshold_ms)),
{
    if threshold_ms == 0 || stopped {
        return IdleStep::Proceed;
    }
    match since_user_ms {
        Some(ms) => {
            if ms < threshold_ms {
                IdleStep::Wait
            } else {
                IdleStep::Proceed
            }
        },
        None => IdleStep::Proceed,
    }
}

/// The length of the next sleep of an interruptible wait, in nanoseconds:
/// what remains, but no more than a chunk; nothing once it is over or stopped.
pub fn sleep_interruptible(stopped: bool, remaining_ns: u128) -> (sleep_ns: Option<u128>)
    ensures
        match sleep_ns {
            Some(ns) => !stopped && remaining_ns > 0 && ns == if remaining_ns < SLEEP_CHUNK_MS
                * 1_000_000 {
                remaining_ns as int
            } else {
                SLEEP_CHUNK_MS * 1_000_000
            },
            None => stopped || remaining_ns == 0,
        },
{
    if stopped || remaining_ns == 0 {
        return None;
    }
    let chunk: u128 = SLEEP_CHUNK_MS as u128 * 1_000_000;
    if remaining_ns < chunk {
        Some(remaining_ns)
    } else {
        Some(chunk)
    }
}

/// Where bringing the game forward has got to.
#[derive(Debug, Clone, Copy, PartialEq, Eq, Structural)]
pub enum Focus {
    /// Ask whether the window still exists.
    CheckHandle,
    /// Ask whether it is in front.
    CheckFront,
    /// Try to bring it forward.
    BringForward,
    /// Ask again whether it still exists, to tell a dead window from a focus
    /// that another app holds.
    RecheckHandle,
    /// Wait [`FOREGROUND_SETTLE_MS`] for the focus to take.
    Settle,
    Ready,
    HandleInvalid,
    NotForeground,
}

/// What the answer to a step leads to.
pub open spec fn focused(step: Focus, answer: bool) -> Focus {
    match step {
        Focus::CheckHandle => if answer {
            Focus::CheckFront
        } else {
            Focus::HandleInvalid
        },
        Focus::CheckFront => if answer {
            Focus::Ready
        } else {
            Focus::BringForward
        },
        Focus::BringForward => if answer {
            Focus::Settle
        } else {
            Focus::RecheckHandle
        },
        Focus::RecheckHandle => if answer {
            Focus::NotForeground
        } else {
            Focus::HandleInvalid
        },
        Focus::Settle => Focus::Ready,
        Focus::Ready => Focus::Ready,
        Focus::HandleInvalid => Focus::HandleInvalid,
        Focus::NotForeground => Focus::NotForeground,
    }
}

/// Takes the answer to a step on the way to the foreground, and gives the next.
pub fn ensure_foreground(step: Focus, answer: bool) -> (next: Focus)
    ensures
        next == focused(step, answer),
{
    match (step, answer) {
        (Focus::CheckHandle, true) => Focus::CheckFront,
        (Focus::CheckHandle, false) => Focus::HandleInvalid,
        (Focus::CheckFront, true) => Focus::Ready,
        (Focus::CheckFront, false) => Focus::BringForward,
        (Focus::BringForward, true) => Focus::Settle,
        (Focus::BringForward, false) => Focus::RecheckHandle,
        (Focus::RecheckHandle, true) => Focus::NotForeground,
        (Focus::RecheckHandle, false) => Focus::HandleInvalid,
        (Focus::Settle, _) => Focus::Ready,
        (other, _) => other,
    }
}

/// The window is ready only where it was found in front, or was brought there;
/// and a window that does not exist is always said to be that, whatever else
/// was asked before.
pub proof fn readiness_is_earned(step: Focus, answer: bool)
    ensures
        focused(step, answer) is Ready ==> step is Ready || step is Settle || (step is CheckFront
            && answer),
        focused(step, answer) is Settle ==> step is BringForward && answer,
        (step is CheckHandle || step is RecheckHandle) && !answer ==> focused(
            step,
            answer,
        ) is HandleInvalid,
        focused(step, answer) is NotForeground ==> step is NotForeground || (step is RecheckHandle
            && answer),
{
}

/// What a click or a scroll does next.
#[derive(Debug, Clone, Copy, PartialEq, Eq, Structural)]
pub enum Gesture {
    /// Wait for the player to be idle.
    AwaitIdle,
    /// Bring the game forward.
    Focus,
    /// Find the place on the screen, wherever the window is now.
    Locate,
    /// Move the mouse there.
    Move,
    /// Wait there.
    Dwell,
    /// Press the button, or turn the wheel.
    Act,
    Finished,
    Failed,
}

/// What came of a step of a gesture.
#[derive(Debug, Clone, Copy, PartialEq, Eq, Structural)]
pub enum Outcome {
    Success,
    Failure,
}

/// What a step leads to. A stop is heeded last, right before the act.
pub open spec fn gestured(step: Gesture, outcome: Outcome, stopped: bool) -> Gesture {
    match (step, outcome) {
        (Gesture::Finished, _) => Gesture::Finished,
        (Gesture::Failed, _) => Gesture::Failed,
        (_, Outcome::Failure) => Gesture::Failed,
        (Gesture::AwaitIdle, Outcome::Success) => Gesture::Focus,
        (Gesture::Focus, Outcome::Success) => Gesture::Locate,
        (Gesture::Locate, Outcome::Success) => Gesture::Move,
        (Gesture::Move, Outcome::Success) => Gesture::Dwell,
        (Gesture::Dwell, Outcome::Success) => if stopped {
            Gesture::Finished
        } else {
            Gesture::Act
        },
        (Gesture::Act, Outcome::Success) => Gesture::Finished,
    }
}

/// Takes what came of a step of a gesture, and gives the next.
pub fn next_gesture(step: Gesture, outcome: Outcome, stopped: bool) -> (next: Gesture)
    ensures
        next == gestured(step, outcome, stopped),
{
    match (step, outcome) {
        (Gesture::Finished, _) => Gesture::Finished,
        (Gesture::Failed, _) => Gesture::Failed,
        (_, Outcome::Failure) => Gesture::Failed,
        (Gesture::AwaitIdle, Outcome::Success) => Gesture::Focus,
        (Gesture::Focus, Outcome::Success) => Gesture::Locate,
        (Gesture::Locate, Outcome::Success) => Gesture::Move,
        (Gesture::Move, Outcome::Success) => Gesture::Dwell,
        (Gesture::Dwell, Outcome::Success) => if stopped {
            Gesture::Finished
        } else {
            Gesture::Act
        },
        (Gesture::Act, Outcome::Success) => Gesture::Finished,
    }
}

/// No click goes out after a stop, none after a step that failed, and none
/// but as the last step of all: the focus is taken before the place is found,
/// the place before the move, and the move before the wait.
pub proof fn no_click_goes_out_after_a_stop(step: Gesture, outcome: Outcome, stopped: bool)
    ensures
        gestured(step, outcome, stopped) is Act ==> step is Dwell && outcome is Success
            && !stopped,
        gestured(step, outcome, stopped) is Dwell ==> step is Move && outcome is Success,
        gestured(step, outcome, stopped) is Move ==> step is Locate && outcome is Success,
        gestured(step, outcome, stopped) is Locate ==> step is Focus && outcome is Success,
{
}

/// A rectangle has at least one pixel each way, and as many as it says where it
/// says more.
pub proof fn an_extent_is_at_least_one_pixel(span: i32)
    ensures
        extent(span) >= 1,
        span >= 1 ==> extent(span) == span,
        span < 1 ==> extent(span) == 1,
{
}

/// How long ago the player touched anything is the time that the wrapping clock
/// needs from then to now; and it is told only where that is more than 30
/// milliseconds nearer than our own last input.
pub proof fn an_input_is_the_players_where_it_is_later_than_ours(
    now: u32,
    at: u32,
    since_bot_ms: u64,
)
    ensures
        since_user_input(now, None, since_bot_ms) is None,
        since_user_input(now, Some(at), since_bot_ms) matches Some(since) ==> 0 <= since
            < 0x1_0000_0000 && (now == at + since || now + 0x1_0000_0000 == at + since) && since_bot_ms
            - since > 30,
        now >= at && since_bot_ms > now - at + 30 ==> since_user_input(now, Some(at), since_bot_ms)
            == Some(now - at),
        now < at && since_bot_ms > now - at + 0x1_0000_0000 + 30 ==> since_user_input(
            now,
            Some(at),
            since_bot_ms,
        ) == Some(now - at + 0x1_0000_0000),
{
    if now >= at {
        assert((now - at) % 0x1_0000_0000 == now - at);
    } else {
        assert((now - at) % 0x1_0000_0000 == now - at + 0x1_0000_0000);
    }
}

/// Where the way to the foreground ends, by what is found on it: at a dead window
/// where there is none, at once where it is in front, after it settled where it
/// could be brought there, and otherwise at a dead window or at a focus that is
/// held elsewhere, by whether it is still there.
pub proof fn the_way_to_the_front_ends_where_it_should(
    is_there: bool,
    in_front: bool,
    brought: bool,
    still_there: bool,
    any: bool,
)
    ensures
        ({
            let checked = focused(Focus::CheckHandle, is_there);
            let looked = focused(checked, in_front);
            let tried = focused(looked, brought);
            let ended = focused(tried, still_there);
            &&& !is_there ==> checked is HandleInvalid
            &&& is_there && in_front ==> looked is Ready
            &&& is_there && !in_front && brought ==> tried is Settle && ended is Ready
            &&& is_there && !in_front && !brought ==> ended == if still_there {
                Focus::NotForeground
            } else {
                Focus::HandleInvalid
            }
        }),
        focused(Focus::Ready, any) is Ready,
        focused(Focus::HandleInvalid, any) is HandleInvalid,
        focused(Focus::NotForeground, any) is NotForeground,
{
}

/// A gesture that nothing disturbs waits for the player, takes the focus, finds
/// the place, moves there, waits, acts and is finished, in this order; a stop
/// before the act finishes it without one, and a step that fails fails it. What
/// is over stays over.
pub proof fn a_gesture_runs_to_its_act(step: Gesture, outcome: Outcome, stopped: bool)
    ensures
        ({
            let focus = gestured(Gesture::AwaitIdle, Outcome::Success, stopped);
            let locate = gestured(focus, Outcome::Success, stopped);
            let moving = gestured(locate, Outcome::Success, stopped);
            let dwell = gestured(moving, Outcome::Success, stopped);
            let act = gestured(dwell, Outcome::Success, stopped);
            &&& focus is Focus && locate is Locate && moving is Move && dwell is Dwell
            &&& act is Act <==> !stopped
            &&& act is Finished <==> stopped
            &&& gestured(Gesture::Act, Outcome::Success, stopped) is Finished
        }),
        gestured(Gesture::Finished, outcome, stopped) is Finished,
        gestured(Gesture::Failed, outcome, stopped) is Failed,
        !(step is Finished) ==> gestured(step, Outcome::Failure, stopped) is Failed,
{
}

} // verus!

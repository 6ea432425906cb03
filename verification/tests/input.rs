//! When a click may go out, and where it lands.

use arkyve_refresh_shop::input::{
    click_local_in_rect, ensure_foreground, move_steps, ms_since_user_input, next_gesture,
    point_in, sleep_interruptible, uniform_ms, wait_for_user_idle, Focus, Gesture, IdleStep,
    Outcome, SLEEP_CHUNK_MS,
};
use rand::rngs::SmallRng;
use rand::SeedableRng;

#[test]
fn a_click_lands_inside_its_rectangle() {
    let mut rng = SmallRng::seed_from_u64(7);
    let mut corners = (false, false);
    for _ in 0..500 {
        let (x, y) = click_local_in_rect(&mut rng, [-10, 20, 3, 2]);
        assert!((-10..-7).contains(&x), "{x}");
        assert!((20..22).contains(&y), "{y}");
        corners.0 |= x == -10;
        corners.1 |= x == -8;
    }
    assert_eq!(corners, (true, true), "both edges are reached");
    assert_eq!(click_local_in_rect(&mut rng, [5, 6, 0, -4]), (5, 6));
    assert_eq!(point_in([5, 6, 3, 3], 2, 1), (7, 7));
}

#[test]
fn a_pause_lies_between_its_bounds() {
    let mut rng = SmallRng::seed_from_u64(11);
    for _ in 0..200 {
        assert!((40..=43).contains(&uniform_ms(&mut rng, 40, 43)));
        assert!((4..=6).contains(&move_steps(&mut rng, 4, 6)));
    }
    assert_eq!(uniform_ms(&mut rng, 50, 50), 50);
    assert_eq!(uniform_ms(&mut rng, 50, 10), 50);
    assert_eq!(move_steps(&mut rng, 0, 0), 1);
}

#[test]
fn a_pause_is_drawn_only_where_there_is_a_choice() {
    let mut rng = SmallRng::seed_from_u64(11);
    let before = rng.clone();
    assert_eq!(uniform_ms(&mut rng, 50, 50), 50);
    assert_eq!(uniform_ms(&mut rng, 50, 10), 50);
    assert_eq!(rng, before);
    let mut ends = (false, false);
    for _ in 0..500 {
        let ms = uniform_ms(&mut rng, 40, 43);
        ends.0 |= ms == 40;
        ends.1 |= ms == 43;
    }
    assert_eq!(ends, (true, true), "both bounds are reached");
    assert_ne!(rng, before);
}

#[test]
fn our_own_input_is_not_the_players() {
    assert_eq!(ms_since_user_input(1_000, Some(900), 500), Some(100));
    assert_eq!(ms_since_user_input(1_000, Some(900), 130), None, "within the margin");
    assert_eq!(ms_since_user_input(1_000, Some(900), 131), Some(100));
    assert_eq!(ms_since_user_input(1_000, None, 500), None);
    assert_eq!(ms_since_user_input(5, Some(u32::MAX - 4), 500), Some(10), "the clock wraps");
}

#[test]
fn an_active_player_is_waited_for() {
    assert_eq!(wait_for_user_idle(2_000, false, Some(1_999)), IdleStep::Wait);
    assert_eq!(wait_for_user_idle(2_000, false, Some(2_000)), IdleStep::Proceed);
    assert_eq!(wait_for_user_idle(2_000, false, None), IdleStep::Proceed);
    assert_eq!(wait_for_user_idle(0, false, Some(0)), IdleStep::Proceed);
    assert_eq!(wait_for_user_idle(2_000, true, Some(0)), IdleStep::Proceed);
}

#[test]
fn a_sleep_is_cut_into_chunks() {
    let chunk = u128::from(SLEEP_CHUNK_MS) * 1_000_000;
    assert_eq!(sleep_interruptible(false, 10 * chunk), Some(chunk));
    assert_eq!(sleep_interruptible(false, 5), Some(5));
    assert_eq!(sleep_interruptible(false, 0), None);
    assert_eq!(sleep_interruptible(true, 10 * chunk), None);
}

fn focus(answers: &[bool]) -> Focus {
    answers
        .iter()
        .fold(Focus::CheckHandle, |step, answer| ensure_foreground(step, *answer))
}

#[test]
fn a_dead_window_is_told_from_a_held_focus() {
    assert_eq!(focus(&[false]), Focus::HandleInvalid);
    assert_eq!(focus(&[true, true]), Focus::Ready);
    assert_eq!(focus(&[true, false, true]), Focus::Settle);
    assert_eq!(focus(&[true, false, true, true]), Focus::Ready);
    assert_eq!(focus(&[true, false, false, true]), Focus::NotForeground);
    assert_eq!(focus(&[true, false, false, false]), Focus::HandleInvalid);
}

#[test]
fn a_stop_holds_back_the_click() {
    let mut step = Gesture::AwaitIdle;
    for _ in 0..4 {
        step = next_gesture(step, Outcome::Success, true);
    }
    assert_eq!(step, Gesture::Dwell);
    assert_eq!(next_gesture(step, Outcome::Success, true), Gesture::Finished);
    assert_eq!(next_gesture(step, Outcome::Success, false), Gesture::Act);
    assert_eq!(next_gesture(step, Outcome::Failure, false), Gesture::Failed);
    assert_eq!(next_gesture(Gesture::Act, Outcome::Success, false), Gesture::Finished);
}

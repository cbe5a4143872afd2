use mooltitwap::params::NUM_TAPS;
use mooltitwap::taps::{
    active_tap_count, feedback_tap_index, pitch_step_down, pitch_step_up, plan_taps,
    tap_count_after_steps, tap_is_live,
};

#[test]
fn active_count_is_clamped() {
    assert_eq!(active_tap_count(8), 8);
    assert_eq!(active_tap_count(1), 1);
    assert_eq!(active_tap_count(16), 16);
    assert_eq!(active_tap_count(0), 1);
    assert_eq!(active_tap_count(17), 16);
    assert_eq!(active_tap_count(i32::MAX), 16);
    assert_eq!(active_tap_count(-1), 16);
    assert_eq!(active_tap_count(i32::MIN), 16);
    for r in -40..40 {
        assert_eq!(active_tap_count(r), (r as usize).clamp(1, NUM_TAPS));
    }
}

#[test]
fn feedback_index_matches_block_rule() {
    for req in -5i32..25 {
        for n in 1usize..=16 {
            let expected = ((req as usize).min(n).saturating_sub(1)).min(NUM_TAPS - 1);
            assert_eq!(feedback_tap_index(req, n), expected);
        }
    }
    assert_eq!(feedback_tap_index(8, 8), 7);
    assert_eq!(feedback_tap_index(8, 4), 3);
    assert_eq!(feedback_tap_index(1, 4), 0);
    assert_eq!(feedback_tap_index(0, 4), 0);
}

#[test]
fn feedback_tap_is_always_read() {
    for req in [i32::MIN, -1, 0, 1, 5, 16, 17, i32::MAX] {
        for n in 1usize..=16 {
            assert!(feedback_tap_index(req, n) < n);
        }
    }
}

#[test]
fn live_taps() {
    assert!(tap_is_live(true, 2, 3));
    assert!(!tap_is_live(true, 3, 3));
    assert!(!tap_is_live(false, 0, 3));
}

#[test]
fn plan_for_default_parameters() {
    let enabled = vec![true; 16];
    let pitch: Vec<i32> = (0..16).map(|i| i - 8).collect();
    let plan = plan_taps(8, &enabled, &pitch, 8);
    assert_eq!(plan.n_active, 8);
    assert_eq!(plan.feedback_index, 7);
    for i in 0..16 {
        assert_eq!(plan.live[i], i < 8);
        assert_eq!(plan.semitones[i], if i < 8 { pitch[i] } else { 0 });
    }
}

#[test]
fn plan_silences_disabled_taps() {
    let mut enabled = vec![true; 16];
    enabled[1] = false;
    let pitch = vec![5i32; 16];
    let plan = plan_taps(4, &enabled, &pitch, 12);
    assert_eq!(plan.n_active, 4);
    assert_eq!(plan.feedback_index, 3);
    assert_eq!(plan.live[..5], [true, false, true, true, false]);
    assert_eq!(plan.semitones[..5], [5, 0, 5, 5, 0]);
}

#[test]
fn pitch_buttons() {
    assert_eq!(pitch_step_up(0), 1);
    assert_eq!(pitch_step_up(12), 12);
    assert_eq!(pitch_step_up(11), 12);
    assert_eq!(pitch_step_down(0), -1);
    assert_eq!(pitch_step_down(-12), -12);
    assert_eq!(pitch_step_down(-11), -12);
    for v in -12..=12 {
        assert!((-12..=12).contains(&pitch_step_up(v)));
        assert!((-12..=12).contains(&pitch_step_down(v)));
    }
}

#[test]
fn tap_count_drag() {
    assert_eq!(tap_count_after_steps(8, 3), 11);
    assert_eq!(tap_count_after_steps(8, 20), 16);
    assert_eq!(tap_count_after_steps(8, -20), 1);
    assert_eq!(tap_count_after_steps(1, -1), 1);
    assert_eq!(tap_count_after_steps(16, 1), 16);
    assert_eq!(tap_count_after_steps(5, 0), 5);
}

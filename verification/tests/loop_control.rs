//! The loop-geometry model and the controller's command decisions.

use looper::controller::{
    CommandBatch, LoopController, PlaybackChange, COMMAND_DURATION, SMALLEST_LOOP_UPPER_BOUND,
};
use looper::ui::{GeometrySnapshot, Loop, HEIGHT_CLAMP_MAX};

fn full_snapshot(position: i64, height: i64, width: i64, window_width: i64) -> GeometrySnapshot {
    GeometrySnapshot {
        loop_position: Some(position),
        square_height: Some(height),
        square_width: Some(width),
        window_width: Some(window_width),
    }
}

fn loop_region(batch: &CommandBatch) -> (i64, i64) {
    match batch.loop_region.change {
        PlaybackChange::LoopRegion { lower, upper } => (lower, upper),
        _ => panic!("loop command does not carry a region"),
    }
}

#[test]
fn change_loop_accumulates_deltas() {
    let mut model = Loop {
        loop_position: 0,
        square_height: 128_000_000,
        square_width: 31_000_000,
    };
    let snap = model.change_loop(Some(5_000_000), 1_000_000, 2_000_000, 800_000_000);
    assert_eq!(model.loop_position, 5_000_000);
    assert_eq!(model.square_height, 129_000_000);
    assert_eq!(model.square_width, 33_000_000);
    assert_eq!(snap.loop_position, Some(5_000_000));
    assert_eq!(snap.square_height, Some(129_000_000));
    assert_eq!(snap.square_width, Some(33_000_000));
    assert_eq!(snap.window_width, Some(800_000_000));
}

#[test]
fn change_loop_without_position_delta_keeps_position() {
    let mut model = Loop {
        loop_position: 7_000_000,
        square_height: 0,
        square_width: 0,
    };
    let snap = model.change_loop(None, 0, 0, 800_000_000);
    assert_eq!(model.loop_position, 7_000_000);
    assert_eq!(snap.loop_position, Some(7_000_000));
}

#[test]
fn change_loop_clamps_published_height_only() {
    let mut model = Loop {
        loop_position: 0,
        square_height: 350_000_000,
        square_width: 0,
    };
    let snap = model.change_loop(None, 100_000_000, 0, 800_000_000);
    assert_eq!(model.square_height, 450_000_000);
    assert_eq!(snap.square_height, Some(HEIGHT_CLAMP_MAX));
    let snap2 = model.change_loop(None, -900_000_000, 0, 800_000_000);
    assert_eq!(model.square_height, -450_000_000);
    assert_eq!(snap2.square_height, Some(0));
}

#[test]
fn short_loop_is_raised_to_minimum_length() {
    let mut controller = LoopController::new(4_000_000);
    let snap = full_snapshot(400_000_000, 100_000_000, 1_000_000, 800_000_000);
    let batch = controller.apply_snapshot(snap).expect("commands expected");
    let (lower, upper) = loop_region(&batch);
    assert_eq!(lower, 2_000_000);
    assert_eq!(upper, 2_000_000 + SMALLEST_LOOP_UPPER_BOUND);
}

#[test]
fn wide_loop_keeps_its_upper_bound() {
    let mut controller = LoopController::new(4_000_000);
    let snap = full_snapshot(400_000_000, 100_000_000, 200_000_000, 800_000_000);
    let batch = controller.apply_snapshot(snap).expect("commands expected");
    let (lower, upper) = loop_region(&batch);
    assert_eq!(lower, 2_000_000);
    assert_eq!(upper, 3_000_000);
}

#[test]
fn commands_carry_ramp_and_pitch() {
    let mut controller = LoopController::new(4_000_000);
    let snap = full_snapshot(400_000_000, 100_000_000, 1_000_000, 800_000_000);
    let batch = controller.apply_snapshot(snap).expect("commands expected");
    assert!(matches!(
        batch.position.change,
        PlaybackChange::Position(2_000_000)
    ));
    assert!(matches!(
        batch.pitch.change,
        PlaybackChange::PlaybackRate(781_250)
    ));
    assert_eq!(batch.position.duration, COMMAND_DURATION);
    assert_eq!(batch.loop_region.duration, COMMAND_DURATION);
    assert_eq!(batch.pitch.duration, COMMAND_DURATION);
    assert_eq!(batch.position.start, 0);
}

#[test]
fn identical_snapshot_issues_once() {
    let mut controller = LoopController::new(4_000_000);
    let snap = full_snapshot(400_000_000, 100_000_000, 1_000_000, 800_000_000);
    assert!(controller.apply_snapshot(snap).is_some());
    let again = full_snapshot(400_000_000, 100_000_000, 1_000_000, 800_000_000);
    assert!(controller.apply_snapshot(again).is_none());
}

#[test]
fn all_zero_first_snapshot_is_silent() {
    let mut controller = LoopController::new(4_000_000);
    let snap = full_snapshot(0, 0, 0, 800_000_000);
    assert!(controller.apply_snapshot(snap).is_none());
}

#[test]
fn loop_past_track_end_is_suppressed() {
    let mut controller = LoopController::new(4_000_000);
    let snap = full_snapshot(800_000_000, 100_000_000, 1_000_000, 800_000_000);
    assert!(controller.apply_snapshot(snap).is_none());
}

#[test]
fn missing_fields_resolve_to_last_applied() {
    let mut controller = LoopController::new(4_000_000);
    let first = full_snapshot(400_000_000, 100_000_000, 1_000_000, 800_000_000);
    assert!(controller.apply_snapshot(first).is_some());
    let partial = GeometrySnapshot {
        loop_position: Some(200_000_000),
        square_height: None,
        square_width: None,
        window_width: None,
    };
    let batch = controller.apply_snapshot(partial).expect("commands expected");
    let (lower, upper) = loop_region(&batch);
    assert_eq!(lower, 1_000_000);
    assert_eq!(upper, 1_000_000 + SMALLEST_LOOP_UPPER_BOUND);
    assert!(matches!(
        batch.pitch.change,
        PlaybackChange::PlaybackRate(781_250)
    ));
}

#[test]
fn swap_track_preserves_geometry() {
    let mut controller = LoopController::new(4_000_000);
    let snap = full_snapshot(400_000_000, 100_000_000, 1_000_000, 800_000_000);
    assert!(controller.apply_snapshot(snap).is_some());
    controller.swap_track(8_000_000);
    assert_eq!(controller.track_duration, 8_000_000);
    let identical = full_snapshot(400_000_000, 100_000_000, 1_000_000, 800_000_000);
    assert!(controller.apply_snapshot(identical).is_none());
    let moved = full_snapshot(600_000_000, 100_000_000, 1_000_000, 800_000_000);
    let batch = controller.apply_snapshot(moved).expect("commands expected");
    let (lower, _) = loop_region(&batch);
    assert_eq!(lower, 6_000_000);
}

use vex_browser::devtools::performance::{FrameRecord, PerformanceState, PipelineStage, MAX_FRAME_RECORDS};
use vex_browser::units::Duration;

fn sample_frame(ms: u64) -> FrameRecord {
    let per_stage = Duration::from_micros(ms * 1000 / 5);
    FrameRecord {
        frame_number: 1,
        parse: per_stage,
        style: per_stage,
        layout: per_stage,
        paint: per_stage,
        script: per_stage,
        other: Duration::zero(),
    }
}

#[test]
fn frame_total() {
    let frame = FrameRecord {
        frame_number: 1,
        parse: Duration::from_millis(2),
        style: Duration::from_millis(3),
        layout: Duration::from_millis(4),
        paint: Duration::from_millis(5),
        script: Duration::from_millis(1),
        other: Duration::from_millis(1),
    };
    assert_eq!(frame.total(), Duration::from_millis(16));
}

#[test]
fn frame_slow_detection() {
    let fast = sample_frame(10);
    assert!(!fast.is_slow());
    let slow = sample_frame(25);
    assert!(slow.is_slow());
}

#[test]
fn stage_duration_lookup() {
    let frame = FrameRecord {
        frame_number: 1,
        parse: Duration::from_millis(1),
        style: Duration::from_millis(2),
        layout: Duration::from_millis(3),
        paint: Duration::from_millis(4),
        script: Duration::from_millis(5),
        other: Duration::from_millis(6),
    };
    assert_eq!(frame.stage_duration(PipelineStage::Parse), Duration::from_millis(1));
    assert_eq!(frame.stage_duration(PipelineStage::Script), Duration::from_millis(5));
}

#[test]
fn recording_lifecycle() {
    let mut state = PerformanceState::new();
    assert!(!state.is_recording());
    state.start_recording();
    assert!(state.is_recording());
    state.record_frame(sample_frame(10));
    assert_eq!(state.frame_count(), 1);
    state.stop_recording();
    state.record_frame(sample_frame(10));
    assert_eq!(state.frame_count(), 1);
}

#[test]
fn record_frame_timings() {
    let mut state = PerformanceState::new();
    state.start_recording();
    state.record_frame_timings(
        Duration::from_millis(1),
        Duration::from_millis(2),
        Duration::from_millis(3),
        Duration::from_millis(4),
        Duration::from_millis(5),
        Duration::from_millis(1),
    );
    assert_eq!(state.frame_count(), 1);
    assert_eq!(state.frames()[0].frame_number, 1);
}

#[test]
fn clear_frames() {
    let mut state = PerformanceState::new();
    state.start_recording();
    state.record_frame(sample_frame(10));
    state.clear();
    assert_eq!(state.frame_count(), 0);
}

#[test]
fn max_frames_trimmed() {
    let mut state = PerformanceState::new();
    state.start_recording();
    for _ in 0..700 {
        state.record_frame(sample_frame(10));
    }
    assert!(state.frame_count() <= MAX_FRAME_RECORDS);
}

#[test]
fn select_frame() {
    let mut state = PerformanceState::new();
    state.start_recording();
    state.record_frame(sample_frame(10));
    state.record_frame(sample_frame(20));
    state.select_frame(1);
    assert!(state.selected_frame().is_some());
    assert!(state.selected_frame().unwrap().is_slow());
    state.deselect_frame();
    assert!(state.selected_frame().is_none());
}

#[test]
fn pipeline_stage_labels() {
    assert_eq!(PipelineStage::Parse.label(), "Parse");
    assert_eq!(PipelineStage::Paint.label(), "Paint");
    assert_eq!(PipelineStage::Script.label(), "Script");
}

#[test]
fn stats_computation() {
    let mut state = PerformanceState::new();
    state.start_recording();
    for _ in 0..10 {
        state.record_frame(sample_frame(10));
    }
    state.record_frame(sample_frame(20));
    let stats = state.stats();
    assert_eq!(stats.frame_count, 11);
    assert_eq!(stats.slow_frame_count, 1);
    assert!(stats.max_frame_time >= Duration::from_millis(20));
    assert_eq!(stats.max_frame_time, state.max_frame_time());
    // (10 * 10 ms + 20 ms) / 11 frames, rounded down to the nanosecond.
    assert_eq!(stats.avg_frame_time, Duration::from_nanos(10_909_090));
    assert_eq!(stats.avg_by_stage[5], (PipelineStage::Other, Duration::zero()));
}

#[test]
fn stats_empty() {
    let state = PerformanceState::new();
    let stats = state.stats();
    assert_eq!(stats.frame_count, 0);
    assert_eq!(stats.avg_frame_time, Duration::zero());
}

#[test]
fn average_matches_std_duration_division() {
    for (total, n) in [(10_000_000_001u64, 3u32), (1_999_999_999, 7), (5, 2), (3_000_000_000, 4)] {
        let ours = Duration::from_nanos(total).div(n).as_nanos();
        let std = (std::time::Duration::from_nanos(total) / n).as_nanos() as u64;
        assert_eq!(ours, std);
    }
}

use ascii_art::pacing::{
    frame_interval_ns, presentation_ns, wait_ns, FrameOutcome, FrameStep, Pacing, VideoPipeline,
};
use ascii_art::playback::{
    step, Active, Pipeline, PlaybackAction, PlaybackCoordinator, PlaybackEvent, PlaybackState,
};

#[test]
fn playback_starts_idle_and_launches_on_start() {
    let mut coordinator = PlaybackCoordinator::new();
    assert_eq!(coordinator.state(), PlaybackState::Idle);
    assert!(!coordinator.over());
    assert!(!coordinator.stop_requested());
    assert_eq!(coordinator.handle(PlaybackEvent::Start), PlaybackAction::Launch);
    assert_eq!(coordinator.state(), PlaybackState::Running(Active::Both));
    assert_eq!(coordinator.handle(PlaybackEvent::Start), PlaybackAction::Nothing);
    assert_eq!(coordinator.state(), PlaybackState::Running(Active::Both));
}

#[test]
fn playback_finishes_when_both_pipelines_end() {
    let mut coordinator = PlaybackCoordinator::new();
    coordinator.handle(PlaybackEvent::Start);
    assert_eq!(
        coordinator.handle(PlaybackEvent::Ended(Pipeline::Video)),
        PlaybackAction::Nothing
    );
    assert_eq!(coordinator.state(), PlaybackState::Running(Active::AudioOnly));
    assert!(!coordinator.over());
    assert_eq!(
        coordinator.handle(PlaybackEvent::Ended(Pipeline::Video)),
        PlaybackAction::Nothing
    );
    assert_eq!(coordinator.state(), PlaybackState::Running(Active::AudioOnly));
    assert_eq!(
        coordinator.handle(PlaybackEvent::Ended(Pipeline::Audio)),
        PlaybackAction::RestoreDisplay
    );
    assert_eq!(coordinator.state(), PlaybackState::Finished);
    assert!(coordinator.over());
    assert!(!coordinator.stop_requested());
}

#[test]
fn playback_finishes_in_either_order() {
    let mut coordinator = PlaybackCoordinator::new();
    coordinator.handle(PlaybackEvent::Start);
    coordinator.handle(PlaybackEvent::Ended(Pipeline::Audio));
    assert_eq!(coordinator.state(), PlaybackState::Running(Active::VideoOnly));
    assert_eq!(
        coordinator.handle(PlaybackEvent::Ended(Pipeline::Video)),
        PlaybackAction::RestoreDisplay
    );
    assert_eq!(coordinator.state(), PlaybackState::Finished);
}

#[test]
fn failed_pipeline_does_not_stop_the_other() {
    let mut coordinator = PlaybackCoordinator::new();
    coordinator.handle(PlaybackEvent::Start);
    assert_eq!(
        coordinator.handle(PlaybackEvent::Failed(Pipeline::Audio)),
        PlaybackAction::Nothing
    );
    assert_eq!(coordinator.state(), PlaybackState::Running(Active::VideoOnly));
    assert!(!coordinator.stop_requested());
    assert_eq!(
        coordinator.handle(PlaybackEvent::Failed(Pipeline::Video)),
        PlaybackAction::RestoreDisplay
    );
    assert_eq!(coordinator.state(), PlaybackState::Finished);
}

#[test]
fn stop_interrupts_a_running_playback() {
    let mut coordinator = PlaybackCoordinator::new();
    coordinator.handle(PlaybackEvent::Start);
    coordinator.handle(PlaybackEvent::Ended(Pipeline::Audio));
    assert_eq!(coordinator.handle(PlaybackEvent::StopRequested), PlaybackAction::RestoreDisplay);
    assert_eq!(coordinator.state(), PlaybackState::Interrupted);
    assert!(coordinator.stop_requested());
    assert!(coordinator.over());
}

#[test]
fn stop_before_start_is_cleared_by_the_start() {
    let mut coordinator = PlaybackCoordinator::new();
    assert_eq!(coordinator.handle(PlaybackEvent::StopRequested), PlaybackAction::Nothing);
    assert_eq!(coordinator.state(), PlaybackState::Idle);
    assert_eq!(coordinator.handle(PlaybackEvent::Ended(Pipeline::Video)), PlaybackAction::Nothing);
    assert_eq!(coordinator.state(), PlaybackState::Idle);
    assert_eq!(coordinator.handle(PlaybackEvent::Start), PlaybackAction::Launch);
    assert!(!coordinator.stop_requested());
}

#[test]
fn finished_and_interrupted_are_final() {
    let events = [
        PlaybackEvent::Start,
        PlaybackEvent::Ended(Pipeline::Video),
        PlaybackEvent::Ended(Pipeline::Audio),
        PlaybackEvent::Failed(Pipeline::Video),
        PlaybackEvent::Failed(Pipeline::Audio),
        PlaybackEvent::StopRequested,
    ];
    for last in [PlaybackState::Finished, PlaybackState::Interrupted] {
        for event in events {
            assert_eq!(step(last, event), (last, PlaybackAction::Nothing));
        }
    }
}

#[test]
fn display_is_restored_exactly_once() {
    let runs: [&[PlaybackEvent]; 3] = [
        &[
            PlaybackEvent::Start,
            PlaybackEvent::Ended(Pipeline::Video),
            PlaybackEvent::Ended(Pipeline::Audio),
            PlaybackEvent::StopRequested,
        ],
        &[
            PlaybackEvent::Start,
            PlaybackEvent::StopRequested,
            PlaybackEvent::Ended(Pipeline::Video),
            PlaybackEvent::Ended(Pipeline::Audio),
        ],
        &[
            PlaybackEvent::Start,
            PlaybackEvent::Failed(Pipeline::Video),
            PlaybackEvent::StopRequested,
            PlaybackEvent::StopRequested,
        ],
    ];
    for events in runs {
        let mut coordinator = PlaybackCoordinator::new();
        let mut restored = 0;
        for event in events {
            if coordinator.handle(*event) == PlaybackAction::RestoreDisplay {
                restored += 1;
            }
        }
        assert_eq!(restored, 1);
        assert!(coordinator.over());
    }
}

#[test]
fn stop_before_the_first_frame_renders_nothing() {
    let mut coordinator = PlaybackCoordinator::new();
    assert_eq!(coordinator.handle(PlaybackEvent::Start), PlaybackAction::Launch);
    let restore = coordinator.handle(PlaybackEvent::StopRequested);
    let mut pipeline = VideoPipeline::new(Pacing::TargetRate { frame_interval_ns: 33_333_333 });
    let step = pipeline.next_frame(coordinator.stop_requested(), 0, 0);
    assert_eq!(step, FrameStep::Exit);
    assert_eq!(pipeline.rendered(), 0);
    assert_eq!(pipeline.failed(), 0);
    assert_eq!(pipeline.timed(), 0);
    assert_eq!(restore, PlaybackAction::RestoreDisplay);
    assert_eq!(coordinator.state(), PlaybackState::Interrupted);
}

#[test]
fn early_frames_wait_and_late_frames_do_not() {
    assert_eq!(wait_ns(1_000, 400), 600);
    assert_eq!(wait_ns(1_000, 1_000), 0);
    assert_eq!(wait_ns(1_000, 5_000), 0);
    assert_eq!(wait_ns(u64::MAX, 0), u64::MAX);
    assert_eq!(wait_ns(0, u64::MAX), 0);
}

#[test]
fn presentation_pacing_goes_by_the_time_stamp() {
    let mut pipeline = VideoPipeline::new(Pacing::Presentation);
    assert_eq!(pipeline.next_frame(false, 0, 0), FrameStep::Present { wait_ns: 0 });
    assert_eq!(
        pipeline.next_frame(false, 40_000_000, 15_000_000),
        FrameStep::Present { wait_ns: 25_000_000 }
    );
    assert_eq!(
        pipeline.next_frame(false, 80_000_000, 95_000_000),
        FrameStep::Present { wait_ns: 0 }
    );
    assert_eq!(
        pipeline.next_frame(false, 120_000_000, 119_999_999),
        FrameStep::Present { wait_ns: 1 }
    );
    assert_eq!(pipeline.timed(), 4);
}

#[test]
fn target_rate_pacing_goes_by_the_frame_count() {
    let mut pipeline = VideoPipeline::new(Pacing::TargetRate { frame_interval_ns: 100 });
    assert_eq!(pipeline.next_frame(false, 999, 0), FrameStep::Present { wait_ns: 0 });
    assert_eq!(pipeline.next_frame(false, 999, 30), FrameStep::Present { wait_ns: 70 });
    assert_eq!(pipeline.next_frame(false, 0, 500), FrameStep::Present { wait_ns: 0 });
    assert_eq!(pipeline.next_frame(false, 0, 250), FrameStep::Present { wait_ns: 50 });
    assert_eq!(pipeline.timed(), 4);
}

#[test]
fn target_rate_due_time_is_held_to_64_bits() {
    let mut pipeline = VideoPipeline::new(Pacing::TargetRate { frame_interval_ns: u64::MAX });
    assert_eq!(pipeline.next_frame(false, 0, 7), FrameStep::Present { wait_ns: 0 });
    assert_eq!(pipeline.next_frame(false, 0, 7), FrameStep::Present { wait_ns: u64::MAX - 7 });
    assert_eq!(pipeline.next_frame(false, 0, 7), FrameStep::Present { wait_ns: u64::MAX - 7 });
}

#[test]
fn no_frame_is_dropped_however_late() {
    let mut pipeline = VideoPipeline::new(Pacing::Presentation);
    for index in 0..100u64 {
        let step = pipeline.next_frame(false, index, 1_000_000_000_000);
        assert_eq!(step, FrameStep::Present { wait_ns: 0 });
        pipeline.record(FrameOutcome::Rendered);
    }
    assert_eq!(pipeline.timed(), 100);
    assert_eq!(pipeline.rendered(), 100);
}

#[test]
fn failed_frames_are_counted_and_playback_goes_on() {
    let mut pipeline = VideoPipeline::new(Pacing::Presentation);
    assert_eq!(pipeline.next_frame(false, 0, 0), FrameStep::Present { wait_ns: 0 });
    pipeline.record(FrameOutcome::Failed);
    assert_eq!(pipeline.next_frame(false, 10, 0), FrameStep::Present { wait_ns: 10 });
    pipeline.record(FrameOutcome::Rendered);
    assert_eq!(pipeline.next_frame(false, 20, 0), FrameStep::Present { wait_ns: 20 });
    pipeline.record(FrameOutcome::Failed);
    assert_eq!(pipeline.failed(), 2);
    assert_eq!(pipeline.rendered(), 1);
    assert_eq!(pipeline.timed(), 3);
}

#[test]
fn stop_is_seen_at_the_next_frame() {
    let mut pipeline = VideoPipeline::new(Pacing::Presentation);
    assert_eq!(pipeline.next_frame(false, 0, 0), FrameStep::Present { wait_ns: 0 });
    pipeline.record(FrameOutcome::Rendered);
    assert_eq!(pipeline.next_frame(true, 10, 0), FrameStep::Exit);
    assert_eq!(pipeline.timed(), 1);
    assert_eq!(pipeline.rendered(), 1);
}

#[test]
fn frame_interval_is_the_floor_of_a_second_over_the_rate() {
    assert_eq!(frame_interval_ns(30, 1), Some(33_333_333));
    assert_eq!(frame_interval_ns(25, 1), Some(40_000_000));
    assert_eq!(frame_interval_ns(30_000, 1_001), Some(33_366_666));
    assert_eq!(frame_interval_ns(1, 1), Some(1_000_000_000));
    assert_eq!(frame_interval_ns(1, u32::MAX), Some(4_294_967_295_000_000_000));
    assert_eq!(frame_interval_ns(7, 0), Some(0));
    assert_eq!(frame_interval_ns(0, 1), None);
    assert_eq!(frame_interval_ns(0, 0), None);
}

#[test]
fn presentation_time_scales_ticks_by_the_time_base() {
    assert_eq!(presentation_ns(3, 1, 30), Some(100_000_000));
    assert_eq!(presentation_ns(0, 1, 30), Some(0));
    assert_eq!(presentation_ns(90_000, 1, 90_000), Some(1_000_000_000));
    assert_eq!(presentation_ns(1, 1, 3), Some(333_333_333));
    assert_eq!(presentation_ns(1_001, 1_001, 30_000), Some(33_400_033_333));
    assert_eq!(presentation_ns(5, 0, 1), Some(0));
    assert_eq!(presentation_ns(5, 1, 0), None);
    assert_eq!(presentation_ns(u64::MAX, 1, 1), None);
    assert_eq!(presentation_ns(u64::MAX, 1, 1_000_000_000), Some(u64::MAX));
    assert_eq!(presentation_ns(u64::MAX, u32::MAX, 1), None);
}

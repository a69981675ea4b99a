use screen_recorder::Recorder;
use screen_recorder::RecorderError;

#[test]
fn start_transitions_idle_to_recording() {
    let mut rec: Recorder<u32> = Recorder::new(true);
    assert!(!rec.is_recording());
    assert_eq!(rec.start(Ok(7), 1000), Ok(()));
    assert!(rec.is_recording());
    assert!(!rec.is_paused());
    assert_eq!(rec.get_duration(1000), 0);
}

#[test]
fn second_start_fails_already_active_and_leaves_state() {
    let mut rec: Recorder<u32> = Recorder::new(true);
    assert_eq!(rec.start(Ok(7), 1000), Ok(()));
    assert_eq!(rec.start(Ok(8), 2000), Err(RecorderError::AlreadyActive));
    assert!(rec.is_recording());
    assert!(!rec.is_paused());
    assert_eq!(rec.get_duration(3000), 2000);
}

#[test]
fn failed_spawn_reports_reason_and_stays_idle() {
    let mut rec: Recorder<u32> = Recorder::new(true);
    let r = rec.start(Err("No such file or directory".to_string()), 1000);
    assert_eq!(
        r,
        Err(RecorderError::SpawnFailed(
            "No such file or directory".to_string()
        ))
    );
    assert!(!rec.is_recording());
    assert_eq!(rec.get_duration(5000), 0);
    assert_eq!(
        r.unwrap_err().message(),
        "Failed to start ffmpeg: No such file or directory"
    );
}

#[test]
fn stop_on_idle_fails_not_active() {
    let mut rec: Recorder<u32> = Recorder::new(true);
    assert_eq!(rec.stop(), Err(RecorderError::NotActive));
}

#[test]
fn stop_returns_handle_and_ends_idle() {
    let mut rec: Recorder<u32> = Recorder::new(true);
    assert_eq!(rec.start(Ok(42), 1000), Ok(()));
    assert_eq!(rec.stop(), Ok(42));
    assert!(!rec.is_recording());
    assert!(!rec.is_paused());
    assert_eq!(rec.get_duration(9000), 0);
}

#[test]
fn stop_while_paused_ends_idle() {
    let mut rec: Recorder<u32> = Recorder::new(true);
    assert_eq!(rec.start(Ok(42), 1000), Ok(()));
    assert_eq!(rec.pause(2000), Ok(()));
    assert_eq!(rec.stop(), Ok(42));
    assert!(!rec.is_recording());
    assert!(!rec.is_paused());
    assert_eq!(rec.get_duration(9000), 0);
}

#[test]
fn pause_freezes_elapsed_and_resume_continues_from_frozen_value() {
    let mut rec: Recorder<u32> = Recorder::new(true);
    assert_eq!(rec.start(Ok(1), 1000), Ok(()));
    assert_eq!(rec.get_duration(1500), 500);
    assert_eq!(rec.pause(2000), Ok(()));
    assert!(rec.is_paused());
    assert_eq!(rec.get_duration(2000), 1000);
    assert_eq!(rec.get_duration(3000), 1000);
    assert_eq!(rec.get_duration(9999), 1000);
    assert_eq!(rec.resume(2600), Ok(()));
    assert!(!rec.is_paused());
    assert_eq!(rec.get_duration(2600), 1000);
    assert_eq!(rec.get_duration(3100), 1500);
}

#[test]
fn repeated_pause_cycles_accumulate_additively() {
    let mut rec: Recorder<u32> = Recorder::new(true);
    assert_eq!(rec.start(Ok(1), 1000), Ok(()));
    assert_eq!(rec.pause(2000), Ok(()));
    assert_eq!(rec.resume(2300), Ok(()));
    assert_eq!(rec.pause(4000), Ok(()));
    assert_eq!(rec.resume(4700), Ok(()));
    // Paused for 300 + 700 = 1000 ms in total.
    assert_eq!(rec.get_duration(5000), 5000 - 1000 - 1000);
    assert_eq!(rec.get_duration(6000), 6000 - 1000 - 1000);
}

#[test]
fn pause_while_paused_fails_already_paused() {
    let mut rec: Recorder<u32> = Recorder::new(true);
    assert_eq!(rec.start(Ok(1), 1000), Ok(()));
    assert_eq!(rec.pause(2000), Ok(()));
    assert_eq!(rec.pause(2500), Err(RecorderError::AlreadyPaused));
    assert!(rec.is_paused());
    assert_eq!(rec.get_duration(3000), 1000);
}

#[test]
fn resume_while_recording_fails_not_paused() {
    let mut rec: Recorder<u32> = Recorder::new(true);
    assert_eq!(rec.start(Ok(1), 1000), Ok(()));
    assert_eq!(rec.resume(2000), Err(RecorderError::NotPaused));
    assert!(rec.is_recording());
    assert!(!rec.is_paused());
}

#[test]
fn pause_and_resume_on_idle_fail_not_active() {
    let mut rec: Recorder<u32> = Recorder::new(true);
    assert_eq!(rec.pause(1000), Err(RecorderError::NotActive));
    assert_eq!(rec.resume(1000), Err(RecorderError::NotActive));
}

#[test]
fn unsupported_platform_refuses_pause_and_resume() {
    let mut rec: Recorder<u32> = Recorder::new(false);
    assert_eq!(rec.start(Ok(1), 1000), Ok(()));
    assert_eq!(rec.pause(2000), Err(RecorderError::UnsupportedOperation));
    assert!(!rec.is_paused());
    assert_eq!(rec.resume(2500), Err(RecorderError::UnsupportedOperation));
    assert!(rec.is_recording());
    assert_eq!(rec.get_duration(3000), 2000);
}

#[test]
fn elapsed_is_zero_before_any_start_and_after_stop() {
    let mut rec: Recorder<u32> = Recorder::new(true);
    assert_eq!(rec.get_duration(0), 0);
    assert_eq!(rec.get_duration(123_456), 0);
    assert_eq!(rec.start(Ok(1), 1000), Ok(()));
    assert_eq!(rec.stop(), Ok(1));
    assert_eq!(rec.get_duration(123_456), 0);
}

#[test]
fn elapsed_saturates_at_zero_on_clock_anomaly() {
    let mut rec: Recorder<u32> = Recorder::new(true);
    assert_eq!(rec.start(Ok(1), 5000), Ok(()));
    assert_eq!(rec.get_duration(4000), 0);
}

#[test]
fn a_new_session_resets_the_clock() {
    let mut rec: Recorder<u32> = Recorder::new(true);
    assert_eq!(rec.start(Ok(1), 1000), Ok(()));
    assert_eq!(rec.pause(2000), Ok(()));
    assert_eq!(rec.resume(3000), Ok(()));
    assert_eq!(rec.stop(), Ok(1));
    assert_eq!(rec.start(Ok(2), 10_000), Ok(()));
    assert_eq!(rec.get_duration(10_250), 250);
}

#[test]
fn error_messages_match_their_kinds() {
    assert_eq!(RecorderError::AlreadyActive.message(), "Already recording");
    assert_eq!(RecorderError::NotActive.message(), "Not recording");
    assert_eq!(RecorderError::AlreadyPaused.message(), "Already paused");
    assert_eq!(RecorderError::NotPaused.message(), "Not paused");
    assert_eq!(
        RecorderError::SpawnFailed("boom".to_string()).message(),
        "Failed to start ffmpeg: boom"
    );
    assert_eq!(
        RecorderError::UnsupportedOperation.message(),
        "Operation not supported on this platform"
    );
}

use screen_recorder::shutdown;
use screen_recorder::shutdown::GracefulRequest;
use screen_recorder::shutdown::PollOutcome;
use screen_recorder::shutdown::StopAction;
use screen_recorder::text;
use screen_recorder::Platform;

#[test]
fn graceful_request_differs_by_platform() {
    assert_eq!(
        shutdown::graceful_request(Platform::Windows),
        GracefulRequest::WriteStopCharacter
    );
    assert_eq!(
        shutdown::graceful_request(Platform::Unix),
        GracefulRequest::TerminationSignal
    );
    assert_eq!(shutdown::STOP_CHARACTER, 'q');
}

#[test]
fn an_exited_child_ends_the_wait() {
    assert_eq!(
        shutdown::stop_step(1000, 1000, PollOutcome::Exited),
        StopAction::Finished
    );
    assert_eq!(
        shutdown::stop_step(1000, 99_000, PollOutcome::Exited),
        StopAction::Finished
    );
}

#[test]
fn a_running_child_is_polled_until_the_grace_period_ends() {
    assert_eq!(
        shutdown::stop_step(1000, 1000, PollOutcome::StillRunning),
        StopAction::PollAgainAfterSleep
    );
    assert_eq!(
        shutdown::stop_step(1000, 5999, PollOutcome::StillRunning),
        StopAction::PollAgainAfterSleep
    );
    assert_eq!(
        shutdown::stop_step(1000, 6000, PollOutcome::StillRunning),
        StopAction::KillAndReap
    );
    assert_eq!(
        shutdown::stop_step(1000, 90_000, PollOutcome::StillRunning),
        StopAction::KillAndReap
    );
}

#[test]
fn a_failed_poll_escalates_to_a_forced_kill() {
    assert_eq!(
        shutdown::stop_step(1000, 1000, PollOutcome::PollFailed),
        StopAction::KillAndReap
    );
}

#[test]
fn a_clock_anomaly_ends_the_wait_rather_than_extending_it() {
    // The poll instant reads before the wait began: the saturating
    // subtraction makes the elapsed wait zero, so polling goes on, and the
    // deadline still falls at most one grace period after the larger instant.
    assert_eq!(
        shutdown::stop_step(7000, 3000, PollOutcome::StillRunning),
        StopAction::PollAgainAfterSleep
    );
}

#[test]
fn unsigned_decimal_rendering_is_exact() {
    assert_eq!(text::u64_to_string(0), "0");
    assert_eq!(text::u64_to_string(7), "7");
    assert_eq!(text::u64_to_string(30), "30");
    assert_eq!(text::u64_to_string(1280), "1280");
    assert_eq!(text::u64_to_string(1000000), "1000000");
    assert_eq!(text::u64_to_string(u64::MAX), "18446744073709551615");
}

#[test]
fn signed_decimal_rendering_is_exact() {
    assert_eq!(text::i64_to_string(0), "0");
    assert_eq!(text::i64_to_string(50), "50");
    assert_eq!(text::i64_to_string(-1), "-1");
    assert_eq!(text::i64_to_string(-1080), "-1080");
    assert_eq!(text::i64_to_string(i64::MIN), "-9223372036854775808");
    assert_eq!(text::i64_to_string(i64::MAX), "9223372036854775807");
}

use xv_lidar::source::{react, ReadOutcome, Reaction};
use xv_lidar::sync::SyncState;

#[test]
fn timeout_between_frames_is_silent() {
    assert_eq!(react(SyncState::WaitForStart, ReadOutcome::TimedOut, 1, 0), Reaction::Retry);
    assert_eq!(react(SyncState::WaitForIndex, ReadOutcome::TimedOut, 1, 0), Reaction::Retry);
}

#[test]
fn failure_between_frames_is_reported() {
    assert_eq!(react(SyncState::WaitForStart, ReadOutcome::IoError, 1, 0), Reaction::Report);
    assert_eq!(react(SyncState::WaitForIndex, ReadOutcome::IoError, 1, 0), Reaction::Report);
}

#[test]
fn byte_between_frames_is_fed() {
    assert_eq!(react(SyncState::WaitForStart, ReadOutcome::Success, 1, 1), Reaction::Feed);
    assert_eq!(react(SyncState::WaitForIndex, ReadOutcome::Success, 1, 1), Reaction::Feed);
}

#[test]
fn success_between_frames_is_taken_at_its_word() {
    assert_eq!(react(SyncState::WaitForStart, ReadOutcome::Success, 1, 0), Reaction::Feed);
    assert_eq!(react(SyncState::WaitForIndex, ReadOutcome::Success, 1, 0), Reaction::Feed);
}

#[test]
fn full_read_inside_a_body_is_fed() {
    assert_eq!(react(SyncState::ReadPacket, ReadOutcome::Success, 2, 2), Reaction::Feed);
    assert_eq!(react(SyncState::ReadPacket, ReadOutcome::Success, 4, 4), Reaction::Feed);
}

#[test]
fn short_read_inside_a_body_breaks_the_stream() {
    assert_eq!(react(SyncState::ReadPacket, ReadOutcome::Success, 4, 3), Reaction::Abort);
    assert_eq!(react(SyncState::ReadPacket, ReadOutcome::Success, 2, 0), Reaction::Abort);
}

#[test]
fn timeout_inside_a_body_breaks_the_stream() {
    assert_eq!(react(SyncState::ReadPacket, ReadOutcome::TimedOut, 4, 0), Reaction::Abort);
    assert_eq!(react(SyncState::ReadPacket, ReadOutcome::TimedOut, 4, 4), Reaction::Abort);
}

#[test]
fn failure_inside_a_body_breaks_the_stream() {
    assert_eq!(react(SyncState::ReadPacket, ReadOutcome::IoError, 2, 0), Reaction::Abort);
    assert_eq!(react(SyncState::ReadPacket, ReadOutcome::IoError, 2, 2), Reaction::Abort);
}

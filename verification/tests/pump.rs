use carillon_server::carddav::pump::{PollAction, PollChange, PollDriver, PollOnce};
use carillon_server::imap::pump::{run_on_io, run_on_request, WatchAction, WatchEnd, WatchIo, WatchPump, WatchRequest};
use carillon_server::pump::{Action, IoResult, PumpError, Request};

fn change(invalid_token: bool, changed: bool, truncated: bool, state: Option<&str>) -> PollChange {
    PollChange { invalid_token, changed, truncated, state: state.map(|s| s.to_string()) }
}

#[test]
fn pump_error_messages() {
    assert_eq!(PumpError::WriteFailed.message(), "write failed");
    assert_eq!(PumpError::ReadFailed.message(), "read failed");
    assert_eq!(PumpError::ClosedByPeer.message(), "connection closed by peer");
    assert_eq!(PumpError::ChannelClosed.message(), "delivery channel closed");
}

#[test]
fn one_shot_pump_follows_the_coroutine() {
    assert!(matches!(run_on_request::<u8>(Request::WantsWrite(vec![1, 2])), Action::Write(b) if b == vec![1, 2]));
    assert!(matches!(run_on_request::<u8>(Request::WantsRead), Action::Read));
    assert!(matches!(run_on_request::<u8>(Request::Complete(7)), Action::Return(Ok(7))));
    assert!(matches!(run_on_io::<u8>(IoResult::Written), Action::Resume(None)));
    assert!(matches!(run_on_io::<u8>(IoResult::Read(12)), Action::Resume(Some(12))));
}

#[test]
fn one_shot_pump_fails_on_eof_and_io_errors() {
    assert!(matches!(run_on_io::<u8>(IoResult::Read(0)), Action::Return(Err(PumpError::ClosedByPeer))));
    assert!(matches!(run_on_io::<u8>(IoResult::ReadFailed), Action::Return(Err(PumpError::ReadFailed))));
    assert!(matches!(run_on_io::<u8>(IoResult::WriteFailed), Action::Return(Err(PumpError::WriteFailed))));
}

#[test]
fn watch_pump_rings_one_content_free_event_per_change() {
    let pump = WatchPump::new("watch-9", "INBOX");
    match pump.on_request::<()>(WatchRequest::Changed("3:17".to_string())) {
        WatchAction::Deliver(ev) => {
            assert_eq!(ev.account, "watch-9");
            assert_eq!(ev.source, "imap");
            assert_eq!(ev.target, "INBOX");
            assert_eq!(ev.state.as_deref(), Some("3:17"));
            assert_eq!(ev.id.len(), 32);
        }
        other => panic!("unexpected {:?}", other),
    }
    assert!(matches!(pump.on_io::<()>(WatchIo::Delivered), WatchAction::Resume(None)));
    assert!(matches!(
        pump.on_io::<()>(WatchIo::DeliveryFailed),
        WatchAction::Return(WatchEnd::Failed(PumpError::ChannelClosed))
    ));
}

#[test]
fn watch_pump_refreshes_after_silence_and_fails_on_eof() {
    let pump = WatchPump::new("w", "INBOX");
    assert!(matches!(pump.on_io::<()>(WatchIo::ReadTimedOut), WatchAction::Return(WatchEnd::Refresh)));
    assert!(matches!(
        pump.on_io::<()>(WatchIo::Read(0)),
        WatchAction::Return(WatchEnd::Failed(PumpError::ClosedByPeer))
    ));
    assert!(matches!(pump.on_io::<()>(WatchIo::Read(5)), WatchAction::Resume(Some(5))));
    assert!(matches!(pump.on_io::<()>(WatchIo::Written), WatchAction::Resume(None)));
    assert!(matches!(pump.on_request::<u8>(WatchRequest::WantsRead), WatchAction::Read));
    assert!(matches!(pump.on_request::<u8>(WatchRequest::Done(3)), WatchAction::Return(WatchEnd::Finished(3))));
}

#[test]
fn poll_driver_hands_eof_over_once_then_fails() {
    let mut driver = PollDriver::new();
    assert!(matches!(driver.on_request::<()>(Request::WantsRead), Action::Read));
    assert!(matches!(driver.on_io::<()>(IoResult::Read(10)), Action::Resume(Some(10))));
    assert!(matches!(driver.on_request::<()>(Request::WantsRead), Action::Read));
    assert!(matches!(driver.on_io::<()>(IoResult::Read(0)), Action::Resume(Some(0))));
    assert!(matches!(
        driver.on_request::<()>(Request::WantsRead),
        Action::Return(Err(PumpError::ClosedByPeer))
    ));
    assert!(matches!(driver.on_request::<u8>(Request::Complete(1)), Action::Return(Ok(1))));
}

#[test]
fn baseline_poll_checkpoints_without_ringing() {
    let (mut poll, first) = PollOnce::new("w", "/ab/", None);
    assert!(matches!(first, PollAction::Exchange(None)));
    let action = poll.on_round(change(false, true, false, Some("t1")));
    assert!(matches!(action, PollAction::Finish(Ok(Some(ref t))) if t == "t1"));
}

#[test]
fn baseline_poll_drains_truncated_results_without_ringing() {
    let (mut poll, _) = PollOnce::new("w", "/ab/", None);
    let a = poll.on_round(change(false, true, true, Some("t1")));
    assert!(matches!(a, PollAction::Exchange(Some(ref t)) if t == "t1"));
    let b = poll.on_round(change(false, true, false, Some("t2")));
    assert!(matches!(b, PollAction::Finish(Ok(Some(ref t))) if t == "t2"));
}

#[test]
fn later_poll_rings_once_with_the_new_token() {
    let (mut poll, first) = PollOnce::new("watch-3", "/ab/", Some("t0".to_string()));
    assert!(matches!(first, PollAction::Exchange(Some(ref t)) if t == "t0"));
    match poll.on_round(change(false, true, false, Some("t1"))) {
        PollAction::Deliver(ev) => {
            assert_eq!(ev.account, "watch-3");
            assert_eq!(ev.source, "carddav");
            assert_eq!(ev.target, "/ab/");
            assert_eq!(ev.state.as_deref(), Some("t1"));
        }
        other => panic!("unexpected {:?}", other),
    }
    assert!(matches!(poll.on_delivery(true), PollAction::Finish(Ok(Some(ref t))) if t == "t1"));
}

#[test]
fn unchanged_poll_keeps_the_token() {
    let (mut poll, _) = PollOnce::new("w", "/ab/", Some("t0".to_string()));
    let action = poll.on_round(change(false, false, false, None));
    assert!(matches!(action, PollAction::Finish(Ok(Some(ref t))) if t == "t0"));
}

#[test]
fn rejected_token_asks_for_a_fresh_baseline() {
    let (mut poll, _) = PollOnce::new("w", "/ab/", Some("stale".to_string()));
    assert!(matches!(poll.on_round(change(true, true, true, Some("x"))), PollAction::Finish(Ok(None))));
}

#[test]
fn truncated_result_is_drained_with_a_ring_per_round() {
    let (mut poll, _) = PollOnce::new("w", "/ab/", Some("t0".to_string()));
    assert!(matches!(poll.on_round(change(false, true, true, Some("t1"))), PollAction::Deliver(_)));
    assert!(matches!(poll.on_delivery(true), PollAction::Exchange(Some(ref t)) if t == "t1"));
    assert!(matches!(poll.on_round(change(false, true, false, Some("t2"))), PollAction::Deliver(_)));
    assert!(matches!(poll.on_delivery(true), PollAction::Finish(Ok(Some(ref t))) if t == "t2"));
}

#[test]
fn truncated_result_without_a_new_token_stops() {
    let (mut poll, _) = PollOnce::new("w", "/ab/", Some("t0".to_string()));
    assert!(matches!(
        poll.on_round(change(false, false, true, Some("t0"))),
        PollAction::Finish(Ok(Some(ref t))) if t == "t0"
    ));
}

#[test]
fn closed_delivery_channel_ends_the_poll() {
    let (mut poll, _) = PollOnce::new("w", "/ab/", Some("t0".to_string()));
    assert!(matches!(poll.on_round(change(false, true, false, Some("t1"))), PollAction::Deliver(_)));
    assert!(matches!(poll.on_delivery(false), PollAction::Finish(Err(PumpError::ChannelClosed))));
}

use pflex_module_rs::commands::TCSCommand;
use pflex_module_rs::error_codes::TcsError;
use pflex_module_rs::response::ResponseOutcome;
use pflex_module_rs::tcs_client::{
    server_address, Phase, ReadEvent, Step, TCSClient, DEFAULT_TIMEOUT_MS, MAX_RESPONSE_LEN,
};

fn connected(timeout_ms: Option<u64>) -> TCSClient {
    let mut tcs = TCSClient::new();
    tcs.on_connected(timeout_ms);
    tcs
}

fn args(items: &[&str]) -> Vec<String> {
    items.iter().map(|s| s.to_string()).collect()
}

#[test]
fn make_new() {
    let _tcs = TCSClient::new();
}

#[test]
fn new_client_is_disconnected() {
    let tcs = TCSClient::new();
    assert!(!tcs.is_connected());
    assert_eq!(tcs.phase(), Phase::Disconnected);
    assert_eq!(tcs.read_timeout_ms(), DEFAULT_TIMEOUT_MS);
    assert_eq!(tcs.write_timeout_ms(), 5000);
}

#[test]
fn connect_sets_timeouts() {
    let tcs = connected(None);
    assert!(tcs.is_connected());
    assert_eq!(tcs.read_timeout_ms(), 5000);
    assert_eq!(tcs.write_timeout_ms(), 5000);
    let tcs = connected(Some(250));
    assert_eq!(tcs.read_timeout_ms(), 250);
    assert_eq!(tcs.write_timeout_ms(), 250);
}

#[test]
fn address_has_port() {
    assert_eq!(server_address("10.1.4.23"), "10.1.4.23:10100");
    assert_eq!(server_address("0.0.0.0"), "0.0.0.0:10100");
}

#[test]
fn disconnect_twice_is_safe() {
    let mut tcs = connected(None);
    assert_eq!(tcs.disconnect(), Ok(()));
    assert!(!tcs.is_connected());
    assert_eq!(tcs.disconnect(), Err(TcsError::NotConnected));
    assert_eq!(tcs.disconnect(), Err(TcsError::NotConnected));
    assert_eq!(tcs.phase(), Phase::Disconnected);
}

#[test]
fn request_without_connection() {
    let mut tcs = TCSClient::new();
    let r = tcs.start_request(TCSCommand::NoOp, &args(&[]), true, None);
    assert_eq!(r, Err(TcsError::NotConnected));
    assert_eq!(tcs.phase(), Phase::Disconnected);
}

#[test]
fn power_on_success() {
    let mut tcs = connected(None);
    let line = tcs.start_request(TCSCommand::Power, &args(&["1"]), true, None);
    assert_eq!(line, Ok("hp 1\n".to_string()));
    assert_eq!(tcs.phase(), Phase::Sending);
    assert_eq!(tcs.write_finished(true), Step::Read(5000));
    assert_eq!(tcs.phase(), Phase::Receiving);
    let step = tcs.read_finished(ReadEvent::Data(b"0 \r\n".to_vec()));
    assert_eq!(step, Step::Done(Ok(ResponseOutcome::Success(vec![]))));
    assert_eq!(tcs.phase(), Phase::Idle);
}

#[test]
fn select_invalid_robot() {
    let mut tcs = connected(None);
    let line = tcs.start_request(TCSCommand::Select, &args(&["1"]), true, None);
    assert_eq!(line, Ok("selectRobot 1\n".to_string()));
    assert_eq!(tcs.write_finished(true), Step::Read(5000));
    let step = tcs.read_finished(ReadEvent::Data(b"-1 Invalid robot index\r\n".to_vec()));
    assert_eq!(step, Step::Done(Ok(ResponseOutcome::Error(-1, None))));
}

#[test]
fn homing_status_query() {
    let mut tcs = connected(None);
    let line = tcs.start_request(TCSCommand::GetParam, &args(&["2800", "1", "0", "1"]), true, None);
    assert_eq!(line, Ok("pd 2800 1 0 1\n".to_string()));
    assert_eq!(tcs.write_finished(true), Step::Read(5000));
    let step = tcs.read_finished(ReadEvent::Data(b"0 1\r\n".to_vec()));
    assert_eq!(step, Step::Done(Ok(ResponseOutcome::Success(vec!["1".to_string()]))));
}

#[test]
fn no_op_times_out() {
    let mut tcs = connected(Some(1000));
    let line = tcs.start_request(TCSCommand::NoOp, &args(&[]), true, None);
    assert_eq!(line, Ok("nop\n".to_string()));
    assert_eq!(tcs.write_finished(true), Step::Read(1000));
    assert_eq!(tcs.read_finished(ReadEvent::TimedOut), Step::Done(Err(TcsError::Timeout)));
    assert_eq!(tcs.phase(), Phase::Idle);
    assert!(tcs.is_connected());
}

#[test]
fn timeout_after_partial_response() {
    let mut tcs = connected(None);
    tcs.start_request(TCSCommand::Loc, &args(&[]), true, None).unwrap();
    assert_eq!(tcs.write_finished(true), Step::Read(5000));
    assert_eq!(tcs.read_finished(ReadEvent::Data(b"0 1 300".to_vec())), Step::Read(5000));
    assert_eq!(tcs.read_finished(ReadEvent::TimedOut), Step::Done(Err(TcsError::Timeout)));
}

#[test]
fn override_applies_to_one_call() {
    let mut tcs = connected(None);
    tcs.start_request(TCSCommand::WaitForEOM, &args(&[]), true, Some(60000)).unwrap();
    assert_eq!(tcs.write_finished(true), Step::Read(60000));
    tcs.read_finished(ReadEvent::Data(b"0 \r\n".to_vec()));
    tcs.start_request(TCSCommand::NoOp, &args(&[]), true, None).unwrap();
    assert_eq!(tcs.write_finished(true), Step::Read(5000));
}

#[test]
fn set_read_timeout_applies_to_later_calls() {
    let mut tcs = connected(None);
    tcs.set_read_timeout(750);
    assert_eq!(tcs.read_timeout_ms(), 750);
    assert_eq!(tcs.write_timeout_ms(), 5000);
    tcs.start_request(TCSCommand::NoOp, &args(&[]), true, None).unwrap();
    assert_eq!(tcs.write_finished(true), Step::Read(750));
}

#[test]
fn fire_and_forget_reads_nothing() {
    let mut tcs = connected(None);
    let line = tcs.start_request(TCSCommand::Exit, &args(&[]), false, None);
    assert_eq!(line, Ok("exit\n".to_string()));
    assert_eq!(tcs.write_finished(true), Step::Done(Ok(ResponseOutcome::Success(vec![]))));
    assert_eq!(tcs.phase(), Phase::Idle);
}

#[test]
fn response_across_reads() {
    let mut tcs = connected(None);
    tcs.start_request(TCSCommand::GetLocJoints, &args(&[]), true, None).unwrap();
    tcs.write_finished(true);
    assert_eq!(tcs.read_finished(ReadEvent::Data(b"0 1.5 ".to_vec())), Step::Read(5000));
    assert_eq!(tcs.read_finished(ReadEvent::Data(b"2\r".to_vec())), Step::Read(5000));
    let step = tcs.read_finished(ReadEvent::Data(b"\n".to_vec()));
    assert_eq!(
        step,
        Step::Done(Ok(ResponseOutcome::Success(vec!["1.5".to_string(), "2".to_string()])))
    );
}

#[test]
fn warning_keeps_payload() {
    let mut tcs = connected(None);
    tcs.start_request(TCSCommand::Home, &args(&[]), true, None).unwrap();
    tcs.write_finished(true);
    let step = tcs.read_finished(ReadEvent::Data(b"1 a b\r\n".to_vec()));
    assert_eq!(
        step,
        Step::Done(Ok(ResponseOutcome::Warning(vec!["a".to_string(), "b".to_string()])))
    );
}

#[test]
fn write_failure_drops_connection() {
    let mut tcs = connected(None);
    tcs.start_request(TCSCommand::Halt, &args(&[]), false, None).unwrap();
    assert_eq!(tcs.write_finished(false), Step::Done(Err(TcsError::Io)));
    assert!(!tcs.is_connected());
    let r = tcs.start_request(TCSCommand::NoOp, &args(&[]), true, None);
    assert_eq!(r, Err(TcsError::NotConnected));
}

#[test]
fn closed_and_failed_reads_drop_connection() {
    let mut tcs = connected(None);
    tcs.start_request(TCSCommand::NoOp, &args(&[]), true, None).unwrap();
    tcs.write_finished(true);
    assert_eq!(tcs.read_finished(ReadEvent::Closed), Step::Done(Err(TcsError::Io)));
    assert_eq!(tcs.phase(), Phase::Disconnected);
    tcs.on_connected(None);
    tcs.start_request(TCSCommand::NoOp, &args(&[]), true, None).unwrap();
    tcs.write_finished(true);
    assert_eq!(tcs.read_finished(ReadEvent::Failed), Step::Done(Err(TcsError::Io)));
    assert_eq!(tcs.phase(), Phase::Disconnected);
}

#[test]
fn oversized_response_is_protocol_error() {
    let mut tcs = connected(None);
    tcs.start_request(TCSCommand::NoOp, &args(&[]), true, None).unwrap();
    tcs.write_finished(true);
    let filler = vec![b'x'; MAX_RESPONSE_LEN];
    assert_eq!(tcs.read_finished(ReadEvent::Data(filler)), Step::Read(5000));
    assert_eq!(
        tcs.read_finished(ReadEvent::Data(b"y".to_vec())),
        Step::Done(Err(TcsError::Protocol))
    );
    assert_eq!(tcs.phase(), Phase::Idle);
}

#[test]
fn power_not_enabled_reply() {
    let mut tcs = connected(None);
    tcs.start_request(TCSCommand::Move, &args(&["1", "2"]), true, None).unwrap();
    tcs.write_finished(true);
    let step = tcs.read_finished(ReadEvent::Data(b"-1046 Robot power not enabled\r\n".to_vec()));
    assert_eq!(
        step,
        Step::Done(Ok(ResponseOutcome::Error(
            -1046,
            Some(pflex_module_rs::response::Condition::PowerNotEnabled)
        )))
    );
}

#[test]
fn one_read_keeps_every_field() {
    let mut tcs = connected(None);
    tcs.start_request(TCSCommand::GetLocCart, &args(&[]), true, None).unwrap();
    assert_eq!(tcs.write_finished(true), Step::Read(5000));
    let step = tcs.read_finished(ReadEvent::Data("0 300 -0.5 150 x\u{e9} 90 -180\r\n".as_bytes().to_vec()));
    assert_eq!(
        step,
        Step::Done(Ok(ResponseOutcome::Success(args(&["300", "-0.5", "150", "x\u{e9}", "90", "-180"]))))
    );
    assert_eq!(tcs.phase(), Phase::Idle);
}

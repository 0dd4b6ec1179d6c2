use pflex_module_rs::codec::encode;
use pflex_module_rs::commands::TCSCommand;
use pflex_module_rs::enums::ParamIDs;
use pflex_module_rs::error_codes::TcsError;
use pflex_module_rs::pflex::{attached_from_reply, speed_from_reply, Rail};
use pflex_module_rs::response::{classify, decode, find_terminator, read_reply, Condition, ResponseOutcome};
use pflex_module_rs::text::{decimal_string, parse_i32};

fn strings(items: &[&str]) -> Vec<String> {
    items.iter().map(|s| s.to_string()).collect()
}

#[test]
fn encode_power_on() {
    assert_eq!(encode(TCSCommand::Power, &strings(&["1"])), "hp 1\n");
}

#[test]
fn encode_without_arguments() {
    assert_eq!(encode(TCSCommand::NoOp, &strings(&[])), "nop\n");
    assert_eq!(encode(TCSCommand::WaitForEOM, &strings(&[])), "waitForEOM\n");
}

#[test]
fn encode_many_arguments() {
    assert_eq!(
        encode(TCSCommand::GetParam, &strings(&["2800", "1", "0", "1"])),
        "pd 2800 1 0 1\n"
    );
    assert_eq!(
        encode(TCSCommand::MoveRail, &strings(&["1", "1", "300"])),
        "moveRail 1 1 300\n"
    );
}

#[test]
fn encoded_line_splits_back() {
    let cases: Vec<(TCSCommand, Vec<String>)> = vec![
        (TCSCommand::LocXyz, strings(&["7", "1.5", "-2", "300", "0", "90", "-180"])),
        (TCSCommand::Select, strings(&["1"])),
        (TCSCommand::Exit, strings(&[])),
        (TCSCommand::Profile, strings(&["1", "50", "0", "50", "50", "0.1", "0.1", "10", "0"])),
    ];
    for (command, args) in cases {
        let line = encode(command, &args);
        let fields: Vec<&str> = line.trim().split_whitespace().collect();
        assert_eq!(fields[0], command.as_str());
        assert_eq!(fields[1..].to_vec(), args.iter().map(|s| s.as_str()).collect::<Vec<&str>>());
    }
}

#[test]
fn command_words() {
    assert_eq!(TCSCommand::Select.to_string(), "selectRobot");
    assert_eq!(TCSCommand::GetLocCart.as_str(), "wherec");
    assert_eq!(TCSCommand::GetLocJoints.as_str(), "wherej");
    assert_eq!(TCSCommand::MoveToCart.as_str(), "movec");
    assert_eq!(TCSCommand::MotionState.as_str(), "state");
    assert_eq!(TCSCommand::LocXyz.as_str(), "locXYZ");
}

#[test]
fn param_ids() {
    assert_eq!(ParamIDs::HomingStatus.value(), 2800);
    assert_eq!(ParamIDs::LastError.value(), 320);
    assert_eq!(ParamIDs::HomingStatus.to_string(), "2800");
    assert_eq!(ParamIDs::LastError.to_string(), "320");
}

#[test]
fn decimal_text() {
    assert_eq!(decimal_string(0), "0");
    assert_eq!(decimal_string(10100), "10100");
    assert_eq!(decimal_string(-1046), "-1046");
    assert_eq!(decimal_string(i32::MIN), "-2147483648");
    assert_eq!(decimal_string(i32::MAX), "2147483647");
}

#[test]
fn integer_parsing() {
    assert_eq!(parse_i32("0"), Some(0));
    assert_eq!(parse_i32("-1046"), Some(-1046));
    assert_eq!(parse_i32("+5"), Some(5));
    assert_eq!(parse_i32("007"), Some(7));
    assert_eq!(parse_i32("-2147483648"), Some(i32::MIN));
    assert_eq!(parse_i32("2147483647"), Some(i32::MAX));
    assert_eq!(parse_i32("2147483648"), None);
    assert_eq!(parse_i32("-2147483649"), None);
    assert_eq!(parse_i32("99999999999999999999"), None);
    assert_eq!(parse_i32(""), None);
    assert_eq!(parse_i32("-"), None);
    assert_eq!(parse_i32("+"), None);
    assert_eq!(parse_i32(" 1"), None);
    assert_eq!(parse_i32("1a"), None);
    assert_eq!(parse_i32("--1"), None);
    for n in [-6942069, -1, 0, 1, 42, 2800] {
        assert_eq!(parse_i32(&decimal_string(n)), Some(n));
        assert_eq!(parse_i32(&n.to_string()), n.to_string().parse::<i32>().ok());
    }
}

#[test]
fn terminator_search() {
    assert_eq!(find_terminator(b"0 1\r\n"), Some(3));
    assert_eq!(find_terminator(b"\r\n"), Some(0));
    assert_eq!(find_terminator(b"0 1\r"), None);
    assert_eq!(find_terminator(b"0\n1\r\n2\r\n"), Some(3));
    assert_eq!(find_terminator(b""), None);
}

#[test]
fn decode_fields() {
    assert_eq!(decode(b"0 1"), Ok(strings(&["0", "1"])));
    assert_eq!(decode(b"0 "), Ok(strings(&["0"])));
    assert_eq!(decode(b"0  1"), Ok(strings(&["0", "", "1"])));
    assert_eq!(decode(b""), Ok(strings(&[])));
    assert_eq!(decode("0 \u{e9}t\u{e9}".as_bytes()), Ok(strings(&["0", "\u{e9}t\u{e9}"])));
    assert_eq!(decode(b"0 \xff"), Err(TcsError::Protocol));
}

#[test]
fn classify_codes() {
    assert_eq!(
        classify(&strings(&["0", "a", "b"])),
        Ok(ResponseOutcome::Success(strings(&["a", "b"])))
    );
    assert_eq!(classify(&strings(&["1"])), Ok(ResponseOutcome::Warning(strings(&[]))));
    assert_eq!(
        classify(&strings(&["-1046", "x"])),
        Ok(ResponseOutcome::Error(-1046, Some(Condition::PowerNotEnabled)))
    );
    assert_eq!(
        classify(&strings(&["-6942069", "x"])),
        Ok(ResponseOutcome::Error(-6942069, None))
    );
    assert_eq!(classify(&strings(&["2", "x"])), Ok(ResponseOutcome::Error(2, None)));
    assert_eq!(classify(&strings(&[])), Err(TcsError::Protocol));
    assert_eq!(classify(&strings(&["ok"])), Err(TcsError::Protocol));
}

#[test]
fn read_reply_lines() {
    assert_eq!(read_reply(b"0 \r\n"), Some(Ok(ResponseOutcome::Success(vec![]))));
    assert_eq!(read_reply(b"0 1"), None);
    assert_eq!(
        read_reply(b"-1 Invalid robot index\r\n"),
        Some(Ok(ResponseOutcome::Error(-1, None)))
    );
    assert_eq!(
        read_reply(b"0 1\r\n0 2\r\n"),
        Some(Ok(ResponseOutcome::Success(strings(&["1"]))))
    );
    assert_eq!(read_reply(b"\r\n"), Some(Err(TcsError::Protocol)));
    assert_eq!(read_reply(b"zero\r\n"), Some(Err(TcsError::Protocol)));
}

#[test]
fn attached_reply() {
    assert_eq!(attached_from_reply(&strings(&["0"])), Ok(false));
    assert_eq!(attached_from_reply(&strings(&["1"])), Ok(true));
    assert_eq!(attached_from_reply(&strings(&["00"])), Ok(true));
    assert_eq!(attached_from_reply(&strings(&[])), Err(TcsError::Protocol));
}

#[test]
fn speed_reply() {
    assert_eq!(speed_from_reply(&strings(&["50"])), Ok(50));
    assert_eq!(speed_from_reply(&strings(&["fast"])), Err(TcsError::Protocol));
    assert_eq!(speed_from_reply(&strings(&[])), Err(TcsError::Protocol));
}

#[test]
fn rail_presence() {
    assert!(Rail::new(true).is_present());
    assert!(!Rail::new(false).is_present());
}

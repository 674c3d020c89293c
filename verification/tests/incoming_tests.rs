use slonk::incoming::{render_command_json, Command, Error};

/// Parse a whole message held in memory and keep only the command.
fn parse_helper(message: &str) -> Result<Command, Error> {
    Command::parse(message.as_bytes()).map(|(cmd, _consumed)| cmd)
}

#[test]
fn bad_command() {
    let message = r#"{
            "type": "GARBAGE"
        }"#;

    let Err(Error::Malformed(s)) = parse_helper(message) else { panic!() };
    let slice: &[u8] = message.as_ref();

    assert_eq!(&s, slice);
}

#[test]
fn actuate() {
    let message = r#"{
            "type": "Actuate",
            "driver_id": 0,
            "value": true
        }"#;
    assert_eq!(
        parse_helper(message).unwrap(),
        Command::Actuate { driver_id: 0, value: true }
    );
}

#[test]
fn ignition() {
    let message = r#"{
            "type": "Ignition"
        }"#;
    assert_eq!(parse_helper(message).unwrap(), Command::Ignition);
}

#[test]
fn estop() {
    let message = r#"{
            "type": "EmergencyStop"
        }"#;
    assert_eq!(parse_helper(message).unwrap(), Command::EmergencyStop);
}

#[test]
fn truncated_message_waits_for_more() {
    let message = r#"{"type": "Igni"#;
    assert_eq!(parse_helper(message), Err(Error::SourceClosed));
}

#[test]
fn close_brace_before_object() {
    let message = "}garbage";
    let Err(Error::Malformed(s)) = parse_helper(message) else { panic!() };
    assert_eq!(s, b"}");
}

#[test]
fn consumed_stops_at_object_end() {
    let message = r#"{"type":"Ignition"}{"type":"EmergencyStop"}"#;
    let (cmd, consumed) = Command::parse(message.as_bytes()).unwrap();
    assert_eq!(cmd, Command::Ignition);
    assert_eq!(consumed, r#"{"type":"Ignition"}"#.len());
    let (cmd2, _) = Command::parse(&message.as_bytes()[consumed..]).unwrap();
    assert_eq!(cmd2, Command::EmergencyStop);
}

#[test]
fn braces_inside_strings_do_not_count() {
    // the closing brace inside the string must not end the object early
    let message = r#"{"type": "}{GARBAGE\"}"}"#;
    let Err(Error::Malformed(s)) = parse_helper(message) else { panic!() };
    assert_eq!(s, message.as_bytes());
}

#[test]
fn render_parse_round_trip() {
    let commands = [
        Command::Actuate { driver_id: 0, value: true },
        Command::Actuate { driver_id: 7, value: false },
        Command::Actuate { driver_id: 255, value: true },
        Command::Ignition,
        Command::EmergencyStop,
    ];
    for cmd in commands {
        let rendered = render_command_json(&cmd);
        let (parsed, consumed) = Command::parse(&rendered).unwrap();
        assert_eq!(parsed, cmd);
        assert_eq!(consumed, rendered.len());
    }
}

#[test]
fn noncanonical_driver_id_rejected() {
    // JSON forbids leading zeroes, and the decoder holds to that
    let message = r#"{"type":"Actuate","driver_id":007,"value":true}"#;
    assert!(matches!(parse_helper(message), Err(Error::Malformed(_))));
    // a driver ID beyond a byte is no command either
    let message = r#"{"type":"Actuate","driver_id":256,"value":true}"#;
    assert!(matches!(parse_helper(message), Err(Error::Malformed(_))));
}

#[test]
fn leading_bytes_stay_with_the_object() {
    // bytes before the opening brace are consumed with the object and make
    // it malformed, exactly as a brace-balanced reader sees them
    let message = "xx{\"type\":\"Ignition\"}";
    let Err(Error::Malformed(s)) = parse_helper(message) else { panic!() };
    assert_eq!(s, message.as_bytes());
}

#[test]
fn reordered_fields_accepted() {
    // field order carries no meaning
    let message = r#"{"driver_id":3,"type":"Actuate","value":true}"#;
    assert_eq!(
        parse_helper(message).unwrap(),
        Command::Actuate { driver_id: 3, value: true }
    );
    let message = r#"{"value":false,"driver_id":250,"type":"Actuate"}"#;
    assert_eq!(
        parse_helper(message).unwrap(),
        Command::Actuate { driver_id: 250, value: false }
    );
    let message = r#"{"value":true,"type":"Actuate","driver_id":0}"#;
    assert_eq!(
        parse_helper(message).unwrap(),
        Command::Actuate { driver_id: 0, value: true }
    );
}

#[test]
fn whitespace_outside_strings_is_insignificant() {
    let message = "{ \"type\" :\t\"EmergencyStop\" }";
    assert_eq!(parse_helper(message).unwrap(), Command::EmergencyStop);
}

#[test]
fn whitespace_inside_strings_is_content() {
    // a field named `ty pe` names no command field; the whitespace inside
    // the string must not be eaten
    let message = r#"{"ty pe":"Ignition"}"#;
    assert!(matches!(parse_helper(message), Err(Error::Malformed(_))));
    let message = r#"{"type":"Emergency Stop"}"#;
    assert!(matches!(parse_helper(message), Err(Error::Malformed(_))));
}

#[test]
fn duplicate_fields_rejected() {
    let message = r#"{"type":"Ignition","type":"Ignition"}"#;
    assert!(matches!(parse_helper(message), Err(Error::Malformed(_))));
}

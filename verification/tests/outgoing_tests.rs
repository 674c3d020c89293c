use slonk::outgoing::{
    serialize_message, DashChannel, Message, SensorReading, Timestamp,
};

/// Check that the serialized result is the same as the expected result,
/// independent of whitespace or key ordering.
fn serialize_helper(expected: &str, message: &Message) {
    let out = serialize_message(message);
    let message_value: serde_json::Value = serde_json::from_slice(&out).unwrap();
    let expected_value: serde_json::Value = serde_json::from_str(expected).unwrap();

    assert_eq!(message_value, expected_value);
}

#[test]
fn serialize_sensor_value() {
    serialize_helper(
        r#"{
            "type": "SensorValue",
            "group_id": 0,
            "readings": [
                {
                    "sensor_id": 0,
                    "reading": 3456,
                    "time": {
                        "secs_since_epoch": 1651355351,
                        "nanos_since_epoch": 534000000
                    }
                }
            ]
        }"#,
        &Message::SensorValue {
            group_id: 0,
            readings: vec![SensorReading {
                sensor_id: 0,
                reading: 3456,
                time: Timestamp {
                    secs_since_epoch: 1_651_355_351,
                    nanos_since_epoch: 534_000_000,
                },
            }],
        },
    );
}

#[test]
fn serialize_driver_value() {
    serialize_helper(
        r#"{
            "type": "DriverValue",
            "values": [
                false,
                true,
                false
            ]
        }"#,
        &Message::DriverValue { values: vec![false, true, false] },
    );
}

#[test]
fn send_appends_one_log_line() {
    let mut channel = DashChannel::new();
    assert!(!channel.has_target());

    let message = Message::DriverValue { values: vec![true] };
    let outcome = channel.send(&message, 123_456_789);

    // no dashboard is connected, so nothing goes onto the wire
    assert!(outcome.live_payload.is_none());

    // the sent-log gains exactly one line: the timestamp, a comma, and the
    // byte-for-byte JSON of the message
    let record = String::from_utf8(outcome.log_record).unwrap();
    assert_eq!(record.matches('\n').count(), 1);
    assert!(record.ends_with('\n'));
    let (timestamp, rest) = record.split_once(',').unwrap();
    assert_eq!(timestamp, "123456789");
    let json = String::from_utf8(serialize_message(&message)).unwrap();
    assert_eq!(rest, format!("{json}\n"));
}

#[test]
fn send_to_live_target() {
    let mut channel = DashChannel::new();
    channel.set_channel(true);
    assert!(channel.has_target());

    let message = Message::DriverValue { values: vec![false, true] };
    let outcome = channel.send(&message, 7);

    let payload = outcome.live_payload.unwrap();
    assert_eq!(payload, serialize_message(&message));
    // losing the client clears the target
    channel.set_channel(false);
    assert!(!channel.has_target());
    let outcome = channel.send(&message, 8);
    assert!(outcome.live_payload.is_none());
}

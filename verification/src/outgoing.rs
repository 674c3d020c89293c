//! The "outbound" parts of the API, which travel from controller to
//! dashboard.
//!
//! Telemetry messages are serialized to JSON here, byte for byte, and the
//! dashboard channel decides what goes onto the wire and what goes into the
//! sent-message log.  The shell owns the actual socket and log file: it
//! takes the byte buffers this module hands back and writes them out, and it
//! tells the channel when a client connects, disconnects, or stops
//! accepting writes.

use crate::text::ascii_bytes;
use crate::text::bool_bytes;
use crate::text::dec_bytes;
use crate::text::push_ascii;
use crate::text::push_bool;
use crate::text::push_dec_u64;
use vstd::prelude::*;

verus! {

/// A moment in time, in seconds and nanoseconds since the UNIX epoch.
#[derive(Debug, Clone, Copy, PartialEq, Eq, Structural)]
pub struct Timestamp {
    /// Whole seconds since the UNIX epoch.
    pub secs_since_epoch: u64,
    /// Nanoseconds beyond the whole seconds.
    pub nanos_since_epoch: u32,
}

/// The timestamp `nanos` nanoseconds after the UNIX epoch.
pub open spec fn timestamp_of_nanos(nanos: u64) -> Timestamp {
    Timestamp {
        secs_since_epoch: (nanos / 1_000_000_000) as u64,
        nanos_since_epoch: (nanos % 1_000_000_000) as u32,
    }
}

/// Split a nanosecond count since the UNIX epoch into a [`Timestamp`].
pub fn nanos_to_timestamp(nanos: u64) -> (time: Timestamp)
    ensures
        time == timestamp_of_nanos(nanos),
{
    Timestamp {
        secs_since_epoch: nanos / 1_000_000_000,
        nanos_since_epoch: (nanos % 1_000_000_000) as u32,
    }
}

/// An individual reading on a sensor.
#[derive(Debug, Clone, Copy, PartialEq, Eq, Structural)]
pub struct SensorReading {
    /// The ID of the sensor within the group that created this reading.
    pub sensor_id: u8,
    /// The value read on the sensor.
    pub reading: u16,
    /// The time at which the sensor reading was created.
    pub time: Timestamp,
}

/// The set of telemetry messages which can be sent from the controller to
/// the dashboard.
///
/// The one-off `Config` greeting that a freshly connected client receives
/// carries the full configuration, floating-point calibration included, so
/// the shell renders that one; the periodic messages below are the
/// controller's own.
#[derive(Debug, PartialEq, Eq)]
pub enum Message {
    /// A sensor valuation message: raw ADC values with the times they were
    /// taken.
    SensorValue {
        /// The group which generated the readings.
        group_id: u8,
        /// The readings which were created.
        readings: Vec<SensorReading>,
    },
    /// A driver values message, describing the logic levels of the drivers
    /// on the controller.
    DriverValue {
        /// The logic level of each driver.  Each index corresponds to the
        /// driver at the same index in the configuration.
        values: Vec<bool>,
    },
}

/// The JSON rendering of a timestamp.
pub open spec fn json_timestamp(time: Timestamp) -> Seq<u8> {
    ascii_bytes("{\"secs_since_epoch\":"@) + dec_bytes(time.secs_since_epoch as nat) + ascii_bytes(
        ",\"nanos_since_epoch\":"@,
    ) + dec_bytes(time.nanos_since_epoch as nat) + ascii_bytes("}"@)
}

/// The JSON rendering of a single sensor reading.
pub open spec fn json_reading(reading: SensorReading) -> Seq<u8> {
    ascii_bytes("{\"sensor_id\":"@) + dec_bytes(reading.sensor_id as nat) + ascii_bytes(
        ",\"reading\":"@,
    ) + dec_bytes(reading.reading as nat) + ascii_bytes(",\"time\":"@) + json_timestamp(
        reading.time,
    ) + ascii_bytes("}"@)
}

/// The comma-separated JSON renderings of a list of sensor readings.
pub open spec fn json_readings(readings: Seq<SensorReading>) -> Seq<u8>
    decreases readings.len(),
{
    if readings.len() == 0 {
        Seq::empty()
    } else if readings.len() == 1 {
        json_reading(readings[0])
    } else {
        json_readings(readings.drop_last()) + ascii_bytes(","@) + json_reading(readings.last())
    }
}

/// The comma-separated renderings of a list of logic levels.
pub open spec fn json_bools(values: Seq<bool>) -> Seq<u8>
    decreases values.len(),
{
    if values.len() == 0 {
        Seq::empty()
    } else if values.len() == 1 {
        bool_bytes(values[0])
    } else {
        json_bools(values.drop_last()) + ascii_bytes(","@) + bool_bytes(values.last())
    }
}

/// The JSON rendering of a telemetry message, tagged by `type`, with fields
/// in declaration order and no whitespace.
pub open spec fn json_message(message: Message) -> Seq<u8> {
    match message {
        Message::SensorValue { group_id, readings } => ascii_bytes(
            "{\"type\":\"SensorValue\",\"group_id\":"@,
        ) + dec_bytes(group_id as nat) + ascii_bytes(",\"readings\":["@) + json_readings(readings@)
            + ascii_bytes("]}"@),
        Message::DriverValue { values } => ascii_bytes("{\"type\":\"DriverValue\",\"values\":["@)
            + json_bools(values@) + ascii_bytes("]}"@),
    }
}

/// Append the JSON rendering of `time` to `buf`.
fn push_timestamp(buf: &mut Vec<u8>, time: &Timestamp)
    ensures
        final(buf)@ == old(buf)@ + json_timestamp(*time),
{
    proof {
        reveal_strlit("{\"secs_since_epoch\":");
        reveal_strlit(",\"nanos_since_epoch\":");
        reveal_strlit("}");
    }
    push_ascii(buf, "{\"secs_since_epoch\":");
    push_dec_u64(buf, time.secs_since_epoch);
    push_ascii(buf, ",\"nanos_since_epoch\":");
    push_dec_u64(buf, time.nanos_since_epoch as u64);
    push_ascii(buf, "}");
}

/// Append the JSON rendering of `reading` to `buf`.
fn push_reading(buf: &mut Vec<u8>, reading: &SensorReading)
    ensures
        final(buf)@ == old(buf)@ + json_reading(*reading),
{
    proof {
        reveal_strlit("{\"sensor_id\":");
        reveal_strlit(",\"reading\":");
        reveal_strlit(",\"time\":");
        reveal_strlit("}");
    }
    push_ascii(buf, "{\"sensor_id\":");
    push_dec_u64(buf, reading.sensor_id as u64);
    push_ascii(buf, ",\"reading\":");
    push_dec_u64(buf, reading.reading as u64);
    push_ascii(buf, ",\"time\":");
    push_timestamp(buf, &reading.time);
    push_ascii(buf, "}");
}

/// Serialize a telemetry message to its JSON bytes.
pub fn serialize_message(message: &Message) -> (out: Vec<u8>)
    ensures
        out@ == json_message(*message),
{
    let mut out: Vec<u8> = Vec::new();
    proof {
        reveal_strlit("{\"type\":\"SensorValue\",\"group_id\":");
        reveal_strlit(",\"readings\":[");
        reveal_strlit("{\"type\":\"DriverValue\",\"values\":[");
        reveal_strlit(",");
        reveal_strlit("]}");
    }
    match message {
        Message::SensorValue { group_id, readings } => {
            push_ascii(&mut out, "{\"type\":\"SensorValue\",\"group_id\":");
            push_dec_u64(&mut out, *group_id as u64);
            push_ascii(&mut out, ",\"readings\":[");
            let ghost prefix = out@;
            let n = readings.len();
            let mut i: usize = 0;
            while i < n
                invariant
                    n == readings@.len(),
                    i <= n,
                    out@ == prefix + json_readings(readings@.take(i as int)),
                decreases n - i,
            {
                if i > 0 {
                    proof {
                        reveal_strlit(",");
                    }
                    push_ascii(&mut out, ",");
                }
                push_reading(&mut out, &readings[i]);
                proof {
                    let t = readings@.take(i + 1);
                    assert(t.drop_last() =~= readings@.take(i as int));
                    assert(t.last() == readings@[i as int]);
                    assert(out@ =~= prefix + json_readings(readings@.take(i + 1)));
                }
                i += 1;
            }
            proof {
                assert(readings@.take(n as int) =~= readings@);
            }
            push_ascii(&mut out, "]}");
        }
        Message::DriverValue { values } => {
            push_ascii(&mut out, "{\"type\":\"DriverValue\",\"values\":[");
            let ghost prefix = out@;
            let n = values.len();
            let mut i: usize = 0;
            while i < n
                invariant
                    n == values@.len(),
                    i <= n,
                    out@ == prefix + json_bools(values@.take(i as int)),
                decreases n - i,
            {
                if i > 0 {
                    proof {
                        reveal_strlit(",");
                    }
                    push_ascii(&mut out, ",");
                }
                push_bool(&mut out, values[i]);
                proof {
                    let t = values@.take(i + 1);
                    assert(t.drop_last() =~= values@.take(i as int));
                    assert(t.last() == values@[i as int]);
                    assert(out@ =~= prefix + json_bools(values@.take(i + 1)));
                }
                i += 1;
            }
            proof {
                assert(values@.take(n as int) =~= values@);
            }
            push_ascii(&mut out, "]}");
        }
    }
    out
}

/// The record appended to the sent-message log for a message sent at
/// `timestamp_ns`: the timestamp, a comma, the message's JSON, and a
/// newline.
pub open spec fn sent_log_record(timestamp_ns: u64, message: Message) -> Seq<u8> {
    dec_bytes(timestamp_ns as nat) + ascii_bytes(","@) + json_message(message) + ascii_bytes(
        "\n"@,
    )
}

/// The errors which can occur when writing an outgoing message.
#[derive(Debug, Clone, Copy, PartialEq, Eq, Structural)]
pub enum Error {
    /// The shell failed to write to the message log (possibly because it
    /// was deleted?).
    LogFile,
    /// A lock was poisoned.
    Poison,
}

/// What one send produced: the bytes for the live dashboard connection, if
/// one is installed, and the record for the sent-message log.
#[derive(Debug, PartialEq, Eq)]
pub struct SendOutcome {
    /// The message's JSON, to go onto the wire; absent when no dashboard is
    /// connected.
    pub live_payload: Option<Vec<u8>>,
    /// The record to append to the sent-message log.
    pub log_record: Vec<u8>,
}

/// A channel which can write to the dashboard.
///
/// The channel knows whether a live dashboard connection is installed and
/// renders everything that is to be written; the shell performs the actual
/// writes.  When a write to the live connection fails, the shell clears the
/// channel (the dashboard is gone) and carries on: losing the live
/// connection is never an error, the sent-message log is authoritative.
pub struct DashChannel {
    /// Whether a live dashboard connection is installed.
    live: bool,
}

impl DashChannel {
    /// Whether a live dashboard connection is installed.
    pub closed spec fn has_live(&self) -> bool {
        self.live
    }

    /// Construct a new `DashChannel` with no outgoing connection.
    #[must_use]
    pub fn new() -> (channel: DashChannel)
        ensures
            !channel.has_live(),
    {
        DashChannel { live: false }
    }

    /// Determine whether this channel actually has a target to send
    /// messages to.
    #[must_use]
    pub fn has_target(&self) -> (has: bool)
        ensures
            has == self.has_live(),
    {
        self.live
    }

    /// Install (`true`) or clear (`false`) the live connection.
    ///
    /// The shell calls this with `true` when a dashboard client connects,
    /// and with `false` when the client disconnects or a write to it fails.
    pub fn set_channel(&mut self, connected: bool)
        ensures
            final(self).has_live() == connected,
    {
        self.live = connected;
    }

    /// Prepare a message for sending at time `timestamp_ns`.
    ///
    /// The returned outcome always carries the sent-log record - the
    /// timestamp, a comma, the message's JSON and a newline - and carries
    /// the JSON itself for the wire exactly when a live connection is
    /// installed.
    pub fn send(&mut self, message: &Message, timestamp_ns: u64) -> (outcome: SendOutcome)
        ensures
            *final(self) == *old(self),
            outcome.log_record@ == sent_log_record(timestamp_ns, *message),
            old(self).has_live() ==> (outcome.live_payload matches Some(payload) && payload@
                == json_message(*message)),
            !old(self).has_live() ==> outcome.live_payload is None,
    {
        let json = serialize_message(message);
        let mut log_record: Vec<u8> = Vec::new();
        push_dec_u64(&mut log_record, timestamp_ns);
        proof {
            reveal_strlit(",");
            reveal_strlit("\n");
        }
        push_ascii(&mut log_record, ",");
        log_record.extend_from_slice(json.as_slice());
        push_ascii(&mut log_record, "\n");
        proof {
            assert(log_record@ =~= sent_log_record(timestamp_ns, *message));
        }
        let live_payload = if self.live {
            Some(json)
        } else {
            None
        };
        SendOutcome { live_payload, log_record }
    }
}

} // verus!

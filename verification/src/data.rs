//! The bookkeeping behind the sensor data collection threads.
//!
//! A sensor-group listener loops forever: sample every sensor, check the
//! rolling average against the safe band, transmit fresh readings, flush
//! full log queues, sleep.  The loop, the ADC locking, the file writes and
//! the floating-point rolling average belong to the shell; everything the
//! loop decides and remembers between iterations - the per-sensor log
//! queues, the not-yet-transmitted readings, and the exact bytes of every
//! log row - lives here.

use crate::config::TimeSpan;
use crate::outgoing::timestamp_of_nanos;
use crate::state::State;
use crate::outgoing::Message;
use crate::outgoing::SensorReading;
use crate::text::ascii_bytes;
use crate::text::bool_bytes;
use crate::text::dec_bytes;
use crate::text::push_ascii;
use crate::text::push_bool;
use crate::text::push_dec_u64;
use vstd::prelude::*;

verus! {

/// Whether the timestamps of `entries` never decrease.
pub open spec fn times_nondecreasing(entries: Seq<(u64, u16)>) -> bool {
    forall|i: int| 0 < i < entries.len() ==> (#[trigger] entries[i]).0 >= entries[i - 1].0
}

/// The telemetry readings held in `latest`: one reading per sensor that has
/// an unsent sample, in sensor order, each carrying its sensor's index.
pub open spec fn telemetry_of(latest: Seq<Option<(u64, u16)>>) -> Seq<SensorReading>
    decreases latest.len(),
{
    if latest.len() == 0 {
        Seq::empty()
    } else {
        telemetry_of(latest.drop_last()) + match latest.last() {
            Some((time, raw)) => seq![
                SensorReading {
                    sensor_id: (latest.len() - 1) as u8,
                    reading: raw,
                    time: timestamp_of_nanos(time),
                },
            ],
            None => Seq::empty(),
        }
    }
}

/// The per-sensor state a group listener carries between iterations.
///
/// For every sensor of the group there is a queue of not-yet-flushed
/// `(timestamp, raw)` samples and the latest not-yet-transmitted reading.
/// A ghost record additionally keeps everything already flushed, so the
/// whole content of each sensor's log file is speakable: it is what was
/// flushed so far, and its timestamps never decrease.
pub struct GroupRuntime {
    /// Per sensor, the samples not yet flushed to its log file; the oldest
    /// at the front.
    queues: Vec<Vec<(u64, u16)>>,
    /// Per sensor, the latest reading not yet sent to the dashboard, if
    /// any.
    latest: Vec<Option<(u64, u16)>>,
    /// Per sensor, every sample already flushed to its log file.
    flushed: Ghost<Seq<Seq<(u64, u16)>>>,
}

impl GroupRuntime {
    /// The number of sensors in the group.
    pub closed spec fn n_sensors(&self) -> nat {
        self.queues@.len()
    }

    /// The samples not yet flushed for sensor `sensor`, oldest first.
    pub closed spec fn queue(&self, sensor: int) -> Seq<(u64, u16)> {
        self.queues@[sensor]@
    }

    /// The latest unsent reading of sensor `sensor`.
    pub closed spec fn latest(&self, sensor: int) -> Option<(u64, u16)> {
        self.latest@[sensor]
    }

    /// All latest unsent readings, in sensor order.
    pub closed spec fn latest_all(&self) -> Seq<Option<(u64, u16)>> {
        self.latest@
    }

    /// Everything flushed to sensor `sensor`'s log file so far.
    pub closed spec fn flushed(&self, sensor: int) -> Seq<(u64, u16)> {
        self.flushed@[sensor]
    }

    /// The flushed record of every sensor.
    pub closed spec fn flushed_all(&self) -> Seq<Seq<(u64, u16)>> {
        self.flushed@
    }

    /// The full content of sensor `sensor`'s log, flushed and pending: what
    /// the log file will hold once the queue is flushed.
    pub open spec fn log_of(&self, sensor: int) -> Seq<(u64, u16)> {
        self.flushed(sensor) + self.queue(sensor)
    }

    /// The runtime's invariant: one queue and one latest slot per sensor,
    /// and every sensor's log - flushed part plus pending queue - in
    /// non-decreasing time order.
    pub open spec fn wf(&self) -> bool {
        &&& self.latest_all().len() == self.n_sensors()
        &&& self.flushed_all().len() == self.n_sensors()
        &&& forall|s: int| 0 <= s < self.n_sensors() ==> times_nondecreasing(#[trigger] self.log_of(s))
    }

    /// Construct the runtime for a group of `n_sensors` sensors: empty
    /// queues, nothing to transmit, nothing flushed.
    #[must_use]
    pub fn new(n_sensors: usize) -> (runtime: GroupRuntime)
        ensures
            runtime.wf(),
            runtime.n_sensors() == n_sensors,
            forall|s: int| 0 <= s < n_sensors ==> #[trigger] runtime.queue(s) == Seq::<(u64, u16)>::empty(),
            forall|s: int| 0 <= s < n_sensors ==> #[trigger] runtime.latest(s) is None,
            forall|s: int|
                0 <= s < n_sensors ==> #[trigger] runtime.flushed(s) == Seq::<(u64, u16)>::empty(),
    {
        let mut queues: Vec<Vec<(u64, u16)>> = Vec::new();
        let mut latest: Vec<Option<(u64, u16)>> = Vec::new();
        let mut i: usize = 0;
        while i < n_sensors
            invariant
                i <= n_sensors,
                queues@.len() == i,
                latest@.len() == i,
                forall|s: int| 0 <= s < i ==> (#[trigger] queues@[s])@ == Seq::<(u64, u16)>::empty(),
                forall|s: int| 0 <= s < i ==> #[trigger] latest@[s] is None,
            decreases n_sensors - i,
        {
            queues.push(Vec::new());
            latest.push(None);
            i += 1;
        }
        let ghost flushed = Seq::new(n_sensors as nat, |s: int| Seq::<(u64, u16)>::empty());
        GroupRuntime { queues, latest, flushed: Ghost(flushed) }
    }

    /// Whether sensor `sensor`'s queue has reached the flush threshold.
    #[must_use]
    pub fn should_flush(&self, sensor: usize, threshold: usize) -> (flush: bool)
        requires
            (sensor as nat) < self.n_sensors(),
        ensures
            flush == (self.queue(sensor as int).len() >= threshold),
    {
        self.queues[sensor].len() >= threshold
    }

    /// The number of samples waiting in sensor `sensor`'s queue.
    #[must_use]
    pub fn queue_len(&self, sensor: usize) -> (len: usize)
        requires
            (sensor as nat) < self.n_sensors(),
        ensures
            len == self.queue(sensor as int).len(),
    {
        self.queues[sensor].len()
    }

    /// Record one sample of sensor `sensor`: put it at the tail of the
    /// sensor's log queue and remember it as the sensor's latest unsent
    /// reading.
    ///
    /// Within one listener, sampling is sequential, so each sensor's
    /// timestamps never decrease; the caller hands timestamps in
    /// non-decreasing order per sensor and the log stays sorted.
    pub fn record_sample(&mut self, sensor: usize, timestamp_ns: u64, raw: u16)
        requires
            old(self).wf(),
            (sensor as nat) < old(self).n_sensors(),
            old(self).log_of(sensor as int).len() > 0 ==> old(self).log_of(
                sensor as int,
            ).last().0 <= timestamp_ns,
        ensures
            final(self).wf(),
            final(self).n_sensors() == old(self).n_sensors(),
            final(self).queue(sensor as int) == old(self).queue(sensor as int).push(
                (timestamp_ns, raw),
            ),
            final(self).latest(sensor as int) == Some((timestamp_ns, raw)),
            final(self).flushed_all() == old(self).flushed_all(),
            forall|s: int|
                0 <= s < old(self).n_sensors() && s != sensor ==> #[trigger] final(self).queue(s)
                    == old(self).queue(s),
            forall|s: int|
                0 <= s < old(self).n_sensors() && s != sensor ==> #[trigger] final(self).latest(s)
                    == old(self).latest(s),
    {
        let queue = &mut self.queues[sensor];
        queue.push((timestamp_ns, raw));
        self.latest[sensor] = Some((timestamp_ns, raw));
        proof {
            assert forall|s: int| 0 <= s < final(self).n_sensors() implies times_nondecreasing(
                #[trigger] final(self).log_of(s),
            ) by {
                if s == sensor {
                    let pre = old(self).log_of(s);
                    let post = final(self).log_of(s);
                    assert(post =~= pre.push((timestamp_ns, raw)));
                    assert forall|i: int| 0 < i < post.len() implies (#[trigger] post[i]).0 >= post[
                        i - 1
                    ].0 by {
                        if i < pre.len() {
                            assert(pre[i] == post[i] && pre[i - 1] == post[i - 1]);
                        } else {
                            assert(post[i] == (timestamp_ns, raw));
                            assert(post[i - 1] == pre.last());
                        }
                    }
                } else {
                    assert(final(self).log_of(s) == old(self).log_of(s));
                }
            }
        }
    }

    /// Take every unsent reading for transmission, leaving none behind.
    ///
    /// The returned readings carry their sensor's index as `sensor_id`, in
    /// strictly increasing order, so a `SensorValue` message built from
    /// them never names a sensor outside the group and never names one
    /// twice.
    pub fn take_telemetry(&mut self) -> (readings: Vec<SensorReading>)
        requires
            old(self).wf(),
            old(self).n_sensors() < 256,
        ensures
            final(self).wf(),
            final(self).n_sensors() == old(self).n_sensors(),
            readings@ == telemetry_of(old(self).latest_all()),
            forall|s: int| 0 <= s < final(self).n_sensors() ==> #[trigger] final(self).latest(s) is None,
            forall|s: int|
                0 <= s < old(self).n_sensors() ==> #[trigger] final(self).queue(s) == old(
                    self,
                ).queue(s),
            final(self).flushed_all() == old(self).flushed_all(),
    {
        let mut readings: Vec<SensorReading> = Vec::new();
        let n = self.latest.len();
        let mut i: usize = 0;
        while i < n
            invariant
                old(self).wf(),
                n == old(self).n_sensors(),
                n < 256,
                i <= n,
                self.queues@ == old(self).queues@,
                self.flushed@ == old(self).flushed@,
                self.latest@.len() == n,
                forall|s: int| 0 <= s < i ==> #[trigger] self.latest@[s] is None,
                forall|s: int| i <= s < n ==> #[trigger] self.latest@[s] == old(self).latest@[s],
                readings@ == telemetry_of(old(self).latest_all().take(i as int)),
            decreases n - i,
        {
            match self.latest[i] {
                Some((time, raw)) => {
                    let reading = SensorReading {
                        sensor_id: i as u8,
                        reading: raw,
                        time: crate::outgoing::nanos_to_timestamp(time),
                    };
                    readings.push(reading);
                    self.latest[i] = None;
                }
                None => {}
            }
            proof {
                let t = old(self).latest_all().take(i + 1);
                assert(t.drop_last() =~= old(self).latest_all().take(i as int));
                assert(t.last() == old(self).latest_all()[i as int]);
                assert(readings@ =~= telemetry_of(old(self).latest_all().take(i + 1)));
            }
            i += 1;
        }
        proof {
            assert(old(self).latest_all().take(n as int) =~= old(self).latest_all());
            assert forall|s: int| 0 <= s < final(self).n_sensors() implies times_nondecreasing(
                #[trigger] final(self).log_of(s),
            ) by {
                assert(final(self).log_of(s) == old(self).log_of(s));
            }
        }
        readings
    }

    /// Hand over sensor `sensor`'s queued samples for flushing and clear
    /// the queue; the handed-over samples count as flushed from here on.
    pub fn take_flush(&mut self, sensor: usize) -> (samples: Vec<(u64, u16)>)
        requires
            old(self).wf(),
            (sensor as nat) < old(self).n_sensors(),
        ensures
            final(self).wf(),
            final(self).n_sensors() == old(self).n_sensors(),
            samples@ == old(self).queue(sensor as int),
            final(self).queue(sensor as int) == Seq::<(u64, u16)>::empty(),
            final(self).flushed(sensor as int) == old(self).flushed(sensor as int) + samples@,
            final(self).log_of(sensor as int) == old(self).log_of(sensor as int),
            forall|s: int|
                0 <= s < old(self).n_sensors() && s != sensor ==> #[trigger] final(self).queue(s)
                    == old(self).queue(s) && final(self).flushed(s) == old(self).flushed(s),
            final(self).latest_all() == old(self).latest_all(),
    {
        let mut samples: Vec<(u64, u16)> = Vec::new();
        let queue = &mut self.queues[sensor];
        core::mem::swap(&mut samples, queue);
        proof {
            self.flushed@ = self.flushed@.update(
                sensor as int,
                self.flushed@[sensor as int] + samples@,
            );
            assert(final(self).log_of(sensor as int) =~= old(self).log_of(sensor as int));
            assert forall|s: int| 0 <= s < final(self).n_sensors() implies times_nondecreasing(
                #[trigger] final(self).log_of(s),
            ) by {
                if s != sensor {
                    assert(final(self).log_of(s) == old(self).log_of(s));
                }
            }
        }
        samples
    }
}

/// A sensor's log, flushed part and pending queue alike, is always in
/// non-decreasing time order.
pub proof fn lemma_sensor_log_monotonic(runtime: &GroupRuntime, sensor: int)
    requires
        runtime.wf(),
        0 <= sensor < runtime.n_sensors(),
    ensures
        times_nondecreasing(runtime.log_of(sensor)),
        times_nondecreasing(runtime.flushed(sensor)),
{
    assert forall|i: int| 0 < i < runtime.flushed(sensor).len() implies (#[trigger] runtime.flushed(
        sensor,
    )[i]).0 >= runtime.flushed(sensor)[i - 1].0 by {
        assert(runtime.log_of(sensor)[i] == runtime.flushed(sensor)[i]);
        assert(runtime.log_of(sensor)[i - 1] == runtime.flushed(sensor)[i - 1]);
    }
}

/// Every reading taken for transmission names a sensor inside the group,
/// and no sensor twice: the `sensor_id`s are strictly increasing.
pub proof fn lemma_telemetry_ids(latest: Seq<Option<(u64, u16)>>)
    requires
        latest.len() < 256,
    ensures
        forall|k: int|
            0 <= k < telemetry_of(latest).len() ==> (#[trigger] telemetry_of(
                latest,
            )[k].sensor_id as nat) < latest.len(),
        forall|k: int, l: int|
            0 <= k < l < telemetry_of(latest).len() ==> (#[trigger] telemetry_of(
                latest,
            )[k]).sensor_id < (#[trigger] telemetry_of(latest)[l]).sensor_id,
    decreases latest.len(),
{
    if latest.len() > 0 {
        let dl = latest.drop_last();
        lemma_telemetry_ids(dl);
        let t = telemetry_of(latest);
        let td = telemetry_of(dl);
        assert forall|k: int| 0 <= k < t.len() implies (#[trigger] t[k].sensor_id as nat)
            < latest.len() by {
            if k < td.len() {
                assert(t[k] == td[k]);
            } else {
                assert(t[k].sensor_id as nat == latest.len() - 1);
            }
        }
        assert forall|k: int, l: int| 0 <= k < l < t.len() implies (#[trigger] t[k]).sensor_id < (
        #[trigger] t[l]).sensor_id by {
            if l < td.len() {
                assert(t[k] == td[k] && t[l] == td[l]);
            } else {
                assert(t[k] == td[k]);
                assert((td[k].sensor_id as nat) < dl.len());
                assert(t[l].sensor_id as nat == latest.len() - 1);
            }
        }
    }
}

/// The rows of a sensor log: one `timestamp,raw` line per sample.
pub open spec fn sensor_log_rows(samples: Seq<(u64, u16)>) -> Seq<u8>
    decreases samples.len(),
{
    if samples.len() == 0 {
        Seq::empty()
    } else {
        sensor_log_rows(samples.drop_last()) + dec_bytes(samples.last().0 as nat) + ascii_bytes(
            ","@,
        ) + dec_bytes(samples.last().1 as nat) + ascii_bytes("\n"@)
    }
}

/// Append sensor log rows to `buf`: for each sample one CSV line holding
/// the nanosecond timestamp and the raw ADC value.
pub fn write_sensor_log(buf: &mut Vec<u8>, samples: &Vec<(u64, u16)>)
    ensures
        final(buf)@ == old(buf)@ + sensor_log_rows(samples@),
{
    let n = samples.len();
    let mut i: usize = 0;
    while i < n
        invariant
            n == samples@.len(),
            i <= n,
            buf@ == old(buf)@ + sensor_log_rows(samples@.take(i as int)),
        decreases n - i,
    {
        let (time, raw) = samples[i];
        push_dec_u64(buf, time);
        proof {
            reveal_strlit(",");
            reveal_strlit("\n");
        }
        push_ascii(buf, ",");
        push_dec_u64(buf, raw as u64);
        push_ascii(buf, "\n");
        proof {
            let t = samples@.take(i + 1);
            assert(t.drop_last() =~= samples@.take(i as int));
            assert(t.last() == samples@[i as int]);
            assert(buf@ =~= old(buf)@ + sensor_log_rows(samples@.take(i + 1)));
        }
        i += 1;
    }
    proof {
        assert(samples@.take(n as int) =~= samples@);
    }
}

/// The trailing `value,` cells of a driver status row.
pub open spec fn driver_cells(states: Seq<bool>) -> Seq<u8>
    decreases states.len(),
{
    if states.len() == 0 {
        Seq::empty()
    } else {
        driver_cells(states.drop_last()) + bool_bytes(states.last()) + ascii_bytes(","@)
    }
}

/// One driver status row: the timestamp, then one `true,`/`false,` cell per
/// driver, newline-terminated.
pub open spec fn driver_log_row(timestamp_ns: u64, states: Seq<bool>) -> Seq<u8> {
    dec_bytes(timestamp_ns as nat) + ascii_bytes(","@) + driver_cells(states) + ascii_bytes(
        "\n"@,
    )
}

/// Append one driver status row to `buf`.
pub fn write_driver_log(buf: &mut Vec<u8>, timestamp_ns: u64, states: &Vec<bool>)
    ensures
        final(buf)@ == old(buf)@ + driver_log_row(timestamp_ns, states@),
{
    push_dec_u64(buf, timestamp_ns);
    proof {
        reveal_strlit(",");
        reveal_strlit("\n");
    }
    push_ascii(buf, ",");
    let ghost prefix = buf@;
    let n = states.len();
    let mut i: usize = 0;
    while i < n
        invariant
            n == states@.len(),
            i <= n,
            buf@ == prefix + driver_cells(states@.take(i as int)),
        decreases n - i,
    {
        push_bool(buf, states[i]);
        proof {
            reveal_strlit(",");
        }
        push_ascii(buf, ",");
        proof {
            let t = states@.take(i + 1);
            assert(t.drop_last() =~= states@.take(i as int));
            assert(t.last() == states@[i as int]);
            assert(buf@ =~= prefix + driver_cells(states@.take(i + 1)));
        }
        i += 1;
    }
    push_ascii(buf, "\n");
    proof {
        assert(states@.take(n as int) =~= states@);
        assert(final(buf)@ =~= old(buf)@ + driver_log_row(timestamp_ns, states@));
    }
}

/// Whether a transmission to the dashboard is due: the transmission period
/// has elapsed since the last one.
pub fn transmission_due(now_ns: u64, last_transmission_ns: u64, period_ns: u64) -> (due: bool)
    ensures
        due == (now_ns >= last_transmission_ns + period_ns),
{
    if now_ns < last_transmission_ns {
        false
    } else {
        now_ns - last_transmission_ns >= period_ns
    }
}

/// The pause between two sampling passes for the current controller state:
/// the standby period while in standby, the ignition period anywhere else.
pub fn sampling_pause(state: State, standby: TimeSpan, ignition: TimeSpan) -> (pause: TimeSpan)
    ensures
        pause == if state == State::Standby {
            standby
        } else {
            ignition
        },
{
    if state == State::Standby {
        standby
    } else {
        ignition
    }
}

/// Build the `SensorValue` telemetry message for a batch of readings taken
/// from group `group_id`.
pub fn sensor_value_message(group_id: u8, readings: Vec<SensorReading>) -> (message: Message)
    ensures
        message == (Message::SensorValue { group_id, readings }),
{
    Message::SensorValue { group_id, readings }
}

} // verus!

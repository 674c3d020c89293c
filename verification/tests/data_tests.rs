use slonk::config::{Action, TimeSpan};
use slonk::data::{sensor_value_message, write_driver_log, write_sensor_log, GroupRuntime};
use slonk::execution::{emergency_stop, RecordingWaiter};
use slonk::hardware::{Adc, ListenerPin, ReturnsNumber};
use slonk::state::{Guard, State};

fn estop_test_config() -> slonk::config::Configuration {
    slonk::config::Configuration {
        frequency_status: 10,
        log_buffer_size: 1,
        sensor_groups: vec![slonk::config::SensorGroup {
            label: "dummy".to_string(),
            frequency_standby: 1,
            frequency_ignition: 1,
            frequency_transmission: 1,
            sensors: vec![slonk::config::Sensor {
                label: "dummy_sensor0".to_string(),
                color: "#000000".to_string(),
                units: "mops".to_string(),
                rolling_average_width: Some(2),
                adc: 0,
                channel: 0,
            }],
        }],
        drivers: vec![],
        pre_ignite_time: 0,
        post_ignite_time: 0,
        ignition_sequence: vec![],
        estop_sequence: vec![Action::Sleep { duration: TimeSpan { secs: 1, nanos: 0 } }],
        spi_mosi: 3,
        spi_miso: 4,
        spi_clk: 5,
        spi_frequency_clk: 50_000,
        adc_cs: vec![6],
        pin_heartbeat: 0,
    }
}

#[test]
fn data_written() {
    // two sensors, each backed by an ADC that returns its own index
    let mut adcs = vec![ReturnsNumber(0), ReturnsNumber(1)];
    let mut runtime = GroupRuntime::new(2);

    // one sampling pass over the group
    for (idx, adc) in adcs.iter_mut().enumerate() {
        let reading = adc.read(0).unwrap();
        runtime.record_sample(idx, 1_000 + idx as u64, reading);
    }

    // the transmitted message carries one reading per sensor, with the
    // sensor's index and its raw value
    let readings = runtime.take_telemetry();
    let message = sensor_value_message(0, readings);
    let out = slonk::outgoing::serialize_message(&message);
    let value: serde_json::Value = serde_json::from_slice(&out).unwrap();
    let obj = value.as_object().unwrap();
    assert_eq!(obj.get("type").unwrap().as_str().unwrap(), "SensorValue");
    assert_eq!(obj.get("group_id").unwrap().as_u64().unwrap(), 0);
    let readings: Vec<(u64, u64)> = obj
        .get("readings")
        .unwrap()
        .as_array()
        .unwrap()
        .iter()
        .map(|val| val.as_object().unwrap())
        .map(|obj| {
            (
                obj.get("sensor_id").unwrap().as_u64().unwrap(),
                obj.get("reading").unwrap().as_u64().unwrap(),
            )
        })
        .collect();
    assert_eq!(readings, [(0, 0), (1, 1)]);

    // everything transmitted was transmitted once
    assert_eq!(runtime.take_telemetry(), vec![]);

    // the queues flush to one CSV row per sample, readings in column two
    for idx in 0..2usize {
        assert_eq!(runtime.queue_len(idx), 1);
        let samples = runtime.take_flush(idx);
        let mut log = Vec::new();
        write_sensor_log(&mut log, &samples);
        let logged = String::from_utf8(log).unwrap();
        let tokens: Vec<&str> = logged.split(',').flat_map(|s| s.split('\n')).collect();
        assert_eq!(tokens[1], format!("{idx}").as_str());
        assert_eq!(tokens[2], "");
        assert_eq!(runtime.queue_len(idx), 0);
    }
}

#[test]
fn sensor_log_rows_exact() {
    let mut log = Vec::new();
    write_sensor_log(&mut log, &vec![(1_000_000_500, 42), (1_000_000_600, 43)]);
    assert_eq!(
        String::from_utf8(log).unwrap(),
        "1000000500,42\n1000000600,43\n"
    );
}

#[test]
fn driver_log_row_exact() {
    let mut log = Vec::new();
    write_driver_log(&mut log, 123, &vec![false, true]);
    assert_eq!(String::from_utf8(log).unwrap(), "123,false,true,\n");
    let mut empty = Vec::new();
    write_driver_log(&mut empty, 7, &vec![]);
    assert_eq!(String::from_utf8(empty).unwrap(), "7,\n");
}

#[test]
fn timestamps_keep_order_across_flushes() {
    let mut runtime = GroupRuntime::new(1);
    runtime.record_sample(0, 10, 1);
    runtime.record_sample(0, 10, 2);
    runtime.record_sample(0, 12, 3);
    let first = runtime.take_flush(0);
    runtime.record_sample(0, 12, 4);
    runtime.record_sample(0, 15, 5);
    let second = runtime.take_flush(0);
    let all: Vec<(u64, u16)> = first.into_iter().chain(second).collect();
    for pair in all.windows(2) {
        assert!(pair[0].0 <= pair[1].0);
    }
}

#[test]
fn estop_called() {
    // a sensor with range [-5, 5], slope 1, intercept 0 and rolling-average
    // width 2, sampled from an ADC that always reads 100: the listener's
    // first pass pushes the rolling average out of band and initiates an
    // emergency stop
    let config = estop_test_config();
    let sensor = &config.sensor_groups[0].sensors[0];
    let mut adc = ReturnsNumber(100);
    let mut runtime = GroupRuntime::new(1);
    let mut guard = Guard::new(State::Standby);
    let mut driver_lines: Vec<ListenerPin> = Vec::new();
    let mut waiter = RecordingWaiter::new();

    let (range_min, range_max) = (-5.0_f64, 5.0_f64);
    let (slope, intercept) = (1.0_f64, 0.0_f64);
    let width = f64::from(sensor.rolling_average_width.unwrap_or(1));
    // the rolling average is seeded at the range midpoint
    let mut rolling_avg = (range_min + range_max) / 2.0;

    let mut stop_requested = false;
    for iteration in 0..2u64 {
        let reading = adc.read(sensor.channel).unwrap();
        runtime.record_sample(0, iteration, reading);
        let calibrated = f64::from(reading) * slope + intercept;
        rolling_avg = (rolling_avg * (width - 1.0) + calibrated) / width;
        if rolling_avg < range_min || range_max < rolling_avg {
            stop_requested = true;
            emergency_stop(&config, &mut driver_lines, &mut waiter, &mut guard).unwrap();
            break;
        }
    }

    // the stop fired within two sampling periods and ran the scripted
    // sequence through to standby
    assert!(stop_requested);
    assert_eq!(guard.status(), State::Standby);
    assert_eq!(waiter.requests(), &vec![TimeSpan { secs: 1, nanos: 0 }]);
}

#[test]
fn listener_gates() {
    // transmission is due once the period has elapsed, and not before
    assert!(slonk::data::transmission_due(1_000, 400, 600));
    assert!(!slonk::data::transmission_due(999, 400, 600));
    // a clock step backwards never makes a transmission due
    assert!(!slonk::data::transmission_due(300, 400, 600));

    let mut runtime = GroupRuntime::new(1);
    assert!(!runtime.should_flush(0, 1));
    runtime.record_sample(0, 1, 7);
    assert!(runtime.should_flush(0, 1));
    assert!(!runtime.should_flush(0, 2));

    let standby = TimeSpan { secs: 0, nanos: 100_000_000 };
    let ignition = TimeSpan { secs: 0, nanos: 1_000_000 };
    assert_eq!(slonk::data::sampling_pause(State::Standby, standby, ignition), standby);
    assert_eq!(slonk::data::sampling_pause(State::Ignite, standby, ignition), ignition);
    assert_eq!(slonk::data::sampling_pause(State::EStopping, standby, ignition), ignition);
}

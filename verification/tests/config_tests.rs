use slonk::config::{
    is_legal, Action, Configuration, Driver, Error, Sensor, SensorGroup, TimeSpan,
};

/// A configuration that passes every validation rule: one fast sensor group
/// with two sensors, one driver, and a three-step ignition sequence.
fn fast_config() -> Configuration {
    Configuration {
        frequency_status: 10,
        log_buffer_size: 256,
        sensor_groups: vec![SensorGroup {
            label: "FAST".to_string(),
            frequency_standby: 10,
            frequency_ignition: 1000,
            frequency_transmission: 10,
            sensors: vec![
                Sensor {
                    label: "LC_MAIN".to_string(),
                    color: "#ef3b9e".to_string(),
                    units: "lb".to_string(),
                    rolling_average_width: Some(5),
                    adc: 0,
                    channel: 0,
                },
                Sensor {
                    label: "PT_FEED".to_string(),
                    color: "#ef3b9e".to_string(),
                    units: "psi".to_string(),
                    rolling_average_width: None,
                    adc: 0,
                    channel: 1,
                },
            ],
        }],
        drivers: vec![Driver {
            label: "OXI_FILL".to_string(),
            label_actuate: "Open".to_string(),
            label_deactuate: "Close".to_string(),
            pin: 21,
            protected: false,
        }],
        pre_ignite_time: 500,
        post_ignite_time: 5000,
        ignition_sequence: vec![
            Action::Actuate { driver_id: 0, value: true },
            Action::Sleep { duration: TimeSpan { secs: 10, nanos: 0 } },
            Action::Actuate { driver_id: 0, value: false },
        ],
        estop_sequence: vec![Action::Actuate { driver_id: 0, value: false }],
        spi_mosi: 26,
        spi_miso: 25,
        spi_clk: 24,
        spi_frequency_clk: 50_000,
        adc_cs: vec![20],
        pin_heartbeat: 0,
    }
}

#[test]
fn full_config() {
    let config = fast_config();
    assert!(config.validate().is_ok());
    assert_eq!(config.spi_frequency_clk, 50_000);
    assert_eq!(config.ignition_sequence.len(), 3);
    assert_eq!(
        config.ignition_sequence[2],
        Action::Actuate { driver_id: 0, value: false }
    );
}

#[test]
fn clock_too_slow() {
    let mut config = fast_config();
    config.spi_frequency_clk = 9_999;
    assert_eq!(config.validate(), Err(Error::ClockTooSlow));
    config.spi_frequency_clk = 10_000;
    assert!(config.validate().is_ok());
}

#[test]
fn no_such_adc() {
    let mut config = fast_config();
    config.sensor_groups[0].sensors[1].adc = 1;
    assert_eq!(config.validate(), Err(Error::NoSuchAdc(1)));
}

#[test]
fn bad_channel() {
    let mut config = fast_config();
    config.sensor_groups[0].sensors[0].channel = 8;
    assert_eq!(config.validate(), Err(Error::BadChannel(8)));
}

#[test]
fn no_such_driver() {
    let mut config = fast_config();
    config.estop_sequence = vec![Action::Actuate { driver_id: 1, value: false }];
    assert_eq!(config.validate(), Err(Error::NoSuchDriver(1)));
}

#[test]
fn driver_id_at_list_length_rejected() {
    // an actuation must name an index strictly below the driver count
    let mut config = fast_config();
    config.ignition_sequence = vec![Action::Actuate { driver_id: 1, value: true }];
    assert_eq!(config.validate(), Err(Error::NoSuchDriver(1)));
}

#[test]
fn duplicate_pin() {
    let mut config = fast_config();
    config.drivers[0].pin = 26;
    assert_eq!(config.validate(), Err(Error::DuplicatePin(26)));
}

#[test]
fn reserved_pin() {
    let mut config = fast_config();
    config.adc_cs = vec![1];
    assert_eq!(config.validate(), Err(Error::ReservedPin(1)));
    config.adc_cs = vec![28];
    assert_eq!(config.validate(), Err(Error::ReservedPin(28)));
}

#[test]
fn legal_pin_boundaries() {
    assert!(!is_legal(0));
    assert!(!is_legal(1));
    assert!(is_legal(2));
    assert!(is_legal(27));
    assert!(!is_legal(28));
    assert!(!is_legal(255));
}

#[test]
fn error_messages() {
    assert_eq!(
        String::from_utf8(Error::ClockTooSlow.describe()).unwrap(),
        "SPI clock frequency is too slow (must be at least 10000 Hz)"
    );
    assert_eq!(
        String::from_utf8(Error::DuplicatePin(26).describe()).unwrap(),
        "GPIO pin 26 is used for multiple purposes"
    );
    assert_eq!(
        String::from_utf8(Error::ReservedPin(1).describe()).unwrap(),
        "GPIO pin 1 is not allowed to be used on the Raspberry Pi"
    );
    assert_eq!(
        String::from_utf8(Error::NoSuchAdc(3).describe()).unwrap(),
        "ADC 3 is referenced but not listed in set of ADC chip select pins"
    );
    assert_eq!(
        String::from_utf8(Error::BadChannel(9).describe()).unwrap(),
        "ADC channel 9 referenced (must be in 0..=7)"
    );
    assert_eq!(
        String::from_utf8(Error::NoSuchDriver(2).describe()).unwrap(),
        "A procedure refers to a driver with ID 2, but no such driver is given in the list of drivers"
    );
    assert_eq!(
        String::from_utf8(Error::Malformed("bad json".to_string()).describe()).unwrap(),
        "Failed to parse JSON for configuration: bad json"
    );
}

//! Configurations for the engine controller, and their validation.
//!
//! The shell that owns the configuration file turns its JSON into the types
//! below and back; this module owns the schema itself and every logical
//! consistency rule a configuration must satisfy before the controller may
//! run with it.  Floating-point calibration data (the safe range, the
//! calibration slope and intercept of a sensor) stays with the shell: the
//! verified core never computes with it, it only ever consumes the boolean
//! outcome of an out-of-band comparison.

use crate::hardware::SPI_MIN_FREQUENCY;
use crate::text::ascii_bytes;
use crate::text::dec_bytes;
use crate::text::push_ascii;
use crate::text::push_dec_u64;
use crate::text::push_str_utf8;
use vstd::prelude::*;

verus! {

/// A span of wall-clock time, as a configuration holds it: whole seconds
/// plus nanoseconds.
#[derive(Debug, Clone, Copy, PartialEq, Eq, Structural)]
pub struct TimeSpan {
    /// The whole seconds of the span.
    pub secs: u64,
    /// The nanoseconds of the span beyond the whole seconds.
    pub nanos: u32,
}

/// The span of `ns` nanoseconds.
pub open spec fn nanos_span(ns: u64) -> TimeSpan {
    TimeSpan { secs: (ns / 1_000_000_000) as u64, nanos: (ns % 1_000_000_000) as u32 }
}

/// Information required to define a driver.
#[derive(Debug, PartialEq, Eq)]
pub struct Driver {
    /// The human-readable name of the driver.
    pub label: String,
    /// The label for the action that will be performed when the driver is
    /// turned on.
    pub label_actuate: String,
    /// The label for the action that will be performed when the driver is
    /// turned off.
    pub label_deactuate: String,
    /// The pin actuated by the driver.
    pub pin: u8,
    /// Whether this driver is protected from user access.
    ///
    /// The flag is carried for the dashboard's benefit; the executor does
    /// not refuse a direct actuation of a protected driver.  Whether it
    /// should is an open policy question, decided here in favour of the
    /// operator: an emergency may need any valve.
    pub protected: bool,
}

/// The set of actions that can be taken in an ignition or shutoff sequence.
#[derive(Debug, Clone, Copy, PartialEq, Eq, Structural)]
pub enum Action {
    /// Actuate a driver to a logic level.
    Actuate {
        /// The identifier (i.e. index) of the driver to be actuated.
        driver_id: u8,
        /// The logic level that the driver will be actuated to.
        value: bool,
    },
    /// Sleep for a given amount of time.
    Sleep {
        /// The amount of time to sleep for.
        duration: TimeSpan,
    },
}

/// Information needed to define a single sensor.
///
/// The safe range and the linear calibration of a sensor are floating-point
/// data owned by the shell; everything the verified core reads of a sensor
/// is here.
#[derive(Debug, PartialEq, Eq)]
pub struct Sensor {
    /// The label giving the name of the sensor.
    pub label: String,
    /// The color that this sensor should be displayed with.
    pub color: String,
    /// The units of the sensor's calibrated value.
    pub units: String,
    /// The width of a rolling average for this device, used to filter data
    /// on the controller side.  Defaults to 1 when absent.
    pub rolling_average_width: Option<u32>,
    /// The ID of the ADC used by this device.
    /// This is an index into the field `adc_cs` in `Configuration`.
    pub adc: u8,
    /// The channel on the ADC to read raw sensor data from.
    pub channel: u8,
}

/// Information needed to define a group of sensors.
#[derive(Debug, PartialEq, Eq)]
pub struct SensorGroup {
    /// The human-readable label of the sensor group.
    pub label: String,
    /// The frequency at which data should be collected while in standby
    /// mode, in Hertz.
    pub frequency_standby: u32,
    /// The frequency at which data should be collected while in ignition
    /// mode, in Hertz.
    pub frequency_ignition: u32,
    /// The frequency at which data should be transmitted to the dashboard
    /// from this sensor group, in Hertz.
    pub frequency_transmission: u32,
    /// The set of sensors managed by this sensor group.
    pub sensors: Vec<Sensor>,
}

/// A configuration for the entire engine controller.
#[derive(Debug, PartialEq, Eq)]
pub struct Configuration {
    /// The frequency at which driver and system status updates should be
    /// sent to the dashboard, in Hertz.
    pub frequency_status: u32,
    /// The size that a log buffer should be.
    /// When a log buffer fills up, its readings are saved to a log file.
    pub log_buffer_size: usize,
    /// The families of sensors, each having their own frequencies and
    /// manager threads.
    pub sensor_groups: Vec<SensorGroup>,
    /// The drivers, which actuate external digital pins.
    pub drivers: Vec<Driver>,
    /// The amount of time (in milliseconds) to wait in a pre-ignition state
    /// after processing an ignition command.
    pub pre_ignite_time: u32,
    /// The amount of time (in milliseconds) to wait in a post-ignition state
    /// after processing an ignition command.
    pub post_ignite_time: u32,
    /// The sequence of actions to be performed during ignition.
    pub ignition_sequence: Vec<Action>,
    /// The sequence of actions to be performed during emergency stop.
    pub estop_sequence: Vec<Action>,
    /// The Master Output / Slave Input pin ID for the SPI bus.
    pub spi_mosi: u8,
    /// The Master Input / Slave Output pin ID for the SPI bus.
    pub spi_miso: u8,
    /// The clock pin ID for the SPI bus.
    pub spi_clk: u8,
    /// The operating frequency of the SPI bus clock, in Hertz.
    /// Can be no less than 10 kHz for the ADCs to operate correctly.
    pub spi_frequency_clk: u32,
    /// The chip select pins for each device.
    /// For now, we assume that all ADCs are MCP3208s.
    pub adc_cs: Vec<u8>,
    /// The GPIO pin ID of the heartbeat LED.
    pub pin_heartbeat: u8,
}

/// The set of errors that can occur when validating a configuration.
#[derive(Debug, PartialEq, Eq)]
pub enum Error {
    /// The configuration was malformed and could not be parsed into a
    /// `Configuration` object.  The string describes the cause.
    Malformed(String),
    /// A sensor's definition referred to an ADC which did not exist.
    NoSuchAdc(u8),
    /// A sensor's definition referred to a channel which is out of bounds on
    /// an ADC.
    BadChannel(u8),
    /// The SPI clock frequency was set too slow.
    ClockTooSlow,
    /// A procedure references a driver which does not exist.
    NoSuchDriver(u8),
    /// Two pins are duplicated for differing functions.
    DuplicatePin(u8),
    /// A pin which the board reserves was referenced.
    ReservedPin(u8),
}

/// The human-readable description of a validation error, ending with the
/// specific cause.
pub open spec fn error_text(error: Error) -> Seq<u8> {
    match error {
        Error::Malformed(cause) => ascii_bytes("Failed to parse JSON for configuration: "@)
            + vstd::utf8::encode_utf8(cause@),
        Error::NoSuchAdc(adc) => ascii_bytes("ADC "@) + dec_bytes(adc as nat) + ascii_bytes(
            " is referenced but not listed in set of ADC chip select pins"@,
        ),
        Error::BadChannel(channel) => ascii_bytes("ADC channel "@) + dec_bytes(channel as nat)
            + ascii_bytes(" referenced (must be in 0..=7)"@),
        Error::ClockTooSlow => ascii_bytes("SPI clock frequency is too slow (must be at least "@)
            + dec_bytes(SPI_MIN_FREQUENCY as nat) + ascii_bytes(" Hz)"@),
        Error::NoSuchDriver(driver) => ascii_bytes("A procedure refers to a driver with ID "@)
            + dec_bytes(driver as nat) + ascii_bytes(
            ", but no such driver is given in the list of drivers"@,
        ),
        Error::DuplicatePin(pin) => ascii_bytes("GPIO pin "@) + dec_bytes(pin as nat)
            + ascii_bytes(" is used for multiple purposes"@),
        Error::ReservedPin(pin) => ascii_bytes("GPIO pin "@) + dec_bytes(pin as nat) + ascii_bytes(
            " is not allowed to be used on the Raspberry Pi"@,
        ),
    }
}

impl Error {
    /// Render the human-readable description of this error.
    #[must_use]
    pub fn describe(&self) -> (message: Vec<u8>)
        ensures
            message@ == error_text(*self),
    {
        let mut message: Vec<u8> = Vec::new();
        proof {
            reveal_strlit("Failed to parse JSON for configuration: ");
            reveal_strlit("ADC ");
            reveal_strlit(" is referenced but not listed in set of ADC chip select pins");
            reveal_strlit("ADC channel ");
            reveal_strlit(" referenced (must be in 0..=7)");
            reveal_strlit("SPI clock frequency is too slow (must be at least ");
            reveal_strlit(" Hz)");
            reveal_strlit("A procedure refers to a driver with ID ");
            reveal_strlit(", but no such driver is given in the list of drivers");
            reveal_strlit("GPIO pin ");
            reveal_strlit(" is used for multiple purposes");
            reveal_strlit(" is not allowed to be used on the Raspberry Pi");
        }
        match self {
            Error::Malformed(cause) => {
                push_ascii(&mut message, "Failed to parse JSON for configuration: ");
                push_str_utf8(&mut message, cause.as_str());
            }
            Error::NoSuchAdc(adc) => {
                push_ascii(&mut message, "ADC ");
                push_dec_u64(&mut message, *adc as u64);
                push_ascii(
                    &mut message,
                    " is referenced but not listed in set of ADC chip select pins",
                );
            }
            Error::BadChannel(channel) => {
                push_ascii(&mut message, "ADC channel ");
                push_dec_u64(&mut message, *channel as u64);
                push_ascii(&mut message, " referenced (must be in 0..=7)");
            }
            Error::ClockTooSlow => {
                push_ascii(&mut message, "SPI clock frequency is too slow (must be at least ");
                push_dec_u64(&mut message, SPI_MIN_FREQUENCY);
                push_ascii(&mut message, " Hz)");
            }
            Error::NoSuchDriver(driver) => {
                push_ascii(&mut message, "A procedure refers to a driver with ID ");
                push_dec_u64(&mut message, *driver as u64);
                push_ascii(
                    &mut message,
                    ", but no such driver is given in the list of drivers",
                );
            }
            Error::DuplicatePin(pin) => {
                push_ascii(&mut message, "GPIO pin ");
                push_dec_u64(&mut message, *pin as u64);
                push_ascii(&mut message, " is used for multiple purposes");
            }
            Error::ReservedPin(pin) => {
                push_ascii(&mut message, "GPIO pin ");
                push_dec_u64(&mut message, *pin as u64);
                push_ascii(&mut message, " is not allowed to be used on the Raspberry Pi");
            }
        }
        message
    }
}

/// Whether every `Actuate` among `actions` names a driver below `n_drivers`.
pub open spec fn actions_ok(actions: Seq<Action>, n_drivers: nat) -> bool {
    forall|i: int|
        0 <= i < actions.len() ==> match #[trigger] actions[i] {
            Action::Actuate { driver_id, value: _ } => (driver_id as nat) < n_drivers,
            Action::Sleep { .. } => true,
        }
}

/// Whether a GPIO pin ID is a legal pin for use in the controller.
///
/// There are GPIO pins 0 through 27 (inclusive), but pins 0 and 1 are
/// reserved for EEPROM.
pub open spec fn legal_pin(pin: u8) -> bool {
    1 < pin <= 27
}

/// Determine whether a GPIO pin ID is a legal pin for use in the controller.
pub fn is_legal(pin: u8) -> (legal: bool)
    ensures
        legal == legal_pin(pin),
{
    1 < pin && pin <= 27
}

impl Configuration {
    /// Every pin the configuration claims, in order: the driver pins, the
    /// SPI trio, then the ADC chip-select pins.
    pub open spec fn all_pins(&self) -> Seq<u8> {
        self.drivers@.map_values(|d: Driver| d.pin) + seq![
            self.spi_mosi,
            self.spi_miso,
            self.spi_clk,
        ] + self.adc_cs@
    }

    /// The SPI clock is fast enough for the ADCs.
    pub open spec fn clock_ok(&self) -> bool {
        self.spi_frequency_clk as u64 >= SPI_MIN_FREQUENCY
    }

    /// Every sensor points at an existing ADC and at a channel an MCP3208
    /// has.
    pub open spec fn sensors_ok(&self) -> bool {
        forall|g: int, s: int|
            0 <= g < self.sensor_groups@.len() && 0 <= s
                < self.sensor_groups@[g].sensors@.len() ==> {
                let sensor = #[trigger] self.sensor_groups@[g].sensors@[s];
                &&& (sensor.adc as nat) < self.adc_cs@.len()
                &&& sensor.channel < 8
            }
    }

    /// Both scripted sequences only actuate existing drivers.
    pub open spec fn sequences_ok(&self) -> bool {
        actions_ok(self.ignition_sequence@, self.drivers@.len()) && actions_ok(
            self.estop_sequence@,
            self.drivers@.len(),
        )
    }

    /// Every claimed pin is legal and no pin is claimed twice.
    pub open spec fn pins_ok(&self) -> bool {
        &&& forall|i: int| 0 <= i < self.all_pins().len() ==> legal_pin(#[trigger] self.all_pins()[i])
        &&& forall|i: int, j: int|
            0 <= i < j < self.all_pins().len() ==> #[trigger] self.all_pins()[i]
                != #[trigger] self.all_pins()[j]
    }

    /// Every logical consistency rule a configuration must satisfy.
    pub open spec fn valid(&self) -> bool {
        self.clock_ok() && self.sensors_ok() && self.sequences_ok() && self.pins_ok()
    }

    /// Check the configuration to determine that there are no logical
    /// inconsistencies in its definition.
    ///
    /// Returns `Ok(())` exactly when the configuration is valid: the SPI
    /// clock is at least the ADC's minimum frequency, every sensor names an
    /// existing ADC and a channel in `0..=7`, every scripted actuation names
    /// an existing driver, and every pin is legal and claimed only once.
    pub fn validate(&self) -> (result: Result<(), Error>)
        ensures
            result.is_ok() <==> self.valid(),
            result == Err::<(), Error>(Error::ClockTooSlow) <==> !self.clock_ok(),
            !(result matches Err(Error::Malformed(_))),
            (result matches Err(Error::NoSuchAdc(a)) ==> self.clock_ok() && exists|g: int, s: int|
                0 <= g < self.sensor_groups@.len() && 0 <= s < self.sensor_groups@[g].sensors@.len()
                    && (#[trigger] self.sensor_groups@[g].sensors@[s]).adc == a && (a as nat)
                    >= self.adc_cs@.len()),
            (result matches Err(Error::BadChannel(c)) ==> self.clock_ok() && exists|g: int, s: int|
                0 <= g < self.sensor_groups@.len() && 0 <= s < self.sensor_groups@[g].sensors@.len()
                    && (#[trigger] self.sensor_groups@[g].sensors@[s]).channel == c && c >= 8),
            (result matches Err(Error::NoSuchDriver(d)) ==> self.clock_ok() && self.sensors_ok()
                && (d as nat) >= self.drivers@.len() && ((exists|i: int|
                0 <= i < self.ignition_sequence@.len() && (#[trigger] self.ignition_sequence@[i]
                    matches Action::Actuate { driver_id, .. } && driver_id == d)) || (exists|i: int|
                0 <= i < self.estop_sequence@.len() && (#[trigger] self.estop_sequence@[i]
                    matches Action::Actuate { driver_id, .. } && driver_id == d)))),
            (result matches Err(Error::ReservedPin(p)) ==> self.clock_ok() && self.sensors_ok()
                && self.sequences_ok() && self.all_pins().contains(p) && !legal_pin(p)),
            (result matches Err(Error::DuplicatePin(p)) ==> self.clock_ok() && self.sensors_ok()
                && self.sequences_ok() && exists|i: int, j: int|
                0 <= i < j < self.all_pins().len() && #[trigger] self.all_pins()[i] == p
                    && #[trigger] self.all_pins()[j] == p),
    {
        // check that SPI frequency is correct
        if (self.spi_frequency_clk as u64) < SPI_MIN_FREQUENCY {
            return Err(Error::ClockTooSlow);
        }

        // check that each sensor has an ADC associated with it
        let n_groups = self.sensor_groups.len();
        let mut g: usize = 0;
        while g < n_groups
            invariant
                n_groups == self.sensor_groups@.len(),
                g <= n_groups,
                self.clock_ok(),
                forall|gi: int, s: int|
                    0 <= gi < g && 0 <= s < self.sensor_groups@[gi].sensors@.len() ==> {
                        let sensor = #[trigger] self.sensor_groups@[gi].sensors@[s];
                        &&& (sensor.adc as nat) < self.adc_cs@.len()
                        &&& sensor.channel < 8
                    },
            decreases n_groups - g,
        {
            let group = &self.sensor_groups[g];
            let n_sensors = group.sensors.len();
            let mut s: usize = 0;
            while s < n_sensors
                invariant
                    g < n_groups,
                    n_groups == self.sensor_groups@.len(),
                    n_sensors == self.sensor_groups@[g as int].sensors@.len(),
                    group.sensors@ == self.sensor_groups@[g as int].sensors@,
                    s <= n_sensors,
                    self.clock_ok(),
                    forall|si: int|
                        0 <= si < s ==> {
                            let sensor = #[trigger] self.sensor_groups@[g as int].sensors@[si];
                            &&& (sensor.adc as nat) < self.adc_cs@.len()
                            &&& sensor.channel < 8
                        },
                decreases n_sensors - s,
            {
                let sensor = &group.sensors[s];
                if sensor.adc as usize >= self.adc_cs.len() {
                    return Err(Error::NoSuchAdc(sensor.adc));
                }
                if sensor.channel >= 8 {
                    return Err(Error::BadChannel(sensor.channel));
                }
                s += 1;
            }
            g += 1;
        }

        // check that actuations correspond to real drivers
        if let Err(d) = check_actions(&self.ignition_sequence, self.drivers.len()) {
            return Err(Error::NoSuchDriver(d));
        }
        if let Err(d) = check_actions(&self.estop_sequence, self.drivers.len()) {
            return Err(Error::NoSuchDriver(d));
        }

        // check that no pins are reused in the configuration, and that no
        // reserved pins are used
        let mut pins: Vec<u8> = Vec::new();
        let n_drivers = self.drivers.len();
        let mut i: usize = 0;
        while i < n_drivers
            invariant
                n_drivers == self.drivers@.len(),
                i <= n_drivers,
                pins@ == self.drivers@.take(i as int).map_values(|d: Driver| d.pin),
            decreases n_drivers - i,
        {
            pins.push(self.drivers[i].pin);
            proof {
                assert(self.drivers@.take(i + 1).map_values(|d: Driver| d.pin) =~= self
                    .drivers@.take(i as int).map_values(|d: Driver| d.pin).push(
                    self.drivers@[i as int].pin,
                ));
            }
            i += 1;
        }
        pins.push(self.spi_mosi);
        pins.push(self.spi_miso);
        pins.push(self.spi_clk);
        let n_adcs = self.adc_cs.len();
        let mut a: usize = 0;
        while a < n_adcs
            invariant
                n_adcs == self.adc_cs@.len(),
                a <= n_adcs,
                pins@ == self.drivers@.map_values(|d: Driver| d.pin) + seq![
                    self.spi_mosi,
                    self.spi_miso,
                    self.spi_clk,
                ] + self.adc_cs@.take(a as int),
            decreases n_adcs - a,
        {
            pins.push(self.adc_cs[a]);
            proof {
                assert(self.adc_cs@.take(a + 1) =~= self.adc_cs@.take(a as int).push(
                    self.adc_cs@[a as int],
                ));
            }
            a += 1;
        }
        proof {
            assert(self.drivers@.take(n_drivers as int) =~= self.drivers@);
            assert(self.adc_cs@.take(n_adcs as int) =~= self.adc_cs@);
            assert(pins@ =~= self.all_pins());
        }

        let n_pins = pins.len();
        let mut p: usize = 0;
        while p < n_pins
            invariant
                n_pins == pins@.len(),
                pins@ == self.all_pins(),
                p <= n_pins,
                self.clock_ok(),
                self.sensors_ok(),
                self.sequences_ok(),
                forall|k: int| 0 <= k < p ==> legal_pin(#[trigger] pins@[k]),
                forall|k: int, l: int|
                    0 <= k < l < p ==> #[trigger] pins@[k] != #[trigger] pins@[l],
            decreases n_pins - p,
        {
            let pin = pins[p];
            if !is_legal(pin) {
                return Err(Error::ReservedPin(pin));
            }
            let mut q: usize = 0;
            while q < p
                invariant
                    p < n_pins,
                    n_pins == pins@.len(),
                    pins@ == self.all_pins(),
                    q <= p,
                    pin == pins@[p as int],
                    self.clock_ok(),
                    self.sensors_ok(),
                    self.sequences_ok(),
                    forall|k: int| 0 <= k < q ==> pins@[k] != pin,
                decreases p - q,
            {
                if pins[q] == pin {
                    return Err(Error::DuplicatePin(pin));
                }
                q += 1;
            }
            p += 1;
        }

        // all validation steps passed
        Ok(())
    }
}

/// Check that every `Actuate` among `actions` names a driver below
/// `n_drivers`; the first offending driver ID is the error.
fn check_actions(actions: &Vec<Action>, n_drivers: usize) -> (result: Result<(), u8>)
    ensures
        result.is_ok() <==> actions_ok(actions@, n_drivers as nat),
        result matches Err(d) ==> (d as nat) >= n_drivers && exists|i: int|
            0 <= i < actions@.len() && (#[trigger] actions@[i] matches Action::Actuate {
                driver_id,
                ..
            } && driver_id == d),
{
    let n = actions.len();
    let mut i: usize = 0;
    while i < n
        invariant
            n == actions@.len(),
            i <= n,
            forall|k: int|
                0 <= k < i ==> match #[trigger] actions@[k] {
                    Action::Actuate { driver_id, value: _ } => (driver_id as nat) < (
                    n_drivers as nat),
                    Action::Sleep { .. } => true,
                },
        decreases n - i,
    {
        match &actions[i] {
            Action::Actuate { driver_id, value: _ } => {
                if *driver_id as usize >= n_drivers {
                    return Err(*driver_id);
                }
            }
            Action::Sleep { .. } => {}
        }
        i += 1;
    }
    Ok(())
}

} // verus!

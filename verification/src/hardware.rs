//! Definitions for hardware devices.
//!
//! The goal of this module is to abstract away some of the details of exactly
//! how the hardware works so that the rest of the crate can focus on the
//! business logic.  The pin capability is a trait: the verified crate ships
//! in-memory pins for testing, while the unverified shell supplies pins that
//! talk to the GPIO character device.

pub mod spi;

use crate::ControllerError;
use gpio_cdev::Error as GpioError;
use vstd::prelude::*;

verus! {

/// A trait for GPIO pins.
///
/// Beside the two operations each pin carries a model: the record of every
/// value successfully written to it, two flags saying whether its reads and
/// writes are guaranteed to succeed, and - for pins whose behaviour is
/// determined by their state - what the next read returns and how it leaves
/// the pin.  In-memory pins are infallible and fully determined; pins
/// backed by real hardware are neither, and read whatever the outside world
/// holds.
pub trait GpioPin: Sized {
    /// Every value successfully written to this pin, oldest first, including
    /// any initial level the pin was constructed with.
    spec fn written(&self) -> Seq<bool>;

    /// What the next read does, when this pin's state determines it: the
    /// level returned and the pin as the read leaves it.  `None` for pins
    /// whose reads the outside world decides.
    spec fn read_model(&self) -> Option<(bool, Self)>;

    /// Whether every read on this pin succeeds.
    spec fn reads_ok(&self) -> bool;

    /// Whether every write on this pin succeeds.
    spec fn writes_ok(&self) -> bool;

    /// Perform a GPIO read on this pin.
    /// Returns `true` if the pin is pulled high, and `false` otherwise.
    fn read(&mut self) -> (result: Result<bool, ControllerError>)
        ensures
            final(self).written() == old(self).written(),
            final(self).reads_ok() == old(self).reads_ok(),
            final(self).writes_ok() == old(self).writes_ok(),
            old(self).reads_ok() ==> result.is_ok(),
            old(self).read_model() matches Some((level, next)) ==> result == Ok::<
                bool,
                ControllerError,
            >(level) && *final(self) == next,
    ;

    /// Perform a GPIO write on this pin, setting the pin's logic level to
    /// `value`.
    fn write(&mut self, value: bool) -> (result: Result<(), ControllerError>)
        ensures
            result.is_ok() ==> final(self).written() == old(self).written().push(value),
            result.is_err() ==> final(self).written() == old(self).written(),
            old(self).reads_ok() ==> final(self).reads_ok(),
            final(self).writes_ok() == old(self).writes_ok(),
            old(self).writes_ok() ==> result.is_ok(),
    ;
}

/// The values handed out by `count` reads of `pin`, together with the pin
/// as they leave it - as far as the pin's own model determines them.
/// `None` as soon as any of the reads is decided by the outside world.
pub open spec fn modelled_reads<P: GpioPin>(pin: P, count: nat) -> Option<(Seq<bool>, P)>
    decreases count,
{
    if count == 0 {
        Some((Seq::empty(), pin))
    } else {
        match pin.read_model() {
            Some((level, next)) => match modelled_reads(next, (count - 1) as nat) {
                Some((rest, end)) => Some((seq![level] + rest, end)),
                None => None,
            },
            None => None,
        }
    }
}

/// Extending a run of modelled reads by one more read.
pub proof fn lemma_modelled_reads_snoc<P: GpioPin>(pin: P, count: nat)
    requires
        modelled_reads(pin, count) is Some,
        modelled_reads(pin, count).unwrap().1.read_model() is Some,
    ensures
        ({
            let (values, mid) = modelled_reads(pin, count).unwrap();
            let (level, next) = mid.read_model().unwrap();
            modelled_reads(pin, count + 1) == Some::<(Seq<bool>, P)>((values.push(level), next))
        }),
    decreases count,
{
    let (values, mid) = modelled_reads(pin, count).unwrap();
    let (level, next) = mid.read_model().unwrap();
    if count == 0 {
        assert(mid == pin);
        assert(modelled_reads(next, 0) == Some::<(Seq<bool>, P)>((Seq::empty(), next)));
        assert(modelled_reads(pin, 1) == Some::<(Seq<bool>, P)>((
            seq![level] + Seq::<bool>::empty(),
            next,
        )));
        assert(seq![level] + Seq::<bool>::empty() =~= values.push(level));
    } else {
        let (first_level, after_first) = pin.read_model().unwrap();
        let (rest, rest_mid) = modelled_reads(after_first, (count - 1) as nat).unwrap();
        assert(values == seq![first_level] + rest && mid == rest_mid);
        lemma_modelled_reads_snoc(after_first, (count - 1) as nat);
        assert(modelled_reads(after_first, count) == Some::<(Seq<bool>, P)>((
            rest.push(level),
            next,
        )));
        assert(modelled_reads(pin, count + 1) == Some::<(Seq<bool>, P)>((
            seq![first_level] + rest.push(level),
            next,
        )));
        assert(seq![first_level] + rest.push(level) =~= values.push(level));
    }
}

/// A run of modelled reads one longer is only determined if the shorter
/// run is, and ends on a pin whose next read is still determined.
pub proof fn lemma_modelled_reads_prefix<P: GpioPin>(pin: P, count: nat)
    requires
        modelled_reads(pin, count + 1) is Some,
    ensures
        modelled_reads(pin, count) is Some,
        modelled_reads(pin, count).unwrap().1.read_model() is Some,
    decreases count,
{
    let (first_level, after_first) = pin.read_model().unwrap();
    if count > 0 {
        lemma_modelled_reads_prefix(after_first, (count - 1) as nat);
    }
}

/// A structure for testing GPIO writes.
///
/// A `ListenerPin` stores the history of all writes to it.
/// When read from, a `ListenerPin` will return the last written value of the
/// pin.
pub struct ListenerPin(Vec<bool>);

impl ListenerPin {
    /// The write history of this pin, oldest first.
    pub closed spec fn hist(&self) -> Seq<bool> {
        self.0@
    }

    /// Construct a new `ListenerPin` with only one reading in its history.
    #[must_use]
    pub fn new(last_value: bool) -> (pin: ListenerPin)
        ensures
            pin.written() == seq![last_value],
            pin.reads_ok(),
            pin.writes_ok(),
    {
        let mut history: Vec<bool> = Vec::new();
        history.push(last_value);
        ListenerPin(history)
    }

    /// Get access to the history inside this pin.
    #[must_use]
    pub fn history(&self) -> (history: &Vec<bool>)
        ensures
            history@ == self.written(),
    {
        &self.0
    }
}

impl GpioPin for ListenerPin {
    open spec fn written(&self) -> Seq<bool> {
        self.hist()
    }

    open spec fn read_model(&self) -> Option<(bool, Self)> {
        if self.hist().len() > 0 {
            Some((self.hist().last(), *self))
        } else {
            None
        }
    }

    open spec fn reads_ok(&self) -> bool {
        self.hist().len() > 0
    }

    open spec fn writes_ok(&self) -> bool {
        true
    }

    fn read(&mut self) -> (result: Result<bool, ControllerError>) {
        if self.0.len() == 0 {
            Err(ControllerError::Hardware("listener pin has no history"))
        } else {
            Ok(self.0[self.0.len() - 1])
        }
    }

    fn write(&mut self, value: bool) -> (result: Result<(), ControllerError>) {
        self.0.push(value);
        Ok(())
    }
}

/// A GPIO pin which replays a fixed list of read values, and which cannot be
/// written to.
///
/// Reads walk through `values` in order and wrap around at the end.  This is
/// the pin to stand in for a device's data-out line in tests.
pub struct VectorPin {
    /// The values handed out by successive reads.
    values: Vec<bool>,
    /// The index of the next value to hand out; always within `values`.
    index: usize,
}

impl VectorPin {
    /// The values this pin replays.
    pub closed spec fn values(&self) -> Seq<bool> {
        self.values@
    }

    /// The position of the next read within the replayed values.
    pub closed spec fn index(&self) -> int {
        self.index as int
    }

    /// This pin after one read: the index advanced, wrapping at the end.
    pub closed spec fn after_read(&self) -> VectorPin {
        if self.index + 1 < self.values@.len() {
            VectorPin { values: self.values, index: (self.index + 1) as usize }
        } else {
            VectorPin { values: self.values, index: 0 }
        }
    }

    /// Construct a pin replaying `values`, starting at the first entry.
    #[must_use]
    pub fn new(values: Vec<bool>) -> (pin: VectorPin)
        requires
            values@.len() > 0,
        ensures
            pin.values() == values@,
            pin.index() == 0,
            pin.reads_ok(),
    {
        VectorPin { values, index: 0 }
    }
}

impl GpioPin for VectorPin {
    open spec fn written(&self) -> Seq<bool> {
        Seq::empty()
    }

    open spec fn read_model(&self) -> Option<(bool, Self)> {
        if 0 < self.values().len() && self.index() < self.values().len() {
            Some((self.values()[self.index()], self.after_read()))
        } else {
            None
        }
    }

    open spec fn reads_ok(&self) -> bool {
        0 < self.values().len() && self.index() < self.values().len()
    }

    open spec fn writes_ok(&self) -> bool {
        false
    }

    fn read(&mut self) -> (result: Result<bool, ControllerError>) {
        if self.index >= self.values.len() {
            return Err(ControllerError::Hardware("replay pin exhausted"));
        }
        let value = self.values[self.index];
        self.index += 1;
        if self.index >= self.values.len() {
            self.index = 0;
        }
        Ok(value)
    }

    fn write(&mut self, _value: bool) -> (result: Result<(), ControllerError>) {
        Err(ControllerError::Hardware("cannot write to replay pin"))
    }
}

/// A pin for wiring spoofed buses in tests, where different roles need
/// different behaviors on one bus: either a write-recording listener or a
/// read-replaying vector pin.
pub enum SpoofPin {
    /// A pin recording its writes.
    Listener(ListenerPin),
    /// A pin replaying fixed reads.
    Vector(VectorPin),
}

impl GpioPin for SpoofPin {
    open spec fn written(&self) -> Seq<bool> {
        match self {
            SpoofPin::Listener(pin) => pin.written(),
            SpoofPin::Vector(pin) => pin.written(),
        }
    }

    open spec fn read_model(&self) -> Option<(bool, Self)> {
        match self {
            SpoofPin::Listener(pin) => match pin.read_model() {
                Some((level, next)) => Some((level, SpoofPin::Listener(next))),
                None => None,
            },
            SpoofPin::Vector(pin) => match pin.read_model() {
                Some((level, next)) => Some((level, SpoofPin::Vector(next))),
                None => None,
            },
        }
    }

    open spec fn reads_ok(&self) -> bool {
        match self {
            SpoofPin::Listener(pin) => pin.reads_ok(),
            SpoofPin::Vector(pin) => pin.reads_ok(),
        }
    }

    open spec fn writes_ok(&self) -> bool {
        match self {
            SpoofPin::Listener(pin) => pin.writes_ok(),
            SpoofPin::Vector(pin) => pin.writes_ok(),
        }
    }

    fn read(&mut self) -> (result: Result<bool, ControllerError>) {
        match self {
            SpoofPin::Listener(pin) => pin.read(),
            SpoofPin::Vector(pin) => pin.read(),
        }
    }

    fn write(&mut self, value: bool) -> (result: Result<(), ControllerError>) {
        match self {
            SpoofPin::Listener(pin) => pin.write(value),
            SpoofPin::Vector(pin) => pin.write(value),
        }
    }
}

#[verifier::external_type_specification]
#[verifier::external_body]
/// A requested line of the GPIO character device, from `gpio_cdev`.
pub struct ExLineHandle(gpio_cdev::LineHandle);

#[verifier::external_type_specification]
#[verifier::external_body]
/// The error type of `gpio_cdev`.
pub struct ExGpioError(GpioError);

/// Relies on `gpio_cdev::LineHandle::get_value`: asks the kernel for the
/// line's current level, `1` meaning active.  Nothing is assumed of the
/// answer - it is whatever the hardware reports.
pub assume_specification[ gpio_cdev::LineHandle::get_value ](
    handle: &gpio_cdev::LineHandle,
) -> Result<u8, GpioError>;

/// Relies on `gpio_cdev::LineHandle::set_value`: asks the kernel to drive
/// the line to the given level, `1` meaning active.  May fail, for example
/// on a line not requested for output.
pub assume_specification[ gpio_cdev::LineHandle::set_value ](
    handle: &gpio_cdev::LineHandle,
    value: u8,
) -> Result<(), GpioError>;

/// A GPIO pin backed by a real line of the GPIO character device.
///
/// Reads and writes go to the kernel and may fail; the pin keeps a ghost
/// record of its successful writes so that the executor contracts can speak
/// about any pin uniformly.
pub struct HardwarePin {
    /// The requested kernel line.
    handle: gpio_cdev::LineHandle,
    /// The successful writes so far.
    hist: Ghost<Seq<bool>>,
}

impl HardwarePin {
    /// The successful writes to this pin so far.
    pub closed spec fn hist(&self) -> Seq<bool> {
        self.hist@
    }

    /// Take ownership of a requested line.
    #[must_use]
    pub fn new(handle: gpio_cdev::LineHandle) -> (pin: HardwarePin)
        ensures
            pin.written() == Seq::<bool>::empty(),
    {
        let ghost hist = Seq::<bool>::empty();
        HardwarePin { handle, hist: Ghost(hist) }
    }
}

impl GpioPin for HardwarePin {
    open spec fn written(&self) -> Seq<bool> {
        self.hist()
    }

    open spec fn read_model(&self) -> Option<(bool, Self)> {
        None
    }

    open spec fn reads_ok(&self) -> bool {
        false
    }

    open spec fn writes_ok(&self) -> bool {
        false
    }

    fn read(&mut self) -> (result: Result<bool, ControllerError>) {
        match self.handle.get_value() {
            Ok(level) => Ok(level == 1),
            Err(e) => Err(ControllerError::Gpio(e)),
        }
    }

    fn write(&mut self, value: bool) -> (result: Result<(), ControllerError>) {
        let level: u8 = if value {
            1
        } else {
            0
        };
        match self.handle.set_value(level) {
            Ok(()) => {
                proof {
                    self.hist@ = self.hist@.push(value);
                }
                Ok(())
            }
            Err(e) => Err(ControllerError::Gpio(e)),
        }
    }
}

/// The minimum frequency at which the SPI clock can operate for the MCP3208
/// to work correctly, in Hertz.
pub const SPI_MIN_FREQUENCY: u64 = 10_000;

/// The three command bytes of an MCP3208 single-ended read on `channel`.
///
/// The first byte carries five zeroes, the start bit, the single-ended mode
/// bit and the highest channel bit; the second byte starts with the two
/// remaining channel bits; the rest of the frame is padding while the device
/// answers.
pub open spec fn mcp3208_frame(channel: u8) -> Seq<u8> {
    seq![0x6u8 | (channel >> 2u8), (channel & 0x3u8) << 6u8, 0u8]
}

/// A structure for interfacing with the MCP3208 ADC.
///
/// The MCP3208 is an 8-channel SPI ADC with 12 bits of resolution, capable
/// of sampling at up to 50k samples per second.
pub struct Mcp3208<P: GpioPin> {
    /// The SPI device associated with this ADC.
    device: spi::Device<P>,
}

/// Decode the reply of an MCP3208 single-ended read.
///
/// `high` is the second byte read back (three high-Z bits, the null bit and
/// the top four data bits) and `low` the third (the bottom eight data bits).
/// The null bit must be zero; a set null bit means the transfer was not
/// correctly framed, and yields a hardware error.
pub fn mcp3208_decode(high: u8, low: u8) -> (result: Result<u16, ControllerError>)
    ensures
        result.is_ok() <==> high & 0x10u8 == 0u8,
        result.is_ok() ==> result == Ok::<u16, ControllerError>(
            (((high & 0x0fu8) as u16) * 256 + (low as u16)) as u16,
        ),
        result.is_ok() ==> result.unwrap() < 4096,
{
    // Verify that we received a null bit (implies the ADC is actually any
    // good)
    if high & 0x10 != 0 {
        return Err(
            ControllerError::Hardware("no null bit received from ADC - is it connected?"),
        );
    }
    assert((high & 0x0fu8) < 16) by (bit_vector);
    // mask out the high-Z data, then assemble the 12-bit big-endian value
    Ok(((high & 0x0f) as u16) * 256 + (low as u16))
}

impl<P: GpioPin> Mcp3208<P> {
    /// The SPI device this reader talks through.
    pub closed spec fn device(&self) -> spi::Device<P> {
        self.device
    }

    /// Construct a new `Mcp3208` talking through `device` over `bus`.
    ///
    /// The bus clock period must be strictly below the period of
    /// `SPI_MIN_FREQUENCY`, which is the minimum operating frequency of an
    /// MCP3208 ADC.
    #[must_use]
    pub fn new(device: spi::Device<P>, bus: &spi::Bus<P>) -> (adc: Mcp3208<P>)
        requires
            bus.period_ns < 1_000_000_000u64 / SPI_MIN_FREQUENCY,
        ensures
            adc.device() == device,
    {
        Mcp3208 { device }
    }

    /// Perform an ADC read on channel `channel` over `bus`.
    /// Returns the raw 12-bit ADC reading of the channel on the device.
    ///
    /// The MCP3208 command frame for the channel is driven out on the bus's
    /// data-out pin, paced by `waiter`; whatever the device answers is
    /// decoded by [`mcp3208_decode`], so a reply without the mandatory null
    /// bit is rejected as a hardware error.  When the data-in pin's own
    /// model determines the reply - a replay pin standing in for the device
    /// - the result is fixed exactly: the second and third reply bytes are
    /// assembled from the sampled levels, the read succeeds if and only if
    /// the null bit among them is clear, and on success it returns the
    /// twelve data bits.
    pub fn read<W: crate::execution::Waiter>(
        &mut self,
        bus: &mut spi::Bus<P>,
        waiter: &mut W,
        channel: u8,
    ) -> (result: Result<u16, ControllerError>)
        requires
            channel < 8,
        ensures
            final(bus).period_ns == old(bus).period_ns,
            final(bus).pin_miso.written() == old(bus).pin_miso.written(),
            old(bus).pin_mosi.writes_ok() == final(bus).pin_mosi.writes_ok(),
            old(bus).pin_clk.writes_ok() == final(bus).pin_clk.writes_ok(),
            old(self).device().cs().writes_ok() == final(self).device().cs().writes_ok(),
            old(bus).pin_miso.reads_ok() ==> final(bus).pin_miso.reads_ok(),
            old(bus).pin_mosi.writes_ok() && old(bus).pin_clk.writes_ok() && old(
                self,
            ).device().cs().writes_ok() && old(bus).pin_miso.reads_ok() ==> {
                &&& final(bus).pin_mosi.written() == old(bus).pin_mosi.written() + spi::bytes_bits(
                    mcp3208_frame(channel),
                )
                &&& final(bus).pin_clk.written() == old(bus).pin_clk.written() + spi::clock_bits(
                    24,
                )
                &&& final(self).device().cs().written() == old(self).device().cs().written().push(
                    false,
                ).push(true)
                &&& final(waiter).waited() == old(waiter).waited() + spi::transfer_waits(
                    24,
                    old(bus).period_ns,
                )
            },
            old(bus).pin_mosi.writes_ok() && old(bus).pin_clk.writes_ok() && old(
                self,
            ).device().cs().writes_ok() && old(bus).pin_miso.reads_ok() && modelled_reads(
                old(bus).pin_miso,
                24,
            ) is Some ==> ({
                let (sampled, end) = modelled_reads(old(bus).pin_miso, 24).unwrap();
                let high = spi::or_bits(0, sampled.subrange(8, 16));
                let low = spi::or_bits(0, sampled.subrange(16, 24));
                &&& final(bus).pin_miso == end
                &&& (result.is_ok() <==> high & 0x10u8 == 0u8)
                &&& (result.is_ok() ==> result == Ok::<u16, ControllerError>(
                    (((high & 0x0fu8) as u16) * 256 + (low as u16)) as u16,
                ))
            }),
            result.is_ok() ==> result.unwrap() < 4096,
    {
        let mut outgoing: Vec<u8> = Vec::new();
        outgoing.push(0x6 | (channel >> 2));
        outgoing.push((channel & 0x3) << 6);
        outgoing.push(0);
        // this buffer will be populated with ADC data by the time we're done
        let mut incoming: Vec<u8> = Vec::new();
        incoming.push(0);
        incoming.push(0);
        incoming.push(0);

        proof {
            assert(outgoing@ =~= mcp3208_frame(channel));
        }

        // perform an SPI transfer
        match self.device.transfer(bus, waiter, outgoing.as_slice(), &mut incoming) {
            Ok(()) => {}
            Err(e) => {
                return Err(e);
            }
        }

        // the last two bytes of `incoming` now hold the null bit and the
        // data bits
        mcp3208_decode(incoming[1], incoming[2])
    }
}

/// A generic trait for an ADC (Analog-to-Digital Converter).
///
/// This is primarily used for dependency injection testing in other parts of
/// the engine controller.
pub trait Adc: Sized {
    /// What a read is allowed to do: how the ADC after the call and the
    /// result relate to the ADC before the call.
    spec fn read_ens(pre: Self, post: Self, channel: u8, result: Result<
        u16,
        ControllerError,
    >) -> bool;

    /// Perform an ADC read.
    ///
    /// To account for multi-channel ADCs, `channel` is the index of the
    /// channel.  On an 8-channel ADC, the valid values for the channel are
    /// between 0 and 7.
    fn read(&mut self, channel: u8) -> (result: Result<u16, ControllerError>)
        requires
            channel < 8,
        ensures
            Self::read_ens(*old(self), *final(self), channel, result),
    ;
}

/// Dummy ADC structure for testing.
///
/// When read from, it will always return the same number every time.
pub struct ReturnsNumber(pub u16);

impl Adc for ReturnsNumber {
    open spec fn read_ens(pre: Self, post: Self, channel: u8, result: Result<
        u16,
        ControllerError,
    >) -> bool {
        post == pre && result == Ok::<u16, ControllerError>(pre.0)
    }

    fn read(&mut self, _channel: u8) -> (result: Result<u16, ControllerError>) {
        Ok(self.0)
    }
}

} // verus!

//! Structures and tools for interfacing via Serial Peripheral Interface
//! (SPI).
//!
//! The bus master here is bit-banged: a transfer drives the chip-select,
//! clock and data-out pins one edge at a time, pausing half a clock period
//! before and after each rising edge, and samples the data-in pin on every
//! rising edge.  The contract fixes the exact order of pin operations, the
//! pauses requested, and - as far as the data-in pin's model determines
//! them - the bytes assembled from what was sampled.

use crate::config::nanos_span;
use crate::execution::Waiter;
use crate::hardware::modelled_reads;
use crate::hardware::GpioPin;
use crate::ControllerError;
use vstd::prelude::*;

verus! {

/// Whether bit `j` of `byte` is set, counting from the most significant bit
/// (`j == 0`) down to the least significant (`j == 7`).
pub open spec fn bit_of(byte: u8, j: int) -> bool {
    (byte >> ((7 - j) as u8)) & 1u8 == 1u8
}

/// The bits of `byte`, most significant first: the order in which a transfer
/// puts them on the wire.
pub open spec fn byte_bits(byte: u8) -> Seq<bool> {
    Seq::new(8, |j: int| bit_of(byte, j))
}

/// The bits of a whole buffer, first byte first, each byte most significant
/// bit first.
pub open spec fn bytes_bits(bytes: Seq<u8>) -> Seq<bool>
    decreases bytes.len(),
{
    if bytes.len() == 0 {
        Seq::empty()
    } else {
        bytes_bits(bytes.drop_last()) + byte_bits(bytes.last())
    }
}

/// The clock trace of `n` bit slots: one rising and one falling edge per
/// slot.
pub open spec fn clock_bits(n: nat) -> Seq<bool> {
    Seq::new(2 * n, |i: int| i % 2 == 0)
}

/// The pause trace of `n` bit slots: two half-period waits per slot, one
/// before and one after the rising clock edge.
pub open spec fn transfer_waits(n: nat, period_ns: u64) -> Seq<crate::config::TimeSpan> {
    Seq::new(2 * n, |i: int| nanos_span(period_ns / 2))
}

/// `base` with, for each `k` where `bits[k]` holds, bit `7 - k` set: how a
/// transfer ors the sampled data-in levels, most significant bit first,
/// onto a byte of the incoming buffer.
pub open spec fn or_bits(base: u8, bits: Seq<bool>) -> u8
    recommends
        bits.len() <= 8,
    decreases bits.len(),
{
    if bits.len() == 0 || bits.len() > 8 {
        base
    } else {
        let prev = or_bits(base, bits.drop_last());
        if bits.last() {
            prev | (1u8 << ((8 - bits.len()) as u8))
        } else {
            prev
        }
    }
}

/// An SPI bus.
/// This structure contains enough information to talk on SPI, but contains
/// no device data.
pub struct Bus<P: GpioPin> {
    /// The clock period in nanoseconds.
    /// The clock period is the time between two rising edges on the clock,
    /// so the length of a pulse (the time between a rising and falling edge)
    /// is half this period.
    pub period_ns: u64,
    /// The clock pin.
    pub pin_clk: P,
    /// The Master Output - Slave Input pin.
    /// This pin is used to send messages to slave devices.
    pub pin_mosi: P,
    /// The Master Input - Slave Output pin.
    /// This pin is used to receive messages from slave devices.
    pub pin_miso: P,
}

impl<P: GpioPin> Bus<P> {
    /// Get the clock period of this bus in nanoseconds.
    #[must_use]
    pub fn clock_period_ns(&self) -> (period: u64)
        ensures
            period == self.period_ns,
    {
        self.period_ns
    }
}

/// An SPI device.
/// This structure is actually a wrapper for a single chip-selection pin for
/// SPI communication; the bus it talks over is handed to each transfer.
pub struct Device<P: GpioPin> {
    /// The chip selection pin.
    pin_cs: P,
}

impl<P: GpioPin> Device<P> {
    /// The chip-select pin of this device.
    pub closed spec fn cs(&self) -> P {
        self.pin_cs
    }

    /// Construct a new device from its chip-select pin.
    pub fn new(pin_cs: P) -> (device: Device<P>)
        ensures
            device.cs() == pin_cs,
    {
        Device { pin_cs }
    }

    /// Perform an SPI transfer operation on this device.
    ///
    /// This transfer is big-endian, that is, the most significant bit of each
    /// byte will be transferred first, and the least significant bit of each
    /// byte will be transferred last in the transmission of the byte.
    ///
    /// On success, the chip select has been pulled low and released high
    /// again, the outgoing buffer's bits have been driven onto the bus's
    /// data-out pin in order, the clock has pulsed once per bit with a
    /// half-period pause requested before and after every rising edge, and
    /// each byte of `incoming` has been or-ed with a byte assembled
    /// most-significant-bit-first from the levels sampled on the data-in
    /// pin at the rising edges.
    ///
    /// # Inputs
    ///
    /// * `bus`: The bus this device lives on.
    /// * `waiter`: The capability used for the half-period pauses.
    /// * `outgoing`: The buffer of bytes which will be sent out to the
    ///   device.
    /// * `incoming`: The buffer that will be populated with bytes from the
    ///   device.  It must have the same length as `outgoing`.
    pub fn transfer<W: Waiter>(
        &mut self,
        bus: &mut Bus<P>,
        waiter: &mut W,
        outgoing: &[u8],
        incoming: &mut Vec<u8>,
    ) -> (result: Result<(), ControllerError>)
        requires
            outgoing@.len() == old(incoming)@.len(),
        ensures
            final(bus).period_ns == old(bus).period_ns,
            final(bus).pin_miso.written() == old(bus).pin_miso.written(),
            old(bus).pin_mosi.writes_ok() == final(bus).pin_mosi.writes_ok(),
            old(bus).pin_clk.writes_ok() == final(bus).pin_clk.writes_ok(),
            old(self).cs().writes_ok() == final(self).cs().writes_ok(),
            old(bus).pin_miso.reads_ok() ==> final(bus).pin_miso.reads_ok(),
            result.is_ok() ==> {
                &&& final(bus).pin_mosi.written() == old(bus).pin_mosi.written() + bytes_bits(
                    outgoing@,
                )
                &&& final(bus).pin_clk.written() == old(bus).pin_clk.written() + clock_bits(
                    (outgoing@.len() * 8) as nat,
                )
                &&& final(self).cs().written() == old(self).cs().written().push(false).push(
                    true,
                )
                &&& final(waiter).waited() == old(waiter).waited() + transfer_waits(
                    (outgoing@.len() * 8) as nat,
                    old(bus).period_ns,
                )
                &&& final(incoming)@.len() == old(incoming)@.len()
            },
            result.is_ok() && modelled_reads(
                old(bus).pin_miso,
                (outgoing@.len() * 8) as nat,
            ) is Some ==> ({
                let (sampled, end) = modelled_reads(
                    old(bus).pin_miso,
                    (outgoing@.len() * 8) as nat,
                ).unwrap();
                &&& final(bus).pin_miso == end
                &&& forall|k: int|
                    0 <= k < outgoing@.len() ==> #[trigger] final(incoming)@[k] == or_bits(
                        old(incoming)@[k],
                        sampled.subrange(8 * k, 8 * k + 8),
                    )
            }),
            result.is_err() ==> final(incoming)@ == old(incoming)@,
            old(bus).pin_mosi.writes_ok() && old(bus).pin_clk.writes_ok() && old(
                self,
            ).cs().writes_ok() && old(bus).pin_miso.reads_ok() ==> result.is_ok(),
    {
        let ghost mosi0 = old(bus).pin_mosi.written();
        let ghost clk0 = old(bus).pin_clk.written();
        let ghost waits0 = old(waiter).waited();
        let ghost miso0 = old(bus).pin_miso;
        let ghost mut sampled: Seq<bool> = Seq::empty();

        // pull chip select down to begin talking
        self.pin_cs.write(false)?;

        let half_period = bus.period_ns / 2;
        let half_span = crate::config::TimeSpan {
            secs: half_period / 1_000_000_000,
            nanos: (half_period % 1_000_000_000) as u32,
        };

        let mut received: Vec<u8> = Vec::new();
        let n = outgoing.len();
        let mut i: usize = 0;
        while i < n
            invariant
                n == outgoing@.len(),
                n == incoming@.len(),
                incoming@ == old(incoming)@,
                i <= n,
                received@.len() == i,
                bus.period_ns == old(bus).period_ns,
                half_span == nanos_span(old(bus).period_ns / 2),
                bus.pin_mosi.written() == mosi0 + bytes_bits(outgoing@.take(i as int)),
                bus.pin_clk.written() == clk0 + clock_bits((i * 8) as nat),
                bus.pin_miso.written() == old(bus).pin_miso.written(),
                waiter.waited() == waits0 + transfer_waits((i * 8) as nat, old(bus).period_ns),
                self.cs().written() == old(self).cs().written().push(false),
                sampled.len() == i * 8,
                modelled_reads(miso0, (i * 8) as nat) is Some ==> modelled_reads(
                    miso0,
                    (i * 8) as nat,
                ) == Some::<(Seq<bool>, P)>((sampled, bus.pin_miso)),
                forall|k: int|
                    0 <= k < i ==> #[trigger] received@[k] == or_bits(
                        old(incoming)@[k],
                        sampled.subrange(8 * k, 8 * k + 8),
                    ),
                old(bus).pin_mosi.writes_ok() == bus.pin_mosi.writes_ok(),
                old(bus).pin_clk.writes_ok() == bus.pin_clk.writes_ok(),
                old(self).cs().writes_ok() == self.cs().writes_ok(),
                old(bus).pin_miso.reads_ok() ==> bus.pin_miso.reads_ok(),
            decreases n - i,
        {
            let byte_out = outgoing[i];
            let mut acc = incoming[i];
            let mut j: usize = 0;
            // iterate from the most significant bit down because this is a
            // big endian transfer
            while j < 8
                invariant
                    i < n,
                    n == outgoing@.len(),
                    n == incoming@.len(),
                    incoming@ == old(incoming)@,
                    j <= 8,
                    received@.len() == i,
                    byte_out == outgoing@[i as int],
                    acc == or_bits(old(incoming)@[i as int], sampled.subrange(8 * i, 8 * i + j)),
                    bus.period_ns == old(bus).period_ns,
                    half_span == nanos_span(old(bus).period_ns / 2),
                    bus.pin_mosi.written() == mosi0 + bytes_bits(outgoing@.take(i as int))
                        + byte_bits(byte_out).take(j as int),
                    bus.pin_clk.written() == clk0 + clock_bits((i * 8 + j) as nat),
                    bus.pin_miso.written() == old(bus).pin_miso.written(),
                    waiter.waited() == waits0 + transfer_waits(
                        (i * 8 + j) as nat,
                        old(bus).period_ns,
                    ),
                    self.cs().written() == old(self).cs().written().push(false),
                    sampled.len() == i * 8 + j,
                    modelled_reads(miso0, (i * 8 + j) as nat) is Some ==> modelled_reads(
                        miso0,
                        (i * 8 + j) as nat,
                    ) == Some::<(Seq<bool>, P)>((sampled, bus.pin_miso)),
                    forall|k: int|
                        0 <= k < i ==> #[trigger] received@[k] == or_bits(
                            old(incoming)@[k],
                            sampled.subrange(8 * k, 8 * k + 8),
                        ),
                    old(bus).pin_mosi.writes_ok() == bus.pin_mosi.writes_ok(),
                    old(bus).pin_clk.writes_ok() == bus.pin_clk.writes_ok(),
                    old(self).cs().writes_ok() == self.cs().writes_ok(),
                    old(bus).pin_miso.reads_ok() ==> bus.pin_miso.reads_ok(),
                decreases 8 - j,
            {
                let shift: u8 = 7 - (j as u8);
                let bit_out = ((byte_out >> shift) & 1) == 1;
                bus.pin_mosi.write(bit_out)?;
                // perform half a clock wait
                waiter.wait(&half_span);
                // rising edge on the clock corresponds to read from device
                bus.pin_clk.write(true)?;
                // read the incoming bit
                let ghost miso_pre = bus.pin_miso;
                let ghost sampled_pre = sampled;
                let bit_in = bus.pin_miso.read()?;
                proof {
                    if modelled_reads(miso0, (i * 8 + j + 1) as nat) is Some {
                        crate::hardware::lemma_modelled_reads_prefix(miso0, (i * 8 + j) as nat);
                        crate::hardware::lemma_modelled_reads_snoc(miso0, (i * 8 + j) as nat);
                    }
                    sampled = sampled.push(bit_in);
                }
                if bit_in {
                    acc = acc | (1u8 << shift);
                }
                // perform half a clock wait
                waiter.wait(&half_span);
                // falling edge on the clock corresponds to write to device
                bus.pin_clk.write(false)?;
                proof {
                    assert(bit_out == bit_of(byte_out, j as int));
                    assert(byte_bits(byte_out).take(j as int).push(bit_of(byte_out, j as int))
                        =~= byte_bits(byte_out).take(j + 1));
                    assert(bus.pin_mosi.written() =~= mosi0 + bytes_bits(
                        outgoing@.take(i as int),
                    ) + byte_bits(byte_out).take(j + 1));
                    assert(clock_bits((i * 8 + j) as nat).push(true).push(false) =~= clock_bits(
                        (i * 8 + j + 1) as nat,
                    ));
                    assert(bus.pin_clk.written() =~= clk0 + clock_bits((i * 8 + j + 1) as nat));
                    assert(transfer_waits((i * 8 + j) as nat, old(bus).period_ns).push(
                        half_span,
                    ).push(half_span) =~= transfer_waits((i * 8 + j + 1) as nat, old(bus).period_ns));
                    assert(waiter.waited() =~= waits0 + transfer_waits(
                        (i * 8 + j + 1) as nat,
                        old(bus).period_ns,
                    ));
                    let segment = sampled.subrange(8 * i, 8 * i + j + 1);
                    assert(segment.drop_last() =~= sampled_pre.subrange(8 * i, 8 * i + j));
                    assert(segment.last() == bit_in);
                    assert(acc == or_bits(old(incoming)@[i as int], segment));
                    assert forall|k: int| 0 <= k < i implies #[trigger] received@[k] == or_bits(
                        old(incoming)@[k],
                        sampled.subrange(8 * k, 8 * k + 8),
                    ) by {
                        assert(sampled.subrange(8 * k, 8 * k + 8) =~= sampled_pre.subrange(
                            8 * k,
                            8 * k + 8,
                        ));
                    }
                }
                j += 1;
            }
            received.push(acc);
            proof {
                let t = outgoing@.take(i + 1);
                assert(t.drop_last() =~= outgoing@.take(i as int));
                assert(t.last() == outgoing@[i as int]);
                assert(byte_bits(byte_out).take(8) =~= byte_bits(byte_out));
                assert(bus.pin_mosi.written() =~= mosi0 + bytes_bits(outgoing@.take(i + 1)));
            }
            i += 1;
        }

        // bring chip select back up to let it know that we're done talking
        self.pin_cs.write(true)?;

        proof {
            assert(outgoing@.take(n as int) =~= outgoing@);
        }
        *incoming = received;
        Ok(())
    }
}

} // verus!

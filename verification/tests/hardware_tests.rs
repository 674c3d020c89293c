use slonk::config::TimeSpan;
use slonk::execution::RecordingWaiter;
use slonk::hardware::spi::{Bus, Device};
use slonk::hardware::{
    mcp3208_decode, Adc, GpioPin, ListenerPin, Mcp3208, ReturnsNumber, SpoofPin, VectorPin,
};

/// The 24 levels a spoofed MISO line replays for one MCP3208 read; with the
/// null bit cleared the data bits spell 2706.
fn good_reply() -> Vec<bool> {
    vec![
        true,  // MSB of first byte read
        true,  //
        true,  //
        true,  //
        true,  //
        true,  //
        true,  //
        true,  // LSB of first byte read
        true,  // MSB of second byte read
        true,  //
        true,  //
        false, // null bit
        true,  // MSB of ADC read value
        false, //
        true,  //
        false, // LSB of second byte read
        true,  // MSB of third byte read
        false, //
        false, //
        true,  //
        false, //
        false, //
        true,  //
        false, // LSB of third byte read / LSB of read value
    ]
}

fn spoofed_bus(miso_values: Vec<bool>) -> Bus<SpoofPin> {
    Bus {
        period_ns: 1_000,
        pin_clk: SpoofPin::Listener(ListenerPin::new(false)),
        pin_mosi: SpoofPin::Listener(ListenerPin::new(false)),
        pin_miso: SpoofPin::Vector(VectorPin::new(miso_values)),
    }
}

#[test]
fn mcp3208_read() {
    let mut bus = spoofed_bus(good_reply());
    let device = Device::new(SpoofPin::Listener(ListenerPin::new(true)));
    let mut adc = Mcp3208::new(device, &bus);
    let mut waiter = RecordingWaiter::new();

    assert_eq!(adc.read(&mut bus, &mut waiter, 0).unwrap(), 2706);
}

#[test]
fn mcp3208_bad_null_bit() {
    let mut reply = good_reply();
    reply[11] = true; // corrupt the null bit
    let mut bus = spoofed_bus(reply);
    let device = Device::new(SpoofPin::Listener(ListenerPin::new(true)));
    let mut adc = Mcp3208::new(device, &bus);
    let mut waiter = RecordingWaiter::new();

    assert!(adc.read(&mut bus, &mut waiter, 0).is_err());
}

#[test]
fn transfer_byte_zeros() {
    let mut bus = Bus {
        period_ns: 1_000,
        pin_mosi: ListenerPin::new(false),
        pin_miso: ListenerPin::new(true),
        pin_clk: ListenerPin::new(false),
    };
    let mut device = Device::new(ListenerPin::new(true));
    let mut incoming = vec![0u8];
    let mut waiter = RecordingWaiter::new();

    device
        .transfer(&mut bus, &mut waiter, &[0xAC], &mut incoming)
        .unwrap();

    assert_eq!(incoming, [0xFF]);
    let readout: &[bool] = bus.pin_mosi.history().as_slice();
    assert_eq!(
        readout,
        &[false, true, false, true, false, true, true, false, false]
    );
    // one half-period pause before and one after each of the eight rising
    // edges
    let half = TimeSpan { secs: 0, nanos: 500 };
    assert_eq!(waiter.requests(), &vec![half; 16]);
}

#[test]
fn listener_pin_history() {
    let mut pin = ListenerPin::new(false);
    assert_eq!(pin.read().unwrap(), false);
    pin.write(true).unwrap();
    assert_eq!(pin.read().unwrap(), true);
    assert_eq!(pin.history(), &vec![false, true]);
}

#[test]
fn returns_number_reads() {
    let mut adc = ReturnsNumber(4);
    assert_eq!(adc.read(0).unwrap(), 4);
    assert_eq!(adc.read(1).unwrap(), 4);
    assert_eq!(adc.read(2).unwrap(), 4);
}

#[test]
fn decode_values() {
    assert_eq!(mcp3208_decode(0x0A, 0x92).unwrap(), 2706);
    assert_eq!(mcp3208_decode(0x00, 0x00).unwrap(), 0);
    assert_eq!(mcp3208_decode(0x0F, 0xFF).unwrap(), 4095);
    assert!(mcp3208_decode(0x1A, 0x92).is_err());
}

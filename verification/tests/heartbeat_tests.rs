use slonk::config::TimeSpan;
use slonk::execution::RecordingWaiter;
use slonk::hardware::ListenerPin;
use slonk::heartbeat::heartbeat_cycle;

#[test]
fn heartbeat_write() {
    let mut pin = ListenerPin::new(false);
    let mut waiter = RecordingWaiter::new();

    heartbeat_cycle(&mut pin, &mut waiter).unwrap();

    assert_eq!(pin.history(), &vec![false, true, false, true, false]);
    let ms50 = TimeSpan { secs: 0, nanos: 50_000_000 };
    let ms850 = TimeSpan { secs: 0, nanos: 850_000_000 };
    assert_eq!(waiter.requests(), &vec![ms50, ms50, ms50, ms850]);
}

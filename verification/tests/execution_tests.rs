use slonk::config::{Action, Configuration, TimeSpan};
use slonk::execution::{
    emergency_stop, handle_command, ignition, perform_actions, push_command_log_row,
    Error, RecordingWaiter,
};
use slonk::hardware::ListenerPin;
use slonk::incoming::Command;
use slonk::state::{Guard, State};

fn config_with(
    drivers: usize,
    ignition_sequence: Vec<Action>,
    estop_sequence: Vec<Action>,
    pre_ignite_time: u32,
    post_ignite_time: u32,
) -> Configuration {
    let drivers = (0..drivers)
        .map(|i| slonk::config::Driver {
            label: format!("driver{i}"),
            label_actuate: "Open".to_string(),
            label_deactuate: "Close".to_string(),
            pin: 20 + i as u8,
            protected: false,
        })
        .collect();
    Configuration {
        frequency_status: 1,
        log_buffer_size: 1,
        sensor_groups: vec![],
        drivers,
        pre_ignite_time,
        post_ignite_time,
        ignition_sequence,
        estop_sequence,
        spi_mosi: 11,
        spi_miso: 12,
        spi_clk: 13,
        spi_frequency_clk: 50_000,
        adc_cs: vec![],
        pin_heartbeat: 0,
    }
}

#[test]
fn ignition_actuation() {
    let config = config_with(
        1,
        vec![
            Action::Actuate { driver_id: 0, value: true },
            Action::Actuate { driver_id: 0, value: false },
        ],
        vec![],
        0,
        0,
    );
    let mut driver_lines = vec![ListenerPin::new(false)];
    let mut waiter = RecordingWaiter::new();
    let mut state = Guard::new(State::Standby);

    ignition(&config, &mut driver_lines, &mut waiter, &mut state).unwrap();

    assert_eq!(driver_lines[0].history().as_slice(), [false, true, false]);
    assert_eq!(state.status(), State::Standby);
}

#[test]
fn estop_actuation() {
    let config = config_with(
        1,
        vec![],
        vec![
            Action::Actuate { driver_id: 0, value: true },
            Action::Actuate { driver_id: 0, value: false },
        ],
        0,
        0,
    );
    let mut driver_lines = vec![ListenerPin::new(false)];
    let mut waiter = RecordingWaiter::new();
    let mut state = Guard::new(State::Standby);

    emergency_stop(&config, &mut driver_lines, &mut waiter, &mut state).unwrap();

    assert_eq!(driver_lines[0].history().as_slice(), [false, true, false]);
    assert_eq!(state.status(), State::Standby);
}

#[test]
fn estop_deduplicated() {
    // while another initiator is mid-stop, a second emergency stop succeeds
    // without touching the drivers and without running the sequence again
    let config = config_with(
        1,
        vec![],
        vec![Action::Actuate { driver_id: 0, value: true }],
        0,
        0,
    );
    let mut driver_lines = vec![ListenerPin::new(false)];
    let mut waiter = RecordingWaiter::new();
    let mut state = Guard::new(State::EStopping);

    emergency_stop(&config, &mut driver_lines, &mut waiter, &mut state).unwrap();

    assert_eq!(driver_lines[0].history().as_slice(), [false]);
    assert_eq!(state.status(), State::EStopping);
}

#[test]
fn estop_refused_after_quit() {
    let config = config_with(0, vec![], vec![], 0, 0);
    let mut driver_lines: Vec<ListenerPin> = Vec::new();
    let mut waiter = RecordingWaiter::new();
    let mut state = Guard::new(State::Quit);

    let result = emergency_stop(&config, &mut driver_lines, &mut waiter, &mut state);
    assert_eq!(
        result,
        Err(Error::State(slonk::state::Error::IllegalTransition {
            from: State::Quit,
            to: State::EStopping,
        }))
    );
}

#[test]
fn ignition_rejected_outside_standby() {
    let config = config_with(0, vec![], vec![], 0, 0);
    let mut driver_lines: Vec<ListenerPin> = Vec::new();
    let mut waiter = RecordingWaiter::new();
    let mut state = Guard::new(State::PreIgnite);

    let result = ignition(&config, &mut driver_lines, &mut waiter, &mut state);
    assert_eq!(
        result,
        Err(Error::State(slonk::state::Error::IllegalTransition {
            from: State::PreIgnite,
            to: State::PreIgnite,
        }))
    );
    assert_eq!(state.status(), State::PreIgnite);
}

#[test]
fn ignition_hold_requests() {
    // with 500 ms holds and one 500 ms scripted sleep, the procedure asks
    // for exactly three pauses, in order
    let half_second = TimeSpan { secs: 0, nanos: 500_000_000 };
    let config = config_with(
        0,
        vec![Action::Sleep { duration: half_second }],
        vec![],
        500,
        500,
    );
    let mut driver_lines: Vec<ListenerPin> = Vec::new();
    let mut waiter = RecordingWaiter::new();
    let mut state = Guard::new(State::Standby);

    ignition(&config, &mut driver_lines, &mut waiter, &mut state).unwrap();

    assert_eq!(
        waiter.requests(),
        &vec![half_second, half_second, half_second]
    );
    assert_eq!(state.status(), State::Standby);
}

#[test]
fn sleep_actions_are_unobservable() {
    // inserting a zero-length sleep between two actuations changes nothing
    // about what the drivers see
    let with_sleep = vec![
        Action::Actuate { driver_id: 0, value: true },
        Action::Sleep { duration: TimeSpan { secs: 0, nanos: 0 } },
        Action::Actuate { driver_id: 0, value: false },
    ];
    let without_sleep = vec![
        Action::Actuate { driver_id: 0, value: true },
        Action::Actuate { driver_id: 0, value: false },
    ];

    let mut lines_a = vec![ListenerPin::new(false)];
    let mut waiter_a = RecordingWaiter::new();
    perform_actions(&mut lines_a, &mut waiter_a, &with_sleep).unwrap();

    let mut lines_b = vec![ListenerPin::new(false)];
    let mut waiter_b = RecordingWaiter::new();
    perform_actions(&mut lines_b, &mut waiter_b, &without_sleep).unwrap();

    assert_eq!(lines_a[0].history(), lines_b[0].history());
}

#[test]
fn actuate_command_out_of_bounds() {
    let config = config_with(1, vec![], vec![], 0, 0);
    let mut driver_lines = vec![ListenerPin::new(false)];
    let mut waiter = RecordingWaiter::new();
    let mut state = Guard::new(State::Standby);

    let cmd = Command::Actuate { driver_id: 1, value: true };
    let result = handle_command(&cmd, &config, &mut driver_lines, &mut waiter, &mut state);
    assert_eq!(result, Err(Error::DriverOutOfBounds));
    assert_eq!(driver_lines[0].history().as_slice(), [false]);

    let cmd = Command::Actuate { driver_id: 0, value: true };
    handle_command(&cmd, &config, &mut driver_lines, &mut waiter, &mut state).unwrap();
    assert_eq!(driver_lines[0].history().as_slice(), [false, true]);
}

#[test]
fn command_log_rows_exact() {
    let mut row = Vec::new();
    push_command_log_row(&mut row, 42, false, &Command::Actuate { driver_id: 5, value: true });
    assert_eq!(String::from_utf8(row).unwrap(), "42,request,actuate 5 true\n");

    let mut row = Vec::new();
    push_command_log_row(&mut row, 43, true, &Command::Ignition);
    assert_eq!(String::from_utf8(row).unwrap(), "43,finish,ignition\n");

    let mut row = Vec::new();
    push_command_log_row(&mut row, 44, false, &Command::EmergencyStop);
    assert_eq!(String::from_utf8(row).unwrap(), "44,request,estop\n");
}

#[test]
fn failing_driver_reports_poison() {
    // a driver line that refuses writes surfaces as the executor's lock
    // error, and the remaining actions are still attempted
    let actions = vec![
        slonk::config::Action::Actuate { driver_id: 0, value: true },
        slonk::config::Action::Actuate { driver_id: 1, value: true },
    ];
    let mut driver_lines = vec![
        slonk::hardware::SpoofPin::Vector(slonk::hardware::VectorPin::new(vec![false])),
        slonk::hardware::SpoofPin::Listener(ListenerPin::new(false)),
    ];
    let mut waiter = RecordingWaiter::new();

    let result = perform_actions(&mut driver_lines, &mut waiter, &actions);
    assert_eq!(result, Err(Error::Poison));
    let slonk::hardware::SpoofPin::Listener(second) = &driver_lines[1] else { panic!() };
    assert_eq!(second.history().as_slice(), [false, true]);
}

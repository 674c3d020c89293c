use slonk::state::{Error, Guard, State};

const ALL_STATES: [State; 6] = [
    State::Standby,
    State::PreIgnite,
    State::Ignite,
    State::PostIgnite,
    State::EStopping,
    State::Quit,
];

/// The legal transition table of the controller.
fn legal(from: State, to: State) -> bool {
    match to {
        State::Standby => from == State::EStopping || from == State::PostIgnite,
        State::PreIgnite | State::Quit => from == State::Standby,
        State::Ignite => from == State::PreIgnite,
        State::PostIgnite => from == State::Ignite,
        State::EStopping => from != State::Quit && from != State::EStopping,
    }
}

#[test]
fn illegal_transition() {
    let mut guard = Guard::new(State::Standby);
    let result = guard.move_to(State::Ignite);
    assert_eq!(
        result,
        Err(Error::IllegalTransition { from: State::Standby, to: State::Ignite })
    );
    assert_eq!(guard.status(), State::Standby);
}

#[test]
fn full_ignition_cycle() {
    let mut guard = Guard::new(State::Standby);
    assert!(guard.move_to(State::PreIgnite).is_ok());
    assert!(guard.move_to(State::Ignite).is_ok());
    assert!(guard.move_to(State::PostIgnite).is_ok());
    assert!(guard.move_to(State::Standby).is_ok());
    assert!(guard.move_to(State::Quit).is_ok());
    assert_eq!(guard.status(), State::Quit);
}

#[test]
fn every_transition_pair() {
    for &from in &ALL_STATES {
        for &to in &ALL_STATES {
            let mut guard = Guard::new(from);
            let result = guard.move_to(to);
            assert_eq!(result.is_ok(), legal(from, to), "from {from:?} to {to:?}");
            let expected = if legal(from, to) { to } else { from };
            assert_eq!(guard.status(), expected, "from {from:?} to {to:?}");
            if result.is_err() {
                assert_eq!(result, Err(Error::IllegalTransition { from, to }));
            }
        }
    }
}

#[test]
fn estop_reentry_rejected() {
    let mut guard = Guard::new(State::EStopping);
    let result = guard.move_to(State::EStopping);
    assert_eq!(
        result,
        Err(Error::IllegalTransition { from: State::EStopping, to: State::EStopping })
    );
    assert_eq!(guard.status(), State::EStopping);
}

#[test]
fn estop_reachable_in_flight() {
    for &from in &[State::Standby, State::PreIgnite, State::Ignite, State::PostIgnite] {
        let mut guard = Guard::new(from);
        assert!(guard.move_to(State::EStopping).is_ok());
        assert!(guard.move_to(State::Standby).is_ok());
    }
}

//! Command execution: single actuations and the scripted ignition and
//! emergency-stop procedures.
//!
//! Every sleep goes through a [`Waiter`], so the procedures themselves are
//! pure sequences of pin writes and state transitions; what they do to the
//! driver pins and to the state guard is stated exactly in their contracts.

use crate::config::actions_ok;
use crate::config::Action;
use crate::config::Configuration;
use crate::config::TimeSpan;
use crate::hardware::GpioPin;
use crate::incoming::command_text;
use crate::incoming::push_command_text;
use crate::incoming::Command;
use crate::state;
use crate::state::Guard;
use crate::state::State;
use crate::text::ascii_bytes;
use crate::text::dec_bytes;
use crate::text::push_ascii;
use crate::text::push_dec_u64;
use vstd::prelude::*;

verus! {

/// The set of possible errors that could be encountered while executing a
/// command.
#[derive(Debug, Clone, Copy, PartialEq, Eq, Structural)]
pub enum Error {
    /// A lock was poisoned, or a driver write failed.
    Poison,
    /// The command tried to actuate a driver that doesn't exist.
    DriverOutOfBounds,
    /// While executing a procedure, an illegal transition was attempted.
    State(state::Error),
}

/// A capability for blocking the calling thread.
///
/// The procedures below never sleep themselves: they ask their waiter to.
/// The waiter records the spans it was asked for, so a procedure's contract
/// can say exactly which pauses it requests and in what order; what a waiter
/// does with the request (really sleep, or just note it down) is up to the
/// implementation.
pub trait Waiter: Sized {
    /// The spans this waiter has been asked to pause for, oldest first.
    spec fn waited(&self) -> Seq<TimeSpan>;

    /// Block the calling thread for roughly `duration`.
    fn wait(&mut self, duration: &TimeSpan)
        ensures
            final(self).waited() == old(self).waited().push(*duration),
    ;
}

/// A waiter that only records what it was asked, without blocking.
///
/// This is the waiter to hand a procedure under test: afterwards its log
/// holds every requested pause in order.
pub struct RecordingWaiter {
    /// The requested spans, oldest first.
    log: Vec<TimeSpan>,
}

impl RecordingWaiter {
    /// The spans recorded so far, oldest first.
    pub closed spec fn recorded(&self) -> Seq<TimeSpan> {
        self.log@
    }

    /// Construct a waiter with an empty log.
    #[must_use]
    pub fn new() -> (waiter: RecordingWaiter)
        ensures
            waiter.waited() == Seq::<TimeSpan>::empty(),
    {
        RecordingWaiter { log: Vec::new() }
    }

    /// The spans this waiter has been asked to pause for, oldest first.
    #[must_use]
    pub fn requests(&self) -> (requests: &Vec<TimeSpan>)
        ensures
            requests@ == self.waited(),
    {
        &self.log
    }
}

impl Waiter for RecordingWaiter {
    open spec fn waited(&self) -> Seq<TimeSpan> {
        self.recorded()
    }

    fn wait(&mut self, duration: &TimeSpan) {
        self.log.push(*duration);
    }
}

/// Relies on `nix::poll::poll`: with no file descriptors to watch it
/// simply blocks the calling thread for up to `ms` milliseconds.  A
/// negative timeout would block forever, so none is accepted.
#[verifier::external_body]
fn os_block_ms(ms: i32)
    requires
        ms >= 0,
{
    let mut fds: [nix::poll::PollFd; 0] = [];
    let _ = nix::poll::poll(&mut fds, ms);
}

/// A waiter that really blocks the calling thread, for the running
/// controller.  Timing is best-effort: the pause is rounded up to whole
/// milliseconds and capped at the widest wait the OS call takes.
pub struct BlockingWaiter {
    /// The spans requested so far.
    log: Ghost<Seq<TimeSpan>>,
}

impl BlockingWaiter {
    /// The spans requested so far, oldest first.
    pub closed spec fn requested(&self) -> Seq<TimeSpan> {
        self.log@
    }

    /// Construct a waiter that has not waited yet.
    #[must_use]
    pub fn new() -> (waiter: BlockingWaiter)
        ensures
            waiter.waited() == Seq::<TimeSpan>::empty(),
    {
        let ghost log = Seq::<TimeSpan>::empty();
        BlockingWaiter { log: Ghost(log) }
    }
}

impl Waiter for BlockingWaiter {
    open spec fn waited(&self) -> Seq<TimeSpan> {
        self.requested()
    }

    fn wait(&mut self, duration: &TimeSpan) {
        let ms: i32 = if duration.secs >= 2_000_000 {
            2_147_483_647
        } else {
            let whole: u64 = duration.secs * 1000 + (duration.nanos / 1_000_000) as u64;
            let rounded: u64 = if duration.nanos % 1_000_000 != 0 {
                whole + 1
            } else {
                whole
            };
            if rounded > 2_147_483_647 {
                2_147_483_647
            } else {
                rounded as i32
            }
        };
        os_block_ms(ms);
        proof {
            self.log@ = self.log@.push(*duration);
        }
    }
}

/// The span of `ms` milliseconds.
pub open spec fn millis_span(ms: u32) -> TimeSpan {
    TimeSpan { secs: (ms / 1000) as u64, nanos: ((ms % 1000) * 1_000_000) as u32 }
}

/// The values that running `actions` writes to driver `driver`, in order.
pub open spec fn writes_of(actions: Seq<Action>, driver: int) -> Seq<bool>
    decreases actions.len(),
{
    if actions.len() == 0 {
        Seq::empty()
    } else {
        writes_of(actions.drop_last(), driver) + match actions.last() {
            Action::Actuate { driver_id, value } => if driver_id == driver {
                seq![value]
            } else {
                Seq::empty()
            },
            Action::Sleep { .. } => Seq::empty(),
        }
    }
}

/// The pauses that running `actions` requests, in order.
pub open spec fn sleeps_of(actions: Seq<Action>) -> Seq<TimeSpan>
    decreases actions.len(),
{
    if actions.len() == 0 {
        Seq::empty()
    } else {
        sleeps_of(actions.drop_last()) + match actions.last() {
            Action::Actuate { .. } => Seq::empty(),
            Action::Sleep { duration } => seq![duration],
        }
    }
}

/// Whether every pin among `lines` accepts writes.
pub open spec fn lines_writes_ok<P: GpioPin>(lines: Seq<P>) -> bool {
    forall|p: int| 0 <= p < lines.len() ==> (#[trigger] lines[p]).writes_ok()
}

/// The driver histories after running `actions` on top of `lines`.
pub open spec fn lines_after<P: GpioPin>(lines: Seq<P>, actions: Seq<Action>, p: int) -> Seq<
    bool,
> {
    lines[p].written() + writes_of(actions, p)
}

/// How a procedure is allowed to leave the driver collection: same length,
/// same failure model, and - whenever the procedure succeeded - each pin's
/// history extended by exactly the writes the action list prescribes for it.
pub open spec fn lines_preserved<P: GpioPin>(pre: Seq<P>, post: Seq<P>) -> bool {
    &&& post.len() == pre.len()
    &&& forall|p: int|
        0 <= p < pre.len() ==> (#[trigger] post[p]).writes_ok() == pre[p].writes_ok()
    &&& forall|p: int|
        0 <= p < pre.len() ==> (pre[p].reads_ok() ==> (#[trigger] post[p]).reads_ok())
}

/// Actuate a given driver to a given value.
///
/// # Inputs
///
/// * `driver_lines`: A table of GPIO lines for all drivers.
/// * `driver_id`: The ID of the driver to be actuated; an index into
///   `driver_lines`.
/// * `value`: The logic level that the driver should be actuated to.
pub fn actuate_driver<P: GpioPin>(driver_lines: &mut Vec<P>, driver_id: u8, value: bool) -> (result:
    Result<(), Error>)
    requires
        (driver_id as nat) < old(driver_lines)@.len(),
    ensures
        lines_preserved(old(driver_lines)@, final(driver_lines)@),
        old(driver_lines)@[driver_id as int].writes_ok() ==> result.is_ok(),
        result.is_ok() ==> final(driver_lines)@[driver_id as int].written() == old(driver_lines)@[driver_id as int].written().push(value),
        result.is_ok() ==> forall|p: int|
            0 <= p < old(driver_lines)@.len() && p != driver_id ==> (#[trigger] final(driver_lines)@[p]).written() == old(driver_lines)@[p].written(),
        result.is_err() ==> result == Err::<(), Error>(Error::Poison) && forall|p: int|
            0 <= p < old(driver_lines)@.len() ==> (#[trigger] final(driver_lines)@[p]).written()
                == old(driver_lines)@[p].written(),
{
    let line = &mut driver_lines[driver_id as usize];
    match line.write(value) {
        Ok(()) => Ok(()),
        Err(_) => Err(Error::Poison),
    }
}

/// Perform a sequence of actions, such as for emergency stopping or for
/// ignition.
///
/// Every action is attempted even if an earlier actuation failed; the first
/// failure, if any, is reported once the sequence is done.  Sleeps are
/// always requested, in order.
pub fn perform_actions<P: GpioPin, W: Waiter>(
    driver_lines: &mut Vec<P>,
    waiter: &mut W,
    actions: &Vec<Action>,
) -> (result: Result<(), Error>)
    requires
        actions_ok(actions@, old(driver_lines)@.len()),
    ensures
        lines_preserved(old(driver_lines)@, final(driver_lines)@),
        final(waiter).waited() == old(waiter).waited() + sleeps_of(actions@),
        lines_writes_ok(old(driver_lines)@) ==> result.is_ok(),
        result.is_ok() ==> forall|p: int|
            0 <= p < old(driver_lines)@.len() ==> (#[trigger] final(driver_lines)@[p]).written()
                == lines_after(old(driver_lines)@, actions@, p),
        result.is_err() ==> result == Err::<(), Error>(Error::Poison),
{
    let n = actions.len();
    let mut i: usize = 0;
    let mut failed = false;
    while i < n
        invariant
            n == actions@.len(),
            i <= n,
            actions_ok(actions@, old(driver_lines)@.len()),
            lines_preserved(old(driver_lines)@, driver_lines@),
            waiter.waited() == old(waiter).waited() + sleeps_of(actions@.take(i as int)),
            lines_writes_ok(old(driver_lines)@) ==> !failed,
            !failed ==> forall|p: int|
                0 <= p < old(driver_lines)@.len() ==> (#[trigger] driver_lines@[p]).written()
                    == lines_after(old(driver_lines)@, actions@.take(i as int), p),
        decreases n - i,
    {
        let ghost pre_lines = driver_lines@;
        match &actions[i] {
            Action::Actuate { driver_id, value } => {
                if actuate_driver(driver_lines, *driver_id, *value).is_err() {
                    failed = true;
                }
            }
            Action::Sleep { duration } => {
                waiter.wait(duration);
            }
        }
        proof {
            let t = actions@.take(i + 1);
            assert(t.drop_last() =~= actions@.take(i as int));
            assert(t.last() == actions@[i as int]);
            assert(waiter.waited() =~= old(waiter).waited() + sleeps_of(actions@.take(i + 1)));
            if !failed {
                assert forall|p: int| 0 <= p < old(driver_lines)@.len() implies (#[trigger] driver_lines@[p]).written()
                    == lines_after(old(driver_lines)@, actions@.take(i + 1), p) by {
                    assert(pre_lines[p].written() == lines_after(
                        old(driver_lines)@,
                        actions@.take(i as int),
                        p,
                    ));
                    assert(driver_lines@[p].written() =~= lines_after(
                        old(driver_lines)@,
                        actions@.take(i + 1),
                        p,
                    ));
                }
            }
        }
        i += 1;
    }
    proof {
        assert(actions@.take(n as int) =~= actions@);
    }
    if failed {
        Err(Error::Poison)
    } else {
        Ok(())
    }
}

/// Attempt to perform an emergency stop procedure.
///
/// The move into `EStopping` is attempted first.  If the controller is
/// already `EStopping`, another initiator is running the stop: this call
/// does nothing further and reports success, so the scripted sequence runs
/// exactly once per stop.  From `Quit` the stop is refused.  Otherwise the
/// whole estop sequence is run - every action attempted even if one fails -
/// and the controller is returned to `Standby` before any actuation failure
/// is reported.
pub fn emergency_stop<P: GpioPin, W: Waiter>(
    configuration: &Configuration,
    driver_lines: &mut Vec<P>,
    waiter: &mut W,
    state: &mut Guard,
) -> (result: Result<(), Error>)
    requires
        old(state).wf(),
        actions_ok(configuration.estop_sequence@, old(driver_lines)@.len()),
    ensures
        final(state).wf(),
        lines_preserved(old(driver_lines)@, final(driver_lines)@),
        old(state).current() == State::EStopping ==> {
            &&& result.is_ok()
            &&& *final(state) == *old(state)
            &&& final(driver_lines)@ == old(driver_lines)@
            &&& final(waiter).waited() == old(waiter).waited()
        },
        old(state).current() == State::Quit ==> {
            &&& result == Err::<(), Error>(
                Error::State(
                    state::Error::IllegalTransition { from: State::Quit, to: State::EStopping },
                ),
            )
            &&& *final(state) == *old(state)
            &&& final(driver_lines)@ == old(driver_lines)@
            &&& final(waiter).waited() == old(waiter).waited()
        },
        old(state).current() != State::EStopping && old(state).current() != State::Quit ==> {
            &&& final(state).current() == State::Standby
            &&& final(state).trace() == old(state).trace().push(State::EStopping).push(
                State::Standby,
            )
            &&& final(waiter).waited() == old(waiter).waited() + sleeps_of(
                configuration.estop_sequence@,
            )
            &&& (lines_writes_ok(old(driver_lines)@) ==> result.is_ok())
            &&& (result.is_ok() ==> forall|p: int|
                0 <= p < old(driver_lines)@.len() ==> (#[trigger] final(driver_lines)@[p]).written()
                    == lines_after(old(driver_lines)@, configuration.estop_sequence@, p))
        },
{
    // transition to EStopping, and if something else is already doing an
    // emergency stop, don't interfere
    match state.move_to(State::EStopping) {
        Ok(()) => {}
        Err(state::Error::IllegalTransition { from: State::EStopping, to: _ }) => {
            return Ok(());
        }
        Err(e) => {
            return Err(Error::State(e));
        }
    }

    let sequence_result = perform_actions(driver_lines, waiter, &configuration.estop_sequence);

    // done doing the estop sequence, move back to standby
    match state.move_to(State::Standby) {
        Ok(()) => {}
        Err(e) => {
            return Err(Error::State(e));
        }
    }

    sequence_result
}

/// Attempt to perform an ignition procedure.
///
/// From `Standby` the trajectory is: `PreIgnite`, hold for the configured
/// pre-ignition time, `Ignite`, run the scripted ignition sequence,
/// `PostIgnite`, hold for the configured post-ignition time, and back to
/// `Standby`.  From any other state the first transition is refused and
/// nothing has happened.
pub fn ignition<P: GpioPin, W: Waiter>(
    configuration: &Configuration,
    driver_lines: &mut Vec<P>,
    waiter: &mut W,
    state: &mut Guard,
) -> (result: Result<(), Error>)
    requires
        old(state).wf(),
        actions_ok(configuration.ignition_sequence@, old(driver_lines)@.len()),
    ensures
        final(state).wf(),
        lines_preserved(old(driver_lines)@, final(driver_lines)@),
        old(state).current() != State::Standby ==> {
            &&& result == Err::<(), Error>(
                Error::State(
                    state::Error::IllegalTransition {
                        from: old(state).current(),
                        to: State::PreIgnite,
                    },
                ),
            )
            &&& *final(state) == *old(state)
            &&& final(driver_lines)@ == old(driver_lines)@
            &&& final(waiter).waited() == old(waiter).waited()
        },
        old(state).current() == State::Standby ==> {
            &&& (lines_writes_ok(old(driver_lines)@) ==> result.is_ok())
            &&& (result.is_ok() ==> {
                &&& final(state).current() == State::Standby
                &&& final(state).trace() == old(state).trace() + seq![
                    State::PreIgnite,
                    State::Ignite,
                    State::PostIgnite,
                    State::Standby,
                ]
                &&& final(waiter).waited() == old(waiter).waited() + seq![
                    millis_span(configuration.pre_ignite_time),
                ] + sleeps_of(configuration.ignition_sequence@) + seq![
                    millis_span(configuration.post_ignite_time),
                ]
                &&& forall|p: int|
                    0 <= p < old(driver_lines)@.len() ==> (#[trigger] final(driver_lines)@[p]).written() == lines_after(
                        old(driver_lines)@,
                        configuration.ignition_sequence@,
                        p,
                    )
            })
        },
{
    match state.move_to(State::PreIgnite) {
        Ok(()) => {}
        Err(e) => {
            return Err(Error::State(e));
        }
    }
    let pre_span = TimeSpan {
        secs: (configuration.pre_ignite_time / 1000) as u64,
        nanos: (configuration.pre_ignite_time % 1000) * 1_000_000,
    };
    waiter.wait(&pre_span);

    match state.move_to(State::Ignite) {
        Ok(()) => {}
        Err(e) => {
            return Err(Error::State(e));
        }
    }
    let sequence_result = perform_actions(driver_lines, waiter, &configuration.ignition_sequence);
    if sequence_result.is_err() {
        return sequence_result;
    }

    match state.move_to(State::PostIgnite) {
        Ok(()) => {}
        Err(e) => {
            return Err(Error::State(e));
        }
    }
    let post_span = TimeSpan {
        secs: (configuration.post_ignite_time / 1000) as u64,
        nanos: (configuration.post_ignite_time % 1000) * 1_000_000,
    };
    waiter.wait(&post_span);

    match state.move_to(State::Standby) {
        Ok(()) => {}
        Err(e) => {
            return Err(Error::State(e));
        }
    }

    proof {
        assert(final(state).trace() =~= old(state).trace() + seq![
            State::PreIgnite,
            State::Ignite,
            State::PostIgnite,
            State::Standby,
        ]);
        assert(final(waiter).waited() =~= old(waiter).waited() + seq![
            millis_span(configuration.pre_ignite_time),
        ] + sleeps_of(configuration.ignition_sequence@) + seq![
            millis_span(configuration.post_ignite_time),
        ]);
    }
    Ok(())
}

/// The rendering of one command-log row: the timestamp in nanoseconds, the
/// phase (`request` when execution starts, `finish` when it completes), and
/// the command, comma-separated and newline-terminated.
pub open spec fn command_log_row(timestamp_ns: u64, finished: bool, cmd: Command) -> Seq<u8> {
    dec_bytes(timestamp_ns as nat) + (if finished {
        ascii_bytes(",finish,"@)
    } else {
        ascii_bytes(",request,"@)
    }) + command_text(cmd) + ascii_bytes("\n"@)
}

/// Append one command-log row to `buf`.
pub fn push_command_log_row(buf: &mut Vec<u8>, timestamp_ns: u64, finished: bool, cmd: &Command)
    ensures
        final(buf)@ == old(buf)@ + command_log_row(timestamp_ns, finished, *cmd),
{
    push_dec_u64(buf, timestamp_ns);
    if finished {
        proof {
            reveal_strlit(",finish,");
        }
        push_ascii(buf, ",finish,");
    } else {
        proof {
            reveal_strlit(",request,");
        }
        push_ascii(buf, ",request,");
    }
    push_command_text(buf, cmd);
    proof {
        reveal_strlit("\n");
    }
    push_ascii(buf, "\n");
}

/// Execute a command.
///
/// # Inputs
///
/// * `cmd`: The command to be executed.
/// * `configuration`: Configuration object for program execution.
/// * `driver_lines`: Output lines for the drivers.  Each index in
///   `driver_lines` corresponds one-to-one with the drivers in
///   `configuration`.
/// * `waiter`: The capability used for the holds inside procedures.
/// * `state`: The controller for the current system state.
///
/// The shell that owns the command log writes the `request` row before
/// calling this and the `finish` row after it returns; both rows come from
/// [`push_command_log_row`].
pub fn handle_command<P: GpioPin, W: Waiter>(
    cmd: &Command,
    configuration: &Configuration,
    driver_lines: &mut Vec<P>,
    waiter: &mut W,
    state: &mut Guard,
) -> (result: Result<(), Error>)
    requires
        old(state).wf(),
        configuration.sequences_ok(),
        old(driver_lines)@.len() == configuration.drivers@.len(),
    ensures
        final(state).wf(),
        lines_preserved(old(driver_lines)@, final(driver_lines)@),
        cmd matches Command::Actuate { driver_id, value } ==> {
            &&& ((driver_id as nat) >= configuration.drivers@.len() <==> result == Err::<
                (),
                Error,
            >(Error::DriverOutOfBounds))
            &&& *final(state) == *old(state)
            &&& final(waiter).waited() == old(waiter).waited()
            &&& ((driver_id as nat) < configuration.drivers@.len() && old(driver_lines)@[driver_id as int].writes_ok() ==> result.is_ok())
            &&& (result.is_ok() ==> final(driver_lines)@[driver_id as int].written() == old(driver_lines)@[driver_id as int].written().push(*value))
        },
        *cmd == Command::Ignition && old(state).current() == State::Standby && lines_writes_ok(
            old(driver_lines)@,
        ) ==> {
            &&& result.is_ok()
            &&& final(state).current() == State::Standby
            &&& final(state).trace() == old(state).trace() + seq![
                State::PreIgnite,
                State::Ignite,
                State::PostIgnite,
                State::Standby,
            ]
            &&& forall|p: int|
                0 <= p < old(driver_lines)@.len() ==> (#[trigger] final(driver_lines)@[p]).written()
                    == lines_after(old(driver_lines)@, configuration.ignition_sequence@, p)
        },
        *cmd == Command::Ignition && old(state).current() != State::Standby ==> result == Err::<
            (),
            Error,
        >(
            Error::State(
                state::Error::IllegalTransition {
                    from: old(state).current(),
                    to: State::PreIgnite,
                },
            ),
        ) && *final(state) == *old(state),
        *cmd == Command::EmergencyStop && old(state).current() != State::Quit && lines_writes_ok(
            old(driver_lines)@,
        ) ==> result.is_ok(),
        *cmd == Command::EmergencyStop && old(state).current() == State::EStopping ==> {
            &&& *final(state) == *old(state)
            &&& final(driver_lines)@ == old(driver_lines)@
            &&& final(waiter).waited() == old(waiter).waited()
        },
        *cmd == Command::EmergencyStop && old(state).current() != State::EStopping && old(state).current() != State::Quit ==> {
            &&& final(state).current() == State::Standby
            &&& final(state).trace() == old(state).trace().push(State::EStopping).push(
                State::Standby,
            )
            &&& (result.is_ok() ==> forall|p: int|
                0 <= p < old(driver_lines)@.len() ==> (#[trigger] final(driver_lines)@[p]).written()
                    == lines_after(old(driver_lines)@, configuration.estop_sequence@, p))
        },
{
    match cmd {
        Command::Actuate { driver_id, value } => {
            if *driver_id as usize >= configuration.drivers.len() {
                // we were asked to actuate a non-existent driver
                return Err(Error::DriverOutOfBounds);
            }
            actuate_driver(driver_lines, *driver_id, *value)
        }
        Command::Ignition => ignition(configuration, driver_lines, waiter, state),
        Command::EmergencyStop => emergency_stop(configuration, driver_lines, waiter, state),
    }
}

/// A pause is invisible on the drivers: inserting a `Sleep` action anywhere
/// in a sequence leaves the values written to every driver unchanged.
pub proof fn lemma_sleep_writes_nothing(
    actions: Seq<Action>,
    at: int,
    duration: TimeSpan,
    driver: int,
)
    requires
        0 <= at <= actions.len(),
    ensures
        writes_of(
            actions.insert(at, Action::Sleep { duration }),
            driver,
        ) == writes_of(actions, driver),
    decreases actions.len(),
{
    let inserted = actions.insert(at, Action::Sleep { duration });
    if at == actions.len() {
        assert(inserted.drop_last() =~= actions);
        assert(writes_of(inserted, driver) =~= writes_of(actions, driver));
    } else {
        assert(inserted.last() == actions.last());
        assert(inserted.drop_last() =~= actions.drop_last().insert(at, Action::Sleep { duration }));
        lemma_sleep_writes_nothing(actions.drop_last(), at, duration, driver);
        assert(writes_of(inserted, driver) =~= writes_of(actions, driver));
    }
}

} // verus!

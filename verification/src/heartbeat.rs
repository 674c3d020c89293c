//! The heartbeat blink pattern.
//!
//! While the server runs, a heartbeat thread alternates the level of a
//! dedicated LED pin so that a human can see at a glance that the
//! controller is alive.  One cycle of the pattern is verified here; the
//! shell loops it until the controller quits.

use crate::config::TimeSpan;
use crate::execution::millis_span;
use crate::execution::Waiter;
use crate::hardware::GpioPin;
use crate::ControllerError;
use vstd::prelude::*;

verus! {

/// The four pauses of one heartbeat cycle, in order.
pub open spec fn heartbeat_waits() -> Seq<TimeSpan> {
    seq![millis_span(50), millis_span(50), millis_span(50), millis_span(850)]
}

/// Perform one heartbeat cycle on `pin`: two short blinks, then a long
/// pause.  A write failure stops the cycle where it stands, after as many
/// pauses as writes had succeeded.
pub fn heartbeat_cycle<P: GpioPin, W: Waiter>(pin: &mut P, waiter: &mut W) -> (result: Result<
    (),
    ControllerError,
>)
    ensures
        final(pin).writes_ok() == old(pin).writes_ok(),
        old(pin).reads_ok() ==> final(pin).reads_ok(),
        old(pin).writes_ok() ==> result.is_ok(),
        result.is_ok() ==> final(pin).written() == old(pin).written() + seq![
            true,
            false,
            true,
            false,
        ],
        result.is_ok() ==> final(waiter).waited() == old(waiter).waited() + heartbeat_waits(),
        result.is_err() ==> exists|k: int|
            0 <= k <= 3 && final(waiter).waited() == old(waiter).waited()
                + #[trigger] heartbeat_waits().take(k),
{
    let short = TimeSpan { secs: 0, nanos: 50_000_000 };
    let long = TimeSpan { secs: 0, nanos: 850_000_000 };
    match pin.write(true) {
        Ok(()) => {}
        Err(e) => {
            proof {
                assert(final(waiter).waited() =~= old(waiter).waited()
                    + heartbeat_waits().take(0));
            }
            return Err(e);
        }
    }
    waiter.wait(&short);
    match pin.write(false) {
        Ok(()) => {}
        Err(e) => {
            proof {
                assert(final(waiter).waited() =~= old(waiter).waited()
                    + heartbeat_waits().take(1));
            }
            return Err(e);
        }
    }
    waiter.wait(&short);
    match pin.write(true) {
        Ok(()) => {}
        Err(e) => {
            proof {
                assert(final(waiter).waited() =~= old(waiter).waited()
                    + heartbeat_waits().take(2));
            }
            return Err(e);
        }
    }
    waiter.wait(&short);
    match pin.write(false) {
        Ok(()) => {}
        Err(e) => {
            proof {
                assert(final(waiter).waited() =~= old(waiter).waited()
                    + heartbeat_waits().take(3));
            }
            return Err(e);
        }
    }
    waiter.wait(&long);
    proof {
        assert(final(pin).written() =~= old(pin).written() + seq![true, false, true, false]);
        assert(final(waiter).waited() =~= old(waiter).waited() + heartbeat_waits());
    }
    Ok(())
}

} // verus!

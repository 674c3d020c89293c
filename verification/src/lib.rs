//! Core logic of a rocket-engine ground controller.
//!
//! The library holds the verified heart of the controller: the operating-mode
//! state machine, configuration validation, the MCP3208 ADC protocol over a
//! bit-banged SPI bus, the command language spoken by the operator dashboard,
//! the telemetry messages sent back to it, and the bookkeeping done by the
//! sensor-sampling and driver-status listeners.  Everything that talks to the
//! outside world — files, sockets, the GPIO character device, wall-clock
//! sleeps — lives in a thin unverified shell around this crate and hands the
//! library plain values.

use vstd::prelude::*;

pub mod state;
pub mod text;
pub mod hardware;
pub mod config;
pub mod incoming;
pub mod execution;
pub mod outgoing;
pub mod data;
pub mod console;
pub mod heartbeat;

verus! {

#[verifier::external_type_specification]
#[verifier::external_body]
/// The I/O error type of the standard library.
pub struct ExIoError(std::io::Error);

/// The full enumeration of all errors which can terminate the execution of
/// the controller.
#[derive(Debug)]
pub enum ControllerError {
    /// A lock was poisoned, likely because a thread panicked while holding it.
    Poison,
    /// There was an I/O error when writing to a log file.
    Console(std::io::Error),
    /// There was an error while attempting to perform some GPIO action.
    Gpio(gpio_cdev::Error),
    /// Something went wrong with the hardware.
    Hardware(&'static str),
    /// The configuration was incorrectly formed.
    Configuration(crate::config::Error),
    /// The user gave the wrong input arguments to the main executable.
    Args(&'static str),
    /// An error occurred while working with a state guard.
    State(crate::state::Error),
}

} // verus!

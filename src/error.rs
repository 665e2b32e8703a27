//! Errors used by the driver.
use vstd::prelude::*;

verus! {

/// Error emitted by the TMP117 driver.
#[derive(Debug, PartialEq, Eq, Copy, Clone)]
pub enum Error<E> {
    /// Internal i2c bus error.
    Bus(E),
    /// Data is not ready.
    DataNotReady,
    /// Alert pin error.
    AlertPin,
    /// Received invalid data.
    InvalidData,
    /// A status flag did not change within the configured number of polls.
    Timeout,
    /// The operation is not allowed in the current mode.
    InvalidState,
}

/// Error emitted by the low level TMP117 driver.
#[derive(Debug, PartialEq, Eq, Copy, Clone)]
pub enum ErrorLL<E> {
    /// Internal i2c bus error.
    Bus(E),
    /// Received invalid data.
    InvalidData,
}

impl<E> From<ErrorLL<E>> for Error<E> {
    fn from(value: ErrorLL<E>) -> (r: Self) {
        match value {
            ErrorLL::Bus(e) => Error::Bus(e),
            ErrorLL::InvalidData => Error::InvalidData,
        }
    }
}

impl<E> vstd::std_specs::convert::FromSpecImpl<ErrorLL<E>> for Error<E> {
    open spec fn obeys_from_spec() -> bool {
        true
    }

    open spec fn from_spec(value: ErrorLL<E>) -> Self {
        match value {
            ErrorLL::Bus(e) => Error::Bus(e),
            ErrorLL::InvalidData => Error::InvalidData,
        }
    }
}

} // verus!

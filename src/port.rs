//! The ports through which the driver reaches the hardware. The user
//! implements them for the platform's bus, alert pin and timer.
use vstd::prelude::*;

verus! {

/// A two-wire bus on which the driver addresses the sensor with a 7-bit
/// address.
pub trait I2cBus<E> {
    /// Sends `bytes` to the device at `address` in one transaction.
    fn write(&mut self, address: u8, bytes: &[u8]) -> Result<(), E>;

    /// Sends `bytes` to the device at `address`, then reads two bytes back
    /// from it, in one transaction.
    fn write_read(&mut self, address: u8, bytes: &[u8]) -> Result<[u8; 2], E>;
}

/// The input wired to the sensor's ALERT pin.
pub trait AlertWait {
    /// Blocks until the pin is low. `Err` reports a failure of the pin.
    fn wait_for_low(&mut self) -> Result<(), ()>;
}

/// A timer that blocks the caller.
pub trait DelayMs {
    /// Blocks for at least `ms` milliseconds.
    fn delay_ms(&mut self, ms: u32);
}

/// Stands for an absent alert pin. It never waits: a driver built without
/// a pin polls the configuration register instead.
pub struct DummyWait(());

impl DummyWait {
    /// The placeholder value.
    pub fn new() -> (r: DummyWait) {
        DummyWait(())
    }
}

impl AlertWait for DummyWait {
    fn wait_for_low(&mut self) -> Result<(), ()> {
        Err(())
    }
}

} // verus!

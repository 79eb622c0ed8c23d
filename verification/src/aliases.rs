//! Type aliases for the measured quantities carried by requests.

use vstd::prelude::*;

verus! {

/// A 32-bit IEEE-754 value carried opaquely as its raw bit pattern.
///
/// The codec moves the four bytes of the bit pattern verbatim and never
/// performs arithmetic on them, so the value is stored as plain bits.
#[derive(Debug, Clone, Copy, PartialEq, Eq, Structural, Hash)]
pub struct FloatBits {
    /// The raw bit pattern.
    pub bits: u32,
}

impl FloatBits {
    /// Build a value from a raw 32-bit pattern.
    pub fn from_bits(bits: u32) -> (r: Self)
        ensures
            r.bits == bits,
    {
        FloatBits { bits }
    }

    /// Return the raw 32-bit pattern.
    pub fn to_bits(&self) -> (r: u32)
        ensures
            r == self.bits,
    {
        self.bits
    }
}

/// Temperature in Celsius, carried as 32-bit IEEE-754 bits.
pub type Temperature = FloatBits;

/// Relative humidity as a percentage.
pub type Humidity = u8;

/// Air pressure in hecto-Pascal.
pub type AirPressure = u16;

/// Battery voltage in volts, carried as 32-bit IEEE-754 bits.
pub type BatteryVoltage = FloatBits;

/// Signal strength in decibel-milliwatts.
pub type Rssi = i8;

} // verus!

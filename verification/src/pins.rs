//! Handles on single pins of the device.

pub mod analog_pin;

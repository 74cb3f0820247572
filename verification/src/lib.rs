//! A harness for driving simulated AVR firmware from host-side test code.

pub mod components;
pub mod duration;
pub mod firmware;
pub mod pins;
pub mod simulator;
pub mod spi;
pub mod tester;

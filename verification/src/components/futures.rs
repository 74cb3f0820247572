//! The waits and steps that components are built from.

pub mod pin_level;
pub mod pin_write;
pub mod sleep;
pub mod then;
pub mod yield_step;

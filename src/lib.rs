//! Verified core of a peripheral-access-layer generator: the bit-level
//! semantics of register readers and writers, lazily cached multi-register
//! entities, ordinal-encoded enumerations, and the checks and data the
//! generator derives from a device description.

pub mod access;
pub mod bits;
pub mod bus;
pub mod checks;
pub mod config;
pub mod entity;
pub mod enums;
pub mod model;
pub mod synth;

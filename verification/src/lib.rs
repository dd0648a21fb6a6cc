//! A stateful view of a host's processors, memory, processes, network
//! interfaces, sensors and users.
//!
//! The library holds the state and the rules that turn point-in-time samples
//! into derived metrics. Acquiring the samples from the operating system is the
//! caller's part: every refresh operation takes what was read as plain values.

pub mod delta;
pub mod network;
pub mod process;
pub mod processor;
pub mod records;
pub mod signal;
pub mod system;
pub mod text;
pub mod tools;

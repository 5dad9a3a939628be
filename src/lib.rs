//! Host-side library for tuning and monitoring a servo controller through an
//! SWD debug probe: wire records, probe command frames, chunked memory
//! transfers, and the two ring-buffer protocols that ride on target memory.
pub mod wire;
pub mod records;
pub mod error;
pub mod marshal;
pub mod probe;
pub mod commands;
pub mod scope;
pub mod session;
pub mod layout;

//! A bridge between a UI layer and a physical serial (UART) device.
//!
//! The library models the lifecycle of one open serial port: a session that
//! accepts outbound byte buffers, hands inbound chunks to a delivery
//! callback, and is torn down by an advisory `close`. The device handle
//! itself, the background thread that polls it, and the UI wiring live
//! outside the library; everything they decide is computed and proved here.

pub mod control;
pub mod enumerate;
pub mod session;
pub mod wire;

//! Core of the VeriTAS replay system: the state a hardware replay device
//! keeps while it feeds recorded controller inputs to a retro console, the
//! console-facing replay engines, the framed command protocol spoken between
//! the host and the device, and the host driver's flow-control decisions.
//!
//! Everything here is plain computation on plain values.  Reading pins,
//! serial ports and files is left to the surrounding program, which hands
//! bytes in and carries effect descriptions out.

pub mod queue;
pub mod codec;
pub mod device;
pub mod genesis;
pub mod host;
pub mod interrupts;
pub mod movies;
pub mod n64;
pub mod nes;
pub mod protocol;
pub mod replay;
pub mod roms;

pub use replay::ReplayState;
pub use replay::Transition;
pub use replay::VeritasMode;

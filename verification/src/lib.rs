//! Core of a supervisor for a multi-drop "Galaxy" serial bus: framing and
//! additive checksum, message (de)serialisation, reply validation, a polling
//! manager with per-device retry, health tracking and truncated exponential
//! backoff, and an LCD keypad device with a screen diff/update optimiser.
//!
//! Byte-level I/O, timers and task plumbing live outside this crate; the
//! functions here are the pure decision and encoding core, each with a
//! verified contract.

pub mod backoff;
pub mod bus;
pub mod crc;
pub mod display;
pub mod keypad;
pub mod manager;
pub mod message;

pub use backoff::BackoffState;
pub use bus::ReadError;
pub use crc::{galaxy_crc, galaxy_crc_vectored, CheckGalaxyCRC, GalaxyCRC, GalaxyCRCCheckError};
pub use manager::{DeviceStatus, SerialDevice, SerialManager};
pub use message::{DeliveryError, DeserialisationError, SerialMessage, SerialResponseResult};

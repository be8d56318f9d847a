//! The decision logic of a small home-automation engine for Shelly devices that
//! report their state over websockets: reading the components of a status
//! notification, building the device model from it, and deciding what each
//! connection task does next.

pub mod config;
pub mod device;
pub mod error;
pub mod message;
pub mod switch;
pub mod text;
pub mod ws;

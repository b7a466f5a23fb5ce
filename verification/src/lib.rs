//! Verified core of a Logitech device manager: action labels and routing,
//! strict configuration validation, and the HID++ 2.0 wire protocol.

pub mod error;
pub mod text;
pub mod model;
pub mod wire;
pub mod action;
pub mod router;
pub mod strmap;
pub mod config;
pub mod linux;
pub mod time;
pub mod client;
pub mod sysfs;
pub mod input;
pub mod cli;
pub mod agent;
pub mod divert;
pub mod capture;

pub use error::{ForgeError, Result};

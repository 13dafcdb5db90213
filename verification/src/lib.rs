//! Bulk 6-bit radix encoding: an alphabet-agnostic block encoder with a
//! verified scalar kernel and a sliding-window block cursor.

pub mod config;
pub mod encode;
pub mod u6;

pub use crate::config::Config;
pub use crate::config::CustomConfig;

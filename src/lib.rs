//! Discovery of Bluetooth Low Energy peripherals that expose the Battery
//! Service, and the one-shot reading of their battery level.
//!
//! The radio itself is driven by the caller: this crate decides what to ask
//! the platform stack next and what the answers mean.
pub mod gatt;
pub mod model;
pub mod reader;
pub mod scan;
pub mod tree;

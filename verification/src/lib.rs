//! Sensor, display, status-LED and upload logic of the NUCLEO-H723ZG weather node.
//!
//! Every module is bus- and network-agnostic: the drivers describe the I2C transfers
//! they need, and the firmware around the library performs them and reports back.

pub mod bme280;
pub mod dns;
pub mod firmware;
pub mod font;
pub mod http;
pub mod leds;
pub mod patterns;
pub mod presence;
pub mod ssd1306;

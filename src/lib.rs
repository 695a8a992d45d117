//! Driver for SSD1327 grayscale OLED controllers.
//!
//! The library packs 4-bit grayscale pixels two to a byte, encodes the
//! controller's configuration commands, and drives a command/data bus.
pub mod command;
pub mod display;
pub mod interface;
pub mod size;

//! Driver logic for Pimoroni Inky e-paper panels.
//!
//! The crate decodes the identification record that a panel keeps in its
//! EEPROM, holds the framebuffer with its drawing primitives and its packing
//! into the controller's memory layout, and lays down the exact order of
//! commands that resets the panel and refreshes it. It performs no I/O: the
//! bytes that were read are handed in, and what has to be written or waited
//! for is handed out as plain values.

pub mod canvas;
pub mod command;
pub mod eeprom;
pub mod geometry;
pub mod inky;
pub mod lut;
pub mod shape;

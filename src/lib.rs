//! Driver logic for HX1230 / PCD8544-family monochrome LCD controllers.
//!
//! The controller listens to 9-bit words (one command/data flag followed by
//! eight payload bits) while the host drives an 8-bit serial bus. This crate
//! holds the command catalog, the 9-bit-over-8-bit packing, the chip-select
//! framing of transfers and an in-memory frame buffer, all verified. The bus,
//! the chip-select pin and the delay source are supplied by the caller, who
//! carries out the bus operations that the driver hands out.

pub mod command;
pub mod encode;
pub mod transport;
pub mod buffer;
pub mod bitbang;

//! Backlight brightness control logic.
//!
//! The daemon around this library reads and writes two kernel
//! interface files (current brightness and maximum brightness) and
//! forwards bus requests here. Everything that decides anything lives
//! in this crate: parsing the files' text, the percentage arithmetic,
//! clamping, and rendering the value to write back. The process
//! around it only moves bytes between these functions and the files.

pub mod ops;
pub mod parse;
pub mod render;

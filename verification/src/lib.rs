//! Release helpers for BIOS image hand-off: reading the latest section of a
//! `History.txt`, deriving project paths and names from it, and composing the
//! release mail and checksum texts.

pub mod text;
pub mod numfmt;
pub mod checksum;
pub mod pattern;
pub mod clock;
pub mod section;
pub mod history;
pub mod address;
pub mod clipboard;
pub mod commands;
pub mod laws;

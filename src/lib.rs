//! Turns a PCM WAVE file into a C array literal of its samples, for embedding
//! audio in firmware.
//!
//! The crate follows the pipeline: [`format`] describes and validates the
//! stream, [`decode`] reads the container and reduces the channels to one,
//! [`numerals`] and [`identifier`] make the pieces of text, [`render`] lays out
//! the C source, and [`pipeline`] runs the whole conversion on the bytes of a
//! file.

pub mod decode;
pub mod format;
pub mod identifier;
pub mod numerals;
pub mod pipeline;
pub mod render;

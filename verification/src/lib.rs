//! Codec for the binary page files written by a reMarkable stylus tablet,
//! together with the integer-valued part of the stroke-to-SVG conversion.
//!
//! A page file is a fixed preamble followed by a stream of length-framed
//! blocks.  The `parse` module decodes such a file into a [`types::Notebook`];
//! the `encode` module serialises blocks back into the exact wire layout.
//! Floating-point samples (coordinates, brush sizes) are carried as their
//! IEEE-754 bit patterns, so the codec itself is pure byte and integer logic.

pub mod config;
pub mod encode;
pub mod parse;
pub mod render;
pub mod roundtrip;
pub mod svg;
pub mod types;
pub mod wire;

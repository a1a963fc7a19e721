//! Verified conversion of Adobe Color Table (ACT) palette files to the
//! Paint.NET TXT text palette format.
//!
//! The `act` module holds the binary decoder: it validates the length of the
//! input, extracts up to 256 RGB triples and the optional trailing record
//! (declared color count and transparent color index). The `txt` module holds
//! the text encoder, which serializes a decoded palette to `;`-prefixed
//! comment lines followed by one 6-digit uppercase hexadecimal line per color.

pub mod act;
pub mod txt;

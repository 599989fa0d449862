//! Lossy decoding of arbitrary byte buffers into display-ready characters.
//!
//! Two raw decoders (ASCII-only and UTF-8) turn a borrowed byte buffer into a
//! stream of `(char, CharType)` units, substituting a replacement character
//! for anything that cannot be decoded. A byte-alignment adapter pads each
//! multi-byte unit with filler glyphs so that the character stream is exactly
//! as long as the byte stream, one character per input byte.

pub mod align;
pub mod ascii;
pub mod laws;
pub mod unicode;
pub mod unit;

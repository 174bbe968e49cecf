//! A MessagePack decoder.
//!
//! The decoder pulls structured values out of a byte stream one primitive at
//! a time, without building an intermediate value tree. It is split in two
//! layers: a primitive reader over an in-memory byte source (`source`), and a
//! tag-dispatching decoder (`decoder`) that recognizes each wire-format
//! opcode and exposes the generic decode protocol. The wire format itself is
//! written down once, as specification-level parsers (`format`), and every
//! decoding method is proved against them.

pub mod error;
pub mod format;
pub mod source;
pub mod decoder;

//! Wire codec and request dispatch for a length-prefixed, tagged-field
//! request/response protocol.
//!
//! Contracts are stated over sequences of bytes and proved against the
//! executable code. Three private functions are trusted rather than
//! proved, each a single call whose contract restates what the callee
//! documents: `be_read_i16` and `be_read_i32` in `primitive` rest on
//! `byteorder`'s big-endian readers, and `string_from_utf8` in `compact`
//! rests on the standard library's UTF-8 check.

pub mod error;
pub mod primitive;
pub mod codec;
pub mod compact;
pub mod tagged;
pub mod header;
pub mod messages;
pub mod envelope;
pub mod handlers;
pub mod connection;

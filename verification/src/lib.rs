//! Forum-channel tag metadata and its wire-format decoder.
//!
//! The wire format is a loosely typed key/value document. Decoding a
//! [`tag::ForumTag`] tolerates unknown keys, rejects duplicated and missing
//! keys, and normalizes the several shapes in which the optional emoji
//! identifier arrives on the wire.

pub mod digits;
pub mod reaction;
pub mod tag;
pub mod tag_laws;
pub mod wire;

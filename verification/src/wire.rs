//! The wire-document model: the shapes a loosely typed key/value document can
//! carry, the recognized field names, and the decode errors.

use crate::digits::{parse_u64_digits, spec_parse_u64};
use vstd::prelude::*;

verus! {

/// One value of the wire document, reduced to the shapes the decoders
/// distinguish. Every shape outside this set is `Other`.
#[derive(Clone, Debug, PartialEq, Eq)]
pub enum WireValue {
    /// A direct non-negative integer.
    Unsigned(u64),
    /// Plain text.
    Text(String),
    /// A boolean.
    Boolean(bool),
    /// An explicit null (an absent optional value).
    Null,
    /// An optional wrapper around plain text.
    SomeText(String),
    /// A single-field wrapper around text.
    WrappedText(String),
    /// An optional wrapper around a single-field wrapper around text.
    SomeWrappedText(String),
    /// Any shape the decoders do not interpret.
    Other,
}

/// One named field of the wire document.
#[derive(Clone, Debug, PartialEq, Eq)]
pub struct WireEntry {
    pub key: String,
    pub value: WireValue,
}

/// The fields a tag document recognizes.
#[derive(Clone, Copy, Debug, PartialEq, Eq, Structural)]
pub enum FieldName {
    EmojiId,
    EmojiName,
    Id,
    Moderated,
    Name,
}

/// A fatal decode failure.
#[derive(Clone, Copy, Debug, PartialEq, Eq, Structural)]
pub enum DecodeError {
    /// A recognized field key appeared more than once.
    DuplicateField(FieldName),
    /// A required field was never seen.
    MissingField(FieldName),
    /// A recognized field carried a value of an unusable shape.
    InvalidValue(FieldName),
}

/// The recognized field, if any, that a key names.
pub open spec fn field_of(k: Seq<char>) -> Option<FieldName> {
    if k == "emoji_id"@ {
        Some(FieldName::EmojiId)
    } else if k == "emoji_name"@ {
        Some(FieldName::EmojiName)
    } else if k == "id"@ {
        Some(FieldName::Id)
    } else if k == "moderated"@ {
        Some(FieldName::Moderated)
    } else if k == "name"@ {
        Some(FieldName::Name)
    } else {
        None
    }
}

/// The recognized field, if any, of an entry's key.
pub open spec fn entry_field(e: WireEntry) -> Option<FieldName> {
    field_of(e.key@)
}

/// Runtime counterpart of [`field_of`].
pub fn key_field(k: &String) -> (r: Option<FieldName>)
    ensures
        r == field_of(k@),
{
    if *k == "emoji_id".to_owned() {
        Some(FieldName::EmojiId)
    } else if *k == "emoji_name".to_owned() {
        Some(FieldName::EmojiName)
    } else if *k == "id".to_owned() {
        Some(FieldName::Id)
    } else if *k == "moderated".to_owned() {
        Some(FieldName::Moderated)
    } else if *k == "name".to_owned() {
        Some(FieldName::Name)
    } else {
        None
    }
}

/// What the type-flexible policy resolves an emoji identifier value to: a
/// direct positive integer, or a wrapped text that parses to a positive
/// integer; every other shape, and the zero sentinel, mean "absent".
/// No shape is an error.
pub open spec fn spec_resolve_emoji_id(v: WireValue) -> Option<u64> {
    match v {
        WireValue::Unsigned(n) => if n > 0 {
            Some(n)
        } else {
            None
        },
        WireValue::SomeWrappedText(s) => match spec_parse_u64(s@) {
            Some(n) => if n > 0 {
                Some(n)
            } else {
                None
            },
            None => None,
        },
        _ => None,
    }
}

/// What extracting an optional text yields; nothing if the shape is unusable.
pub open spec fn spec_opt_text(v: WireValue) -> Option<Option<Seq<char>>> {
    match v {
        WireValue::Null => Some(None),
        WireValue::Text(s) => Some(Some(s@)),
        WireValue::SomeText(s) => Some(Some(s@)),
        _ => None,
    }
}

/// What extracting a required snowflake identifier yields: a direct integer,
/// or text (bare or wrapped) that parses; nothing if the shape is unusable.
pub open spec fn spec_snowflake(v: WireValue) -> Option<u64> {
    match v {
        WireValue::Unsigned(n) => Some(n),
        WireValue::Text(s) => spec_parse_u64(s@),
        WireValue::WrappedText(s) => spec_parse_u64(s@),
        _ => None,
    }
}

/// What extracting a required boolean yields; nothing if the shape is unusable.
pub open spec fn spec_boolean(v: WireValue) -> Option<bool> {
    match v {
        WireValue::Boolean(b) => Some(b),
        _ => None,
    }
}

/// What extracting a required text yields; nothing if the shape is unusable.
pub open spec fn spec_text(v: WireValue) -> Option<Seq<char>> {
    match v {
        WireValue::Text(s) => Some(s@),
        _ => None,
    }
}

/// What extracting an optional integer yields; nothing if the shape is unusable.
pub open spec fn spec_opt_unsigned(v: WireValue) -> Option<Option<u64>> {
    match v {
        WireValue::Null => Some(None),
        WireValue::Unsigned(n) => Some(Some(n)),
        _ => None,
    }
}

/// Runtime counterpart of [`spec_resolve_emoji_id`].
pub fn resolve_emoji_id(v: &WireValue) -> (r: Option<u64>)
    ensures
        r == spec_resolve_emoji_id(*v),
{
    match v {
        WireValue::Unsigned(n) => if *n > 0 {
            Some(*n)
        } else {
            None
        },
        WireValue::SomeWrappedText(s) => match parse_u64_digits(s.as_str()) {
            Some(n) => if n > 0 {
                Some(n)
            } else {
                None
            },
            None => None,
        },
        _ => None,
    }
}

/// Runtime counterpart of [`spec_opt_text`].
pub fn extract_opt_text(v: &WireValue) -> (r: Option<Option<String>>)
    ensures
        seen_text_view(r) == spec_opt_text(*v),
{
    match v {
        WireValue::Null => Some(None),
        WireValue::Text(s) => Some(Some(s.clone())),
        WireValue::SomeText(s) => Some(Some(s.clone())),
        _ => None,
    }
}

/// Runtime counterpart of [`spec_snowflake`].
pub fn extract_snowflake(v: &WireValue) -> (r: Option<u64>)
    ensures
        r == spec_snowflake(*v),
{
    match v {
        WireValue::Unsigned(n) => Some(*n),
        WireValue::Text(s) => parse_u64_digits(s.as_str()),
        WireValue::WrappedText(s) => parse_u64_digits(s.as_str()),
        _ => None,
    }
}

/// Runtime counterpart of [`spec_boolean`].
pub fn extract_boolean(v: &WireValue) -> (r: Option<bool>)
    ensures
        r == spec_boolean(*v),
{
    match v {
        WireValue::Boolean(b) => Some(*b),
        _ => None,
    }
}

/// Runtime counterpart of [`spec_text`].
pub fn extract_text(v: &WireValue) -> (r: Option<String>)
    ensures
        opt_text_view(r) == spec_text(*v),
{
    match v {
        WireValue::Text(s) => Some(s.clone()),
        _ => None,
    }
}

/// Runtime counterpart of [`spec_opt_unsigned`].
pub fn extract_opt_unsigned(v: &WireValue) -> (r: Option<Option<u64>>)
    ensures
        r == spec_opt_unsigned(*v),
{
    match v {
        WireValue::Null => Some(None),
        WireValue::Unsigned(n) => Some(Some(*n)),
        _ => None,
    }
}

/// The abstract value of an optional text.
pub open spec fn opt_text_view(o: Option<String>) -> Option<Seq<char>> {
    match o {
        Some(s) => Some(s@),
        None => None,
    }
}

/// The abstract value of a "seen" marker around an optional text.
pub open spec fn seen_text_view(o: Option<Option<String>>) -> Option<Option<Seq<char>>> {
    match o {
        Some(x) => Some(opt_text_view(x)),
        None => None,
    }
}

} // verus!

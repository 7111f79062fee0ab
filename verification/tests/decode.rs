use forum_tags::digits::parse_u64_digits;
use forum_tags::reaction::{decode_default_reaction, encode_default_reaction, DefaultReaction};
use forum_tags::tag::{decode_forum_tag, ForumTag};
use forum_tags::wire::{resolve_emoji_id, DecodeError, FieldName, WireEntry, WireValue};

fn entry(key: &str, value: WireValue) -> WireEntry {
    WireEntry { key: key.to_owned(), value }
}

fn text(s: &str) -> WireValue {
    WireValue::Text(s.to_owned())
}

#[test]
fn default_reaction() {
    let value = DefaultReaction {
        emoji_id: None,
        emoji_name: Some("name".to_owned()),
    };

    let doc = encode_default_reaction(&value);
    assert_eq!(doc.len(), 2);
    assert_eq!(doc[0], entry("emoji_id", WireValue::Null));
    assert_eq!(doc[1], entry("emoji_name", text("name")));
    assert_eq!(decode_default_reaction(&doc), Ok(value));
}

#[test]
fn forum_tag() {
    let value = ForumTag {
        emoji_id: Some(1),
        emoji_name: None,
        id: 2,
        moderated: false,
        name: "other".to_owned(),
    };

    let doc = vec![
        entry("emoji_id", WireValue::SomeWrappedText("1".to_owned())),
        entry("emoji_name", WireValue::Null),
        entry("id", WireValue::WrappedText("2".to_owned())),
        entry("moderated", WireValue::Boolean(false)),
        entry("name", text("other")),
    ];
    let mut diag = Vec::new();
    assert_eq!(decode_forum_tag(&doc, &mut diag), Ok(value));
    assert!(diag.is_empty());
}

#[test]
fn forum_tag_emoji_id_zero() {
    let doc = vec![
        entry("name", text("other")),
        entry("moderated", WireValue::Boolean(false)),
        entry("id", text("2")),
        entry("emoji_name", text("emoji_name")),
        entry("emoji_id", WireValue::Unsigned(0)),
    ];
    let mut diag = Vec::new();
    let deserialized = decode_forum_tag(&doc, &mut diag);

    assert!(deserialized.is_ok());

    let tag = deserialized.unwrap();

    assert!(tag.emoji_id.is_none());
    assert!(tag.emoji_name.is_some());
    assert_eq!(tag.id, 2);
    assert_eq!(tag.name, "other");
    assert!(!tag.moderated);
}

#[test]
fn emoji_id_resolution_table() {
    assert_eq!(resolve_emoji_id(&WireValue::Unsigned(0)), None);
    assert_eq!(resolve_emoji_id(&WireValue::Unsigned(5)), Some(5));
    assert_eq!(
        resolve_emoji_id(&WireValue::SomeWrappedText("2".to_owned())),
        Some(2)
    );
    assert_eq!(
        resolve_emoji_id(&WireValue::SomeWrappedText("abc".to_owned())),
        None
    );
    assert_eq!(resolve_emoji_id(&WireValue::Null), None);
}

#[test]
fn emoji_id_key_omitted_is_absent() {
    let doc = vec![
        entry("id", WireValue::Unsigned(7)),
        entry("moderated", WireValue::Boolean(true)),
        entry("name", text("news")),
    ];
    let mut diag = Vec::new();
    let tag = decode_forum_tag(&doc, &mut diag).unwrap();
    assert_eq!(tag.emoji_id, None);
    assert_eq!(tag.emoji_name, None);
}

#[test]
fn emoji_id_wrapped_overflow_is_absent() {
    let doc = vec![
        entry(
            "emoji_id",
            WireValue::SomeWrappedText("99999999999999999999".to_owned()),
        ),
        entry("id", WireValue::Unsigned(7)),
        entry("moderated", WireValue::Boolean(true)),
        entry("name", text("news")),
    ];
    let mut diag = Vec::new();
    let tag = decode_forum_tag(&doc, &mut diag).unwrap();
    assert_eq!(tag.emoji_id, None);
}

#[test]
fn complete_document_round_trips_fields() {
    let doc = vec![
        entry("emoji_id", WireValue::Unsigned(5)),
        entry("emoji_name", WireValue::Null),
        entry("id", WireValue::Unsigned(9)),
        entry("moderated", WireValue::Boolean(true)),
        entry("name", text("help")),
    ];
    let mut diag = Vec::new();
    let tag = decode_forum_tag(&doc, &mut diag).unwrap();
    assert_eq!(
        tag,
        ForumTag {
            emoji_id: Some(5),
            emoji_name: None,
            id: 9,
            moderated: true,
            name: "help".to_owned(),
        }
    );
    assert!(diag.is_empty());
}

#[test]
fn wrapped_emoji_id_and_omitted_emoji_name() {
    let doc = vec![
        entry("emoji_id", WireValue::SomeWrappedText("1".to_owned())),
        entry("id", WireValue::WrappedText("2".to_owned())),
        entry("moderated", WireValue::Boolean(false)),
        entry("name", text("other")),
    ];
    let mut diag = Vec::new();
    let tag = decode_forum_tag(&doc, &mut diag).unwrap();
    assert_eq!(tag.emoji_id, Some(1));
    assert_eq!(tag.emoji_name, None);
}

#[test]
fn missing_id_is_reported_first() {
    let doc = vec![entry("emoji_name", text("x"))];
    let mut diag = Vec::new();
    assert_eq!(
        decode_forum_tag(&doc, &mut diag),
        Err(DecodeError::MissingField(FieldName::Id))
    );
}

#[test]
fn missing_moderated_is_reported_before_name() {
    let doc = vec![entry("id", WireValue::Unsigned(3))];
    let mut diag = Vec::new();
    assert_eq!(
        decode_forum_tag(&doc, &mut diag),
        Err(DecodeError::MissingField(FieldName::Moderated))
    );
}

#[test]
fn missing_name_is_reported_last() {
    let doc = vec![
        entry("id", WireValue::Unsigned(3)),
        entry("moderated", WireValue::Boolean(false)),
    ];
    let mut diag = Vec::new();
    assert_eq!(
        decode_forum_tag(&doc, &mut diag),
        Err(DecodeError::MissingField(FieldName::Name))
    );
}

#[test]
fn duplicate_name_fails() {
    let doc = vec![
        entry("id", WireValue::Unsigned(3)),
        entry("moderated", WireValue::Boolean(false)),
        entry("name", text("a")),
        entry("name", text("b")),
    ];
    let mut diag = Vec::new();
    assert_eq!(
        decode_forum_tag(&doc, &mut diag),
        Err(DecodeError::DuplicateField(FieldName::Name))
    );
}

#[test]
fn duplicate_emoji_id_fails_even_after_zero() {
    let doc = vec![
        entry("emoji_id", WireValue::Unsigned(0)),
        entry("emoji_id", WireValue::Unsigned(5)),
        entry("id", WireValue::Unsigned(3)),
        entry("moderated", WireValue::Boolean(false)),
        entry("name", text("a")),
    ];
    let mut diag = Vec::new();
    assert_eq!(
        decode_forum_tag(&doc, &mut diag),
        Err(DecodeError::DuplicateField(FieldName::EmojiId))
    );
}

#[test]
fn duplicate_is_reported_at_second_occurrence() {
    let doc = vec![
        entry("id", WireValue::Unsigned(3)),
        entry("moderated", WireValue::Boolean(false)),
        entry("moderated", WireValue::Boolean(true)),
        entry("id", WireValue::Unsigned(4)),
    ];
    let mut diag = Vec::new();
    assert_eq!(
        decode_forum_tag(&doc, &mut diag),
        Err(DecodeError::DuplicateField(FieldName::Moderated))
    );
}

#[test]
fn invalid_name_value_fails() {
    let doc = vec![entry("name", WireValue::Boolean(true))];
    let mut diag = Vec::new();
    assert_eq!(
        decode_forum_tag(&doc, &mut diag),
        Err(DecodeError::InvalidValue(FieldName::Name))
    );
}

#[test]
fn invalid_moderated_value_fails() {
    let doc = vec![entry("moderated", text("yes"))];
    let mut diag = Vec::new();
    assert_eq!(
        decode_forum_tag(&doc, &mut diag),
        Err(DecodeError::InvalidValue(FieldName::Moderated))
    );
}

#[test]
fn invalid_emoji_name_value_fails() {
    let doc = vec![entry("emoji_name", WireValue::Unsigned(1))];
    let mut diag = Vec::new();
    assert_eq!(
        decode_forum_tag(&doc, &mut diag),
        Err(DecodeError::InvalidValue(FieldName::EmojiName))
    );
}

#[test]
fn unparseable_id_text_fails() {
    let doc = vec![entry("id", text("abc"))];
    let mut diag = Vec::new();
    assert_eq!(
        decode_forum_tag(&doc, &mut diag),
        Err(DecodeError::InvalidValue(FieldName::Id))
    );
}

#[test]
fn zero_id_is_kept_as_is() {
    let doc = vec![
        entry("id", WireValue::Unsigned(0)),
        entry("moderated", WireValue::Boolean(false)),
        entry("name", text("zero")),
    ];
    let mut diag = Vec::new();
    let tag = decode_forum_tag(&doc, &mut diag).unwrap();
    assert_eq!(tag.id, 0);
}

#[test]
fn unknown_keys_are_skipped_and_reported() {
    let doc = vec![
        entry("color", WireValue::Unsigned(7)),
        entry("id", WireValue::Unsigned(3)),
        entry("position", WireValue::Unsigned(2)),
        entry("moderated", WireValue::Boolean(false)),
        entry("name", text("a")),
        entry("flags", WireValue::Other),
    ];
    let mut diag = Vec::new();
    let tag = decode_forum_tag(&doc, &mut diag).unwrap();
    assert_eq!(tag.id, 3);
    assert_eq!(
        diag,
        vec!["color".to_owned(), "position".to_owned(), "flags".to_owned()]
    );
}

#[test]
fn diagnostics_stop_at_a_failure() {
    let doc = vec![
        entry("color", WireValue::Unsigned(7)),
        entry("name", text("a")),
        entry("name", text("b")),
        entry("position", WireValue::Unsigned(2)),
    ];
    let mut diag = Vec::new();
    assert_eq!(
        decode_forum_tag(&doc, &mut diag),
        Err(DecodeError::DuplicateField(FieldName::Name))
    );
    assert_eq!(diag, vec!["color".to_owned()]);
}

#[test]
fn default_reaction_round_trips_all_combinations() {
    let values = vec![
        DefaultReaction {
            emoji_id: None,
            emoji_name: None,
        },
        DefaultReaction {
            emoji_id: Some(4),
            emoji_name: None,
        },
        DefaultReaction {
            emoji_id: None,
            emoji_name: Some("smile".to_owned()),
        },
        DefaultReaction {
            emoji_id: Some(4),
            emoji_name: Some("smile".to_owned()),
        },
    ];
    for value in values {
        let doc = encode_default_reaction(&value);
        assert_eq!(decode_default_reaction(&doc), Ok(value));
    }
}

#[test]
fn default_reaction_duplicate_field_fails() {
    let doc = vec![
        entry("emoji_id", WireValue::Unsigned(1)),
        entry("emoji_id", WireValue::Unsigned(2)),
    ];
    assert_eq!(
        decode_default_reaction(&doc),
        Err(DecodeError::DuplicateField(FieldName::EmojiId))
    );
}

#[test]
fn default_reaction_invalid_value_fails() {
    let doc = vec![entry("emoji_id", text("1"))];
    assert_eq!(
        decode_default_reaction(&doc),
        Err(DecodeError::InvalidValue(FieldName::EmojiId))
    );
}

#[test]
fn default_reaction_skips_other_keys() {
    let doc = vec![
        entry("id", WireValue::Unsigned(3)),
        entry("emoji_name", text("smile")),
        entry("position", WireValue::Other),
    ];
    assert_eq!(
        decode_default_reaction(&doc),
        Ok(DefaultReaction {
            emoji_id: None,
            emoji_name: Some("smile".to_owned()),
        })
    );
}

#[test]
fn parse_u64_digits_exact_values() {
    assert_eq!(parse_u64_digits("0"), Some(0));
    assert_eq!(parse_u64_digits("2"), Some(2));
    assert_eq!(parse_u64_digits("007"), Some(7));
    assert_eq!(parse_u64_digits("18446744073709551615"), Some(u64::MAX));
    assert_eq!(parse_u64_digits("18446744073709551616"), None);
    assert_eq!(parse_u64_digits(""), None);
    assert_eq!(parse_u64_digits("+2"), None);
    assert_eq!(parse_u64_digits("1a"), None);
    assert_eq!(parse_u64_digits("-1"), None);
}

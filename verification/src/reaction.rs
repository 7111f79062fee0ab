//! The default-reaction descriptor, its wire encoding, and the decoder that
//! inverts it.

use crate::tag::flatten_seen;
use crate::wire::{
    extract_opt_text, extract_opt_unsigned, field_of, key_field, opt_text_view, seen_text_view,
    spec_opt_text, spec_opt_unsigned, DecodeError, FieldName, WireEntry, WireValue,
};
use vstd::prelude::*;

verus! {

/// The emoji used as the default way to react to a forum post.
///
/// Exactly one of `emoji_id` and `emoji_name` is set at the domain level;
/// the wire format is trusted on this, so neither codec enforces it.
#[derive(Clone, Debug, Eq, Hash, PartialEq)]
pub struct DefaultReaction {
    /// Identifier of a custom guild emoji. Conflicts with `emoji_name`.
    pub emoji_id: Option<u64>,
    /// Unicode emoji character. Conflicts with `emoji_id`.
    pub emoji_name: Option<String>,
}

/// The abstract value of a [`DefaultReaction`].
pub ghost struct ReactionView {
    pub emoji_id: Option<u64>,
    pub emoji_name: Option<Seq<char>>,
}

impl View for DefaultReaction {
    type V = ReactionView;

    open spec fn view(&self) -> ReactionView {
        ReactionView { emoji_id: self.emoji_id, emoji_name: opt_text_view(self.emoji_name) }
    }
}

/// The reaction scan's state: one slot per field, `Some` once seen.
pub ghost struct ReactionScanState {
    pub emoji_id: Option<Option<u64>>,
    pub emoji_name: Option<Option<Seq<char>>>,
}

/// The state before any entry is consumed.
pub open spec fn reaction_init() -> ReactionScanState {
    ReactionScanState { emoji_id: None, emoji_name: None }
}

/// What consuming one entry does to the reaction scan's state. Keys other
/// than the two fields are skipped.
pub open spec fn reaction_step(st: ReactionScanState, e: WireEntry) -> Result<
    ReactionScanState,
    DecodeError,
> {
    match field_of(e.key@) {
        Some(FieldName::EmojiId) => if st.emoji_id is Some {
            Err(DecodeError::DuplicateField(FieldName::EmojiId))
        } else {
            match spec_opt_unsigned(e.value) {
                Some(v) => Ok(ReactionScanState { emoji_id: Some(v), ..st }),
                None => Err(DecodeError::InvalidValue(FieldName::EmojiId)),
            }
        },
        Some(FieldName::EmojiName) => if st.emoji_name is Some {
            Err(DecodeError::DuplicateField(FieldName::EmojiName))
        } else {
            match spec_opt_text(e.value) {
                Some(v) => Ok(ReactionScanState { emoji_name: Some(v), ..st }),
                None => Err(DecodeError::InvalidValue(FieldName::EmojiName)),
            }
        },
        _ => Ok(st),
    }
}

/// The reaction scan of a document from a state, left to right.
pub open spec fn reaction_scan(st: ReactionScanState, entries: Seq<WireEntry>) -> Result<
    ReactionScanState,
    DecodeError,
>
    decreases entries.len(),
{
    if entries.len() == 0 {
        Ok(st)
    } else {
        match reaction_step(st, entries[0]) {
            Ok(st2) => reaction_scan(st2, entries.drop_first()),
            Err(e) => Err(e),
        }
    }
}

/// What decoding a reaction document yields: both fields default to absent.
pub open spec fn spec_decode_reaction(entries: Seq<WireEntry>) -> Result<
    ReactionView,
    DecodeError,
> {
    match reaction_scan(reaction_init(), entries) {
        Ok(st) => Ok(
            ReactionView {
                emoji_id: flatten_seen(st.emoji_id),
                emoji_name: flatten_seen(st.emoji_name),
            },
        ),
        Err(e) => Err(e),
    }
}

/// Whether `doc` is the direct encoding of the reaction `r`: its two fields
/// in order, an absent field encoded as null, the identifier as a direct
/// integer and the name as plain text.
pub open spec fn is_encoding_of(doc: Seq<WireEntry>, r: ReactionView) -> bool {
    &&& doc.len() == 2
    &&& doc[0].key@ == "emoji_id"@
    &&& doc[1].key@ == "emoji_name"@
    &&& (match (r.emoji_id, doc[0].value) {
        (Some(n), WireValue::Unsigned(m)) => n == m,
        (None, WireValue::Null) => true,
        _ => false,
    })
    &&& (match (r.emoji_name, doc[1].value) {
        (Some(s), WireValue::Text(t)) => s == t@,
        (None, WireValue::Null) => true,
        _ => false,
    })
}

/// Encode a reaction as a wire document, following the data model directly.
pub fn encode_default_reaction(r: &DefaultReaction) -> (doc: Vec<WireEntry>)
    ensures
        is_encoding_of(doc@, r@),
{
    let mut doc: Vec<WireEntry> = Vec::new();
    let id_value = match &r.emoji_id {
        Some(n) => WireValue::Unsigned(*n),
        None => WireValue::Null,
    };
    doc.push(WireEntry { key: "emoji_id".to_owned(), value: id_value });
    let name_value = match &r.emoji_name {
        Some(s) => WireValue::Text(s.clone()),
        None => WireValue::Null,
    };
    doc.push(WireEntry { key: "emoji_name".to_owned(), value: name_value });
    doc
}

/// Decode a reaction from a wire document.
///
/// The entries are consumed once, left to right. Either field seen twice
/// fails with `DuplicateField`; an unusable value shape fails with
/// `InvalidValue`; any other key is skipped; a field never seen defaults
/// to absent.
pub fn decode_default_reaction(doc: &Vec<WireEntry>) -> (r: Result<DefaultReaction, DecodeError>)
    ensures
        (match (r, spec_decode_reaction(doc@)) {
            (Ok(v), Ok(m)) => v@ == m,
            (Err(e), Err(m)) => e == m,
            _ => false,
        }),
{
    let mut emoji_id: Option<Option<u64>> = None;
    let mut emoji_name: Option<Option<String>> = None;
    let mut i: usize = 0;
    while i < doc.len()
        invariant
            0 <= i <= doc@.len(),
            reaction_scan(reaction_init(), doc@.take(i as int)) == Ok::<
                ReactionScanState,
                DecodeError,
            >(ReactionScanState {
                emoji_id: emoji_id,
                emoji_name: seen_text_view(emoji_name),
            }),
        decreases doc@.len() - i,
    {
        let ghost st = ReactionScanState {
            emoji_id: emoji_id,
            emoji_name: seen_text_view(emoji_name),
        };
        let ghost e = doc@[i as int];
        proof {
            assert(doc@.take(i as int + 1) =~= doc@.take(i as int) + seq![e]);
            lemma_reaction_scan_append(reaction_init(), doc@.take(i as int), seq![e]);
            assert(seq![e][0] == e);
            assert(seq![e].drop_first() =~= Seq::<WireEntry>::empty());
            assert(doc@ =~= doc@.take(i as int + 1) + doc@.skip(i as int + 1));
        }
        let entry = &doc[i];
        let mut fail: Option<DecodeError> = None;
        match key_field(&entry.key) {
            Some(FieldName::EmojiId) => {
                if emoji_id.is_some() {
                    fail = Some(DecodeError::DuplicateField(FieldName::EmojiId));
                } else {
                    match extract_opt_unsigned(&entry.value) {
                        Some(v) => {
                            emoji_id = Some(v);
                        },
                        None => {
                            fail = Some(DecodeError::InvalidValue(FieldName::EmojiId));
                        },
                    }
                }
            },
            Some(FieldName::EmojiName) => {
                if emoji_name.is_some() {
                    fail = Some(DecodeError::DuplicateField(FieldName::EmojiName));
                } else {
                    match extract_opt_text(&entry.value) {
                        Some(v) => {
                            emoji_name = Some(v);
                        },
                        None => {
                            fail = Some(DecodeError::InvalidValue(FieldName::EmojiName));
                        },
                    }
                }
            },
            _ => {
            },
        }
        if let Some(err) = fail {
            proof {
                assert(reaction_step(st, e) == Err::<ReactionScanState, DecodeError>(err));
                assert(reaction_scan(st, seq![e]) == Err::<ReactionScanState, DecodeError>(err));
                lemma_reaction_scan_append(
                    reaction_init(),
                    doc@.take(i as int + 1),
                    doc@.skip(i as int + 1),
                );
            }
            return Err(err);
        }
        proof {
            let st2 = ReactionScanState {
                emoji_id: emoji_id,
                emoji_name: seen_text_view(emoji_name),
            };
            assert(reaction_step(st, e) == Ok::<ReactionScanState, DecodeError>(st2));
            assert(reaction_scan(st2, seq![e].drop_first()) == Ok::<
                ReactionScanState,
                DecodeError,
            >(st2));
            assert(reaction_scan(st, seq![e]) == Ok::<ReactionScanState, DecodeError>(st2));
        }
        i = i + 1;
    }
    proof {
        assert(doc@.take(doc@.len() as int) =~= doc@);
    }
    let reaction = DefaultReaction {
        emoji_id: match emoji_id {
            Some(x) => x,
            None => None,
        },
        emoji_name: match emoji_name {
            Some(x) => x,
            None => None,
        },
    };
    Ok(reaction)
}

/// A reaction scan consumes a concatenation left part first.
pub proof fn lemma_reaction_scan_append(
    st: ReactionScanState,
    a: Seq<WireEntry>,
    b: Seq<WireEntry>,
)
    ensures
        reaction_scan(st, a + b) == (match reaction_scan(st, a) {
            Ok(st2) => reaction_scan(st2, b),
            Err(e) => Err(e),
        }),
    decreases a.len(),
{
    if a.len() == 0 {
        assert(a + b =~= b);
    } else {
        assert((a + b)[0] == a[0]);
        assert((a + b).drop_first() =~= a.drop_first() + b);
        match reaction_step(st, a[0]) {
            Ok(st2) => {
                lemma_reaction_scan_append(st2, a.drop_first(), b);
            },
            Err(_) => {
            },
        }
    }
}

/// Law: a reaction round-trips without loss. Decoding any direct encoding of
/// a reaction, for any combination of its two optional fields, yields that
/// reaction back.
pub proof fn lemma_reaction_round_trip(r: ReactionView, doc: Seq<WireEntry>)
    requires
        is_encoding_of(doc, r),
    ensures
        spec_decode_reaction(doc) == Ok::<ReactionView, DecodeError>(r),
{
    reveal_strlit("emoji_id");
    reveal_strlit("emoji_name");
    assert("emoji_id"@.len() == 8);
    assert("emoji_name"@.len() == 10);
    assert(field_of(doc[0].key@) == Some(FieldName::EmojiId));
    assert(field_of(doc[1].key@) == Some(FieldName::EmojiName));
    let st1 = ReactionScanState { emoji_id: Some(r.emoji_id), emoji_name: None };
    let st2 = ReactionScanState { emoji_id: Some(r.emoji_id), emoji_name: Some(r.emoji_name) };
    assert(reaction_step(reaction_init(), doc[0]) == Ok::<ReactionScanState, DecodeError>(st1));
    let d1 = doc.drop_first();
    let d2 = d1.drop_first();
    assert(d1.len() == 1 && d1[0] == doc[1]);
    assert(d2 =~= Seq::<WireEntry>::empty());
    assert(reaction_step(st1, doc[1]) == Ok::<ReactionScanState, DecodeError>(st2));
    assert(reaction_scan(st2, d2) == Ok::<ReactionScanState, DecodeError>(st2));
    assert(reaction_scan(st1, d1) == Ok::<ReactionScanState, DecodeError>(st2));
    assert(reaction_scan(reaction_init(), doc) == Ok::<ReactionScanState, DecodeError>(st2));
}

} // verus!

//! The forum tag and its wire-document decoder.

use crate::wire::{
    extract_boolean, extract_opt_text, extract_text, extract_snowflake, entry_field, key_field,
    opt_text_view, resolve_emoji_id, seen_text_view, spec_boolean, spec_opt_text,
    spec_resolve_emoji_id, spec_snowflake, spec_text, DecodeError, FieldName, WireEntry,
};
use vstd::prelude::*;

verus! {

/// A tag that can be applied to a thread of a forum channel.
///
/// At most one of `emoji_id` and `emoji_name` is populated.
#[derive(Clone, Debug, Eq, Hash, PartialEq)]
pub struct ForumTag {
    /// Identifier of a custom guild emoji. Conflicts with `emoji_name`.
    pub emoji_id: Option<u64>,
    /// Unicode emoji character. Conflicts with `emoji_id`.
    pub emoji_name: Option<String>,
    /// Identifier of the tag within its parent forum channel.
    pub id: u64,
    /// Whether only elevated members may apply or remove the tag.
    pub moderated: bool,
    /// Name of the tag (0--20 characters).
    pub name: String,
}

/// The abstract value of a [`ForumTag`].
pub ghost struct TagView {
    pub emoji_id: Option<u64>,
    pub emoji_name: Option<Seq<char>>,
    pub id: u64,
    pub moderated: bool,
    pub name: Seq<char>,
}

impl View for ForumTag {
    type V = TagView;

    open spec fn view(&self) -> TagView {
        TagView {
            emoji_id: self.emoji_id,
            emoji_name: opt_text_view(self.emoji_name),
            id: self.id,
            moderated: self.moderated,
            name: self.name@,
        }
    }
}

/// The scan's state: one slot per recognized field, `Some` once the field's
/// key has been seen, and the unrecognized keys met so far, in order.
pub ghost struct ScanState {
    pub emoji_id: Option<Option<u64>>,
    pub emoji_name: Option<Option<Seq<char>>>,
    pub id: Option<u64>,
    pub moderated: Option<bool>,
    pub name: Option<Seq<char>>,
    pub unknown: Seq<Seq<char>>,
}

/// The state before any entry is consumed.
pub open spec fn init_state() -> ScanState {
    ScanState {
        emoji_id: None,
        emoji_name: None,
        id: None,
        moderated: None,
        name: None,
        unknown: Seq::empty(),
    }
}

/// What consuming one entry does to the scan's state.
///
/// A recognized key whose slot is already filled is a duplicate; a recognized
/// key whose value has an unusable shape is invalid (the emoji identifier
/// excepted: every shape resolves); an unrecognized key is recorded and its
/// value discarded.
pub open spec fn scan_step(st: ScanState, e: WireEntry) -> Result<ScanState, DecodeError> {
    match entry_field(e) {
        Some(FieldName::EmojiId) => if st.emoji_id is Some {
            Err(DecodeError::DuplicateField(FieldName::EmojiId))
        } else {
            Ok(ScanState { emoji_id: Some(spec_resolve_emoji_id(e.value)), ..st })
        },
        Some(FieldName::EmojiName) => if st.emoji_name is Some {
            Err(DecodeError::DuplicateField(FieldName::EmojiName))
        } else {
            match spec_opt_text(e.value) {
                Some(v) => Ok(ScanState { emoji_name: Some(v), ..st }),
                None => Err(DecodeError::InvalidValue(FieldName::EmojiName)),
            }
        },
        Some(FieldName::Id) => if st.id is Some {
            Err(DecodeError::DuplicateField(FieldName::Id))
        } else {
            match spec_snowflake(e.value) {
                Some(n) => Ok(ScanState { id: Some(n), ..st }),
                None => Err(DecodeError::InvalidValue(FieldName::Id)),
            }
        },
        Some(FieldName::Moderated) => if st.moderated is Some {
            Err(DecodeError::DuplicateField(FieldName::Moderated))
        } else {
            match spec_boolean(e.value) {
                Some(b) => Ok(ScanState { moderated: Some(b), ..st }),
                None => Err(DecodeError::InvalidValue(FieldName::Moderated)),
            }
        },
        Some(FieldName::Name) => if st.name is Some {
            Err(DecodeError::DuplicateField(FieldName::Name))
        } else {
            match spec_text(e.value) {
                Some(s) => Ok(ScanState { name: Some(s), ..st }),
                None => Err(DecodeError::InvalidValue(FieldName::Name)),
            }
        },
        None => Ok(ScanState { unknown: st.unknown.push(e.key@), ..st }),
    }
}

/// How a scan ends: still going with a state, or stopped by an error, with
/// the unrecognized keys recorded up to that point.
pub ghost enum ScanOutcome {
    Going(ScanState),
    Stopped(DecodeError, Seq<Seq<char>>),
}

/// The scan of a document from a state: entries are consumed left to right
/// until all are consumed or a step fails.
pub open spec fn scan(st: ScanState, entries: Seq<WireEntry>) -> ScanOutcome
    decreases entries.len(),
{
    if entries.len() == 0 {
        ScanOutcome::Going(st)
    } else {
        match scan_step(st, entries[0]) {
            Ok(st2) => scan(st2, entries.drop_first()),
            Err(e) => ScanOutcome::Stopped(e, st.unknown),
        }
    }
}

/// The state a still-going scan holds.
pub open spec fn going_state(o: ScanOutcome) -> ScanState {
    match o {
        ScanOutcome::Going(st) => st,
        ScanOutcome::Stopped(_, _) => init_state(),
    }
}

/// A filled slot's content; absent while the slot is empty.
pub open spec fn flatten_seen<T>(o: Option<Option<T>>) -> Option<T> {
    match o {
        Some(x) => x,
        None => None,
    }
}

/// What a completed scan yields: the first required field never seen, in the
/// order `id`, `moderated`, `name`, fails the decode; otherwise the tag, its
/// optional fields defaulting to absent.
pub open spec fn finish(st: ScanState) -> Result<TagView, DecodeError> {
    if st.id is None {
        Err(DecodeError::MissingField(FieldName::Id))
    } else if st.moderated is None {
        Err(DecodeError::MissingField(FieldName::Moderated))
    } else if st.name is None {
        Err(DecodeError::MissingField(FieldName::Name))
    } else {
        Ok(TagView {
            emoji_id: flatten_seen(st.emoji_id),
            emoji_name: flatten_seen(st.emoji_name),
            id: st.id->0,
            moderated: st.moderated->0,
            name: st.name->0,
        })
    }
}

/// What decoding a document yields.
pub open spec fn spec_decode_tag(entries: Seq<WireEntry>) -> Result<TagView, DecodeError> {
    match scan(init_state(), entries) {
        ScanOutcome::Going(st) => finish(st),
        ScanOutcome::Stopped(e, _) => Err(e),
    }
}

/// The unrecognized keys a decode reports, in order: all of them when the
/// scan completes, those met before the failure when it does not.
pub open spec fn spec_decode_diag(entries: Seq<WireEntry>) -> Seq<Seq<char>> {
    match scan(init_state(), entries) {
        ScanOutcome::Going(st) => st.unknown,
        ScanOutcome::Stopped(_, u) => u,
    }
}

/// A scan consumes a concatenation left part first.
pub proof fn lemma_scan_append(st: ScanState, a: Seq<WireEntry>, b: Seq<WireEntry>)
    ensures
        scan(st, a + b) == (match scan(st, a) {
            ScanOutcome::Going(st2) => scan(st2, b),
            ScanOutcome::Stopped(e, u) => ScanOutcome::Stopped(e, u),
        }),
    decreases a.len(),
{
    if a.len() == 0 {
        assert(a + b =~= b);
    } else {
        assert((a + b)[0] == a[0]);
        assert((a + b).drop_first() =~= a.drop_first() + b);
        match scan_step(st, a[0]) {
            Ok(st2) => {
                lemma_scan_append(st2, a.drop_first(), b);
            },
            Err(_) => {
            },
        }
    }
}

/// The abstract values of a sequence of keys.
pub open spec fn keys_view(s: Seq<String>) -> Seq<Seq<char>>
    decreases s.len(),
{
    if s.len() == 0 {
        Seq::empty()
    } else {
        keys_view(s.drop_last()).push(s.last()@)
    }
}

/// The scan's state as the decoder's loop holds it.
pub open spec fn held_state(
    emoji_id: Option<Option<u64>>,
    emoji_name: Option<Option<String>>,
    id: Option<u64>,
    moderated: Option<bool>,
    name: Option<String>,
    unknown: Seq<Seq<char>>,
) -> ScanState {
    ScanState {
        emoji_id: emoji_id,
        emoji_name: seen_text_view(emoji_name),
        id: id,
        moderated: moderated,
        name: opt_text_view(name),
        unknown: unknown,
    }
}

/// Decode a forum tag from a wire document.
///
/// The entries are consumed once, left to right. A recognized key seen twice
/// fails with `DuplicateField`; a recognized key other than the emoji
/// identifier whose value has an unusable shape fails with `InvalidValue`;
/// an unrecognized key is skipped and pushed onto `diag`. After the scan,
/// the required fields are checked in the order `id`, `moderated`, `name`,
/// and the first one never seen fails with `MissingField`. The emoji
/// identifier resolves by the type-flexible policy and the optional fields
/// default to absent.
pub fn decode_forum_tag(doc: &Vec<WireEntry>, diag: &mut Vec<String>) -> (r: Result<
    ForumTag,
    DecodeError,
>)
    ensures
        (match (r, spec_decode_tag(doc@)) {
            (Ok(tag), Ok(m)) => tag@ == m,
            (Err(e), Err(m)) => e == m,
            _ => false,
        }),
        keys_view(final(diag)@) == keys_view(old(diag)@) + spec_decode_diag(doc@),
{
    let mut emoji_id: Option<Option<u64>> = None;
    let mut emoji_name: Option<Option<String>> = None;
    let mut id: Option<u64> = None;
    let mut moderated: Option<bool> = None;
    let mut name: Option<String> = None;
    let ghost mut unknown: Seq<Seq<char>> = Seq::empty();
    let ghost base: Seq<Seq<char>> = keys_view(diag@);
    let mut i: usize = 0;
    while i < doc.len()
        invariant
            0 <= i <= doc@.len(),
            scan(init_state(), doc@.take(i as int)) == ScanOutcome::Going(
                held_state(emoji_id, emoji_name, id, moderated, name, unknown),
            ),
            keys_view(diag@) == base + unknown,
            base == keys_view(old(diag)@),
        decreases doc@.len() - i,
    {
        let ghost st = held_state(emoji_id, emoji_name, id, moderated, name, unknown);
        let ghost e = doc@[i as int];
        proof {
            assert(doc@.take(i as int + 1) =~= doc@.take(i as int) + seq![e]);
            lemma_scan_append(init_state(), doc@.take(i as int), seq![e]);
            assert(seq![e].drop_first() =~= Seq::<WireEntry>::empty());
            assert(doc@ =~= doc@.take(i as int + 1) + doc@.skip(i as int + 1));
        }
        let entry = &doc[i];
        let mut fail: Option<DecodeError> = None;
        match key_field(&entry.key) {
            Some(FieldName::EmojiId) => {
                if emoji_id.is_some() {
                    fail = Some(DecodeError::DuplicateField(FieldName::EmojiId));
                } else {
                    emoji_id = Some(resolve_emoji_id(&entry.value));
                }
            },
            Some(FieldName::EmojiName) => {
                if emoji_name.is_some() {
                    fail = Some(DecodeError::DuplicateField(FieldName::EmojiName));
                } else {
                    match extract_opt_text(&entry.value) {
                        Some(v) => {
                            emoji_name = Some(v);
                        },
                        None => {
                            fail = Some(DecodeError::InvalidValue(FieldName::EmojiName));
                        },
                    }
                }
            },
            Some(FieldName::Id) => {
                if id.is_some() {
                    fail = Some(DecodeError::DuplicateField(FieldName::Id));
                } else {
                    match extract_snowflake(&entry.value) {
                        Some(n) => {
                            id = Some(n);
                        },
                        None => {
                            fail = Some(DecodeError::InvalidValue(FieldName::Id));
                        },
                    }
                }
            },
            Some(FieldName::Moderated) => {
                if moderated.is_some() {
                    fail = Some(DecodeError::DuplicateField(FieldName::Moderated));
                } else {
                    match extract_boolean(&entry.value) {
                        Some(b) => {
                            moderated = Some(b);
                        },
                        None => {
                            fail = Some(DecodeError::InvalidValue(FieldName::Moderated));
                        },
                    }
                }
            },
            Some(FieldName::Name) => {
                if name.is_some() {
                    fail = Some(DecodeError::DuplicateField(FieldName::Name));
                } else {
                    match extract_text(&entry.value) {
                        Some(s) => {
                            name = Some(s);
                        },
                        None => {
                            fail = Some(DecodeError::InvalidValue(FieldName::Name));
                        },
                    }
                }
            },
            None => {
                let ghost dpre = diag@;
                diag.push(entry.key.clone());
                proof {
                    let upre = unknown;
                    unknown = unknown.push(e.key@);
                    assert(diag@.drop_last() =~= dpre);
                    assert(diag@.last() == e.key);
                    assert(keys_view(diag@) == keys_view(dpre).push(e.key@));
                    assert(base + unknown =~= (base + upre).push(e.key@));
                }
            },
        }
        if let Some(err) = fail {
            proof {
                assert(seq![e][0] == e);
                assert(scan_step(st, e) == Err::<ScanState, DecodeError>(err));
                assert(scan(st, seq![e]) == ScanOutcome::Stopped(err, st.unknown));
                assert(scan(init_state(), doc@.take(i as int + 1)) == ScanOutcome::Stopped(
                    err,
                    st.unknown,
                ));
                lemma_scan_append(
                    init_state(),
                    doc@.take(i as int + 1),
                    doc@.skip(i as int + 1),
                );
            }
            return Err(err);
        }
        proof {
            let st2 = held_state(emoji_id, emoji_name, id, moderated, name, unknown);
            assert(seq![e][0] == e);
            assert(scan_step(st, e) == Ok::<ScanState, DecodeError>(st2));
            assert(scan(st2, seq![e].drop_first()) == ScanOutcome::Going(st2));
            assert(scan(st, seq![e]) == ScanOutcome::Going(st2));
        }
        i = i + 1;
    }
    proof {
        assert(doc@.take(doc@.len() as int) =~= doc@);
    }
    if id.is_none() {
        return Err(DecodeError::MissingField(FieldName::Id));
    }
    if moderated.is_none() {
        return Err(DecodeError::MissingField(FieldName::Moderated));
    }
    if name.is_none() {
        return Err(DecodeError::MissingField(FieldName::Name));
    }
    let tag = ForumTag {
        emoji_id: match emoji_id {
            Some(x) => x,
            None => None,
        },
        emoji_name: match emoji_name {
            Some(x) => x,
            None => None,
        },
        id: id.unwrap(),
        moderated: moderated.unwrap(),
        name: name.unwrap(),
    };
    Ok(tag)
}

} // verus!

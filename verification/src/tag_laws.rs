//! Laws of the tag decoder: what a whole decode yields for whole classes of
//! documents, proved from the scan model.

use crate::tag::{
    finish, going_state, init_state, lemma_scan_append, scan, scan_step, spec_decode_diag,
    spec_decode_tag, ScanOutcome, ScanState, TagView,
};
use crate::wire::{
    entry_field, spec_boolean, spec_opt_text, spec_resolve_emoji_id, spec_snowflake, spec_text,
    DecodeError, FieldName, WireEntry,
};
use vstd::prelude::*;

verus! {

/// Whether some entry of `s` carries the recognized field `f`.
pub open spec fn has_field(s: Seq<WireEntry>, f: FieldName) -> bool {
    exists|i: int| 0 <= i < s.len() && entry_field(#[trigger] s[i]) == Some(f)
}

/// An index of `s` whose entry carries the field `f`.
pub open spec fn field_index(s: Seq<WireEntry>, f: FieldName) -> int {
    choose|i: int| 0 <= i < s.len() && entry_field(#[trigger] s[i]) == Some(f)
}

/// The value an entry of `s` carries for the field `f`.
pub open spec fn field_value(s: Seq<WireEntry>, f: FieldName) -> crate::wire::WireValue {
    s[field_index(s, f)].value
}

/// Whether no recognized field occurs twice in `s`.
pub open spec fn no_duplicate_fields(s: Seq<WireEntry>) -> bool {
    forall|i: int, j: int|
        0 <= i < j < s.len() && entry_field(#[trigger] s[i]) is Some ==> entry_field(s[i])
            != entry_field(#[trigger] s[j])
}

/// Whether the value of `e` extracts for the field its key names. Every
/// value extracts for an unrecognized key and for the emoji identifier.
pub open spec fn entry_extracts(e: WireEntry) -> bool {
    match entry_field(e) {
        Some(FieldName::EmojiId) => true,
        Some(FieldName::EmojiName) => spec_opt_text(e.value) is Some,
        Some(FieldName::Id) => spec_snowflake(e.value) is Some,
        Some(FieldName::Moderated) => spec_boolean(e.value) is Some,
        Some(FieldName::Name) => spec_text(e.value) is Some,
        None => true,
    }
}

/// Whether every entry of `s` extracts.
pub open spec fn all_extract(s: Seq<WireEntry>) -> bool {
    forall|i: int| 0 <= i < s.len() ==> entry_extracts(#[trigger] s[i])
}

/// The keys of the unrecognized entries of `s`, in order.
pub open spec fn unknown_keys(s: Seq<WireEntry>) -> Seq<Seq<char>>
    decreases s.len(),
{
    if s.len() == 0 {
        Seq::empty()
    } else if entry_field(s[0]) is None {
        seq![s[0].key@] + unknown_keys(s.drop_first())
    } else {
        unknown_keys(s.drop_first())
    }
}

/// The recognized entries of `s`, in order.
pub open spec fn recognized_of(s: Seq<WireEntry>) -> Seq<WireEntry>
    decreases s.len(),
{
    if s.len() == 0 {
        Seq::empty()
    } else if entry_field(s[0]) is Some {
        seq![s[0]] + recognized_of(s.drop_first())
    } else {
        recognized_of(s.drop_first())
    }
}

/// In a document without duplicated fields, an index carrying `f` is the
/// index of `f`.
pub proof fn lemma_field_index_unique(s: Seq<WireEntry>, f: FieldName, i: int)
    requires
        no_duplicate_fields(s),
        0 <= i < s.len(),
        entry_field(s[i]) == Some(f),
    ensures
        has_field(s, f),
        field_index(s, f) == i,
        field_value(s, f) == s[i].value,
{
    assert(has_field(s, f));
    let j = field_index(s, f);
    assert(0 <= j < s.len() && entry_field(s[j]) == Some(f));
    if i < j {
        assert(false);
    } else if j < i {
        assert(false);
    }
}

/// A field found past the first entry has the same value there.
pub proof fn lemma_field_value_tail(s: Seq<WireEntry>, f: FieldName)
    requires
        s.len() > 0,
        no_duplicate_fields(s),
        has_field(s.drop_first(), f),
    ensures
        has_field(s, f),
        field_value(s, f) == field_value(s.drop_first(), f),
{
    let rest = s.drop_first();
    let j = field_index(rest, f);
    assert(0 <= j < rest.len() && entry_field(rest[j]) == Some(f));
    assert(rest[j] == s[j + 1]);
    lemma_field_index_unique(s, f, j + 1);
}

/// The scan of a document without duplicated fields, all of whose values
/// extract, from a state whose filled slots name no field of the document:
/// it completes, fills exactly the slots of the fields present, from each
/// field's value, and records exactly the unrecognized keys.
pub proof fn lemma_scan_clean(st: ScanState, s: Seq<WireEntry>)
    requires
        all_extract(s),
        no_duplicate_fields(s),
        st.emoji_id is Some ==> !has_field(s, FieldName::EmojiId),
        st.emoji_name is Some ==> !has_field(s, FieldName::EmojiName),
        st.id is Some ==> !has_field(s, FieldName::Id),
        st.moderated is Some ==> !has_field(s, FieldName::Moderated),
        st.name is Some ==> !has_field(s, FieldName::Name),
    ensures
        scan(st, s) is Going,
        ({
            let st2 = going_state(scan(st, s));
            &&& st2.emoji_id == (if has_field(s, FieldName::EmojiId) {
                Some(spec_resolve_emoji_id(field_value(s, FieldName::EmojiId)))
            } else {
                st.emoji_id
            })
            &&& st2.emoji_name == (if has_field(s, FieldName::EmojiName) {
                Some(spec_opt_text(field_value(s, FieldName::EmojiName))->0)
            } else {
                st.emoji_name
            })
            &&& st2.id == (if has_field(s, FieldName::Id) {
                Some(spec_snowflake(field_value(s, FieldName::Id))->0)
            } else {
                st.id
            })
            &&& st2.moderated == (if has_field(s, FieldName::Moderated) {
                Some(spec_boolean(field_value(s, FieldName::Moderated))->0)
            } else {
                st.moderated
            })
            &&& st2.name == (if has_field(s, FieldName::Name) {
                Some(spec_text(field_value(s, FieldName::Name))->0)
            } else {
                st.name
            })
            &&& st2.unknown == st.unknown + unknown_keys(s)
        }),
    decreases s.len(),
{
    if s.len() == 0 {
        assert(st.unknown + unknown_keys(s) =~= st.unknown);
    } else {
        let e = s[0];
        let rest = s.drop_first();
        assert(forall|i: int| 0 <= i < rest.len() ==> #[trigger] rest[i] == s[i + 1]);
        assert(entry_extracts(e));
        assert forall|f: FieldName| #[trigger] has_field(rest, f) implies has_field(s, f)
            && field_value(s, f) == field_value(rest, f) by {
            lemma_field_value_tail(s, f);
        }
        if entry_field(e) is Some {
            let f0 = entry_field(e)->0;
            lemma_field_index_unique(s, f0, 0);
            assert(!has_field(rest, f0)) by {
                if has_field(rest, f0) {
                    let j = field_index(rest, f0);
                    assert(entry_field(s[j + 1]) == Some(f0));
                    assert(false);
                }
            }
        }
        assert forall|f: FieldName|
            has_field(s, f) && entry_field(s[0]) != Some(f) implies #[trigger] has_field(
            rest,
            f,
        ) by {
            let i = field_index(s, f);
            assert(0 <= i < s.len() && entry_field(s[i]) == Some(f));
            assert(i != 0);
            assert(entry_field(rest[i - 1]) == Some(f));
        }
        match scan_step(st, e) {
            Ok(st2) => {
                lemma_scan_clean(st2, rest);
                assert(unknown_keys(s) == if entry_field(e) is None {
                    seq![e.key@] + unknown_keys(rest)
                } else {
                    unknown_keys(rest)
                });
                assert(st2.unknown + unknown_keys(rest) =~= st.unknown + unknown_keys(s));
            },
            Err(_) => {
                assert(false);
            },
        }
    }
}

/// Law: a document holding each of the five recognized fields exactly once,
/// each with a usable value, and nothing else, decodes to the tag those
/// values give, field for field.
pub proof fn lemma_decode_complete(s: Seq<WireEntry>)
    requires
        all_extract(s),
        no_duplicate_fields(s),
        forall|i: int| 0 <= i < s.len() ==> entry_field(#[trigger] s[i]) is Some,
        forall|f: FieldName| has_field(s, f),
    ensures
        spec_decode_tag(s) == Ok::<TagView, DecodeError>(
            TagView {
                emoji_id: spec_resolve_emoji_id(field_value(s, FieldName::EmojiId)),
                emoji_name: spec_opt_text(field_value(s, FieldName::EmojiName))->0,
                id: spec_snowflake(field_value(s, FieldName::Id))->0,
                moderated: spec_boolean(field_value(s, FieldName::Moderated))->0,
                name: spec_text(field_value(s, FieldName::Name))->0,
            },
        ),
{
    lemma_scan_clean(init_state(), s);
    assert(has_field(s, FieldName::Id));
    assert(has_field(s, FieldName::Moderated));
    assert(has_field(s, FieldName::Name));
    assert(has_field(s, FieldName::EmojiId));
    assert(has_field(s, FieldName::EmojiName));
}

/// Law: a document without duplicated fields, all of whose values extract,
/// that misses a required field fails with `MissingField` naming the first
/// missing one, in the order `id`, `moderated`, `name`.
pub proof fn lemma_decode_missing(s: Seq<WireEntry>)
    requires
        all_extract(s),
        no_duplicate_fields(s),
        !has_field(s, FieldName::Id) || !has_field(s, FieldName::Moderated) || !has_field(
            s,
            FieldName::Name,
        ),
    ensures
        spec_decode_tag(s) == Err::<TagView, DecodeError>(
            if !has_field(s, FieldName::Id) {
                DecodeError::MissingField(FieldName::Id)
            } else if !has_field(s, FieldName::Moderated) {
                DecodeError::MissingField(FieldName::Moderated)
            } else {
                DecodeError::MissingField(FieldName::Name)
            },
        ),
{
    lemma_scan_clean(init_state(), s);
}

/// Whether the entry at `j` repeats a recognized field seen earlier.
pub open spec fn dup_at(s: Seq<WireEntry>, j: int) -> bool {
    exists|i: int|
        0 <= i < j && entry_field(#[trigger] s[i]) is Some && entry_field(s[i]) == entry_field(
            s[j],
        )
}

/// Law: a document whose earliest repetition of a recognized field comes
/// before any unusable value fails with `DuplicateField` naming that field,
/// whatever the entries past the repetition hold.
pub proof fn lemma_decode_duplicate(s: Seq<WireEntry>, j: int)
    requires
        0 <= j < s.len(),
        dup_at(s, j),
        forall|l: int| 0 <= l < j ==> !dup_at(s, l),
        forall|l: int| 0 <= l < j ==> entry_extracts(#[trigger] s[l]),
    ensures
        spec_decode_tag(s) == Err::<TagView, DecodeError>(
            DecodeError::DuplicateField(entry_field(s[j])->0),
        ),
{
    let p = s.take(j);
    assert(forall|i: int| 0 <= i < j ==> #[trigger] p[i] == s[i]);
    assert(no_duplicate_fields(p)) by {
        if !no_duplicate_fields(p) {
            let (i, l) = choose|i: int, l: int|
                0 <= i < l < p.len() && entry_field(#[trigger] p[i]) is Some && entry_field(p[i])
                    == entry_field(#[trigger] p[l]);
            assert(dup_at(s, l));
            assert(false);
        }
    }
    assert(all_extract(p));
    lemma_scan_clean(init_state(), p);
    let stp = going_state(scan(init_state(), p));
    let i0 = choose|i: int|
        0 <= i < j && entry_field(#[trigger] s[i]) is Some && entry_field(s[i]) == entry_field(
            s[j],
        );
    let f = entry_field(s[j])->0;
    assert(entry_field(p[i0]) == Some(f));
    assert(has_field(p, f));
    assert(scan_step(stp, s[j]) == Err::<ScanState, DecodeError>(DecodeError::DuplicateField(f)));
    lemma_scan_append(init_state(), p, s.skip(j));
    assert(p + s.skip(j) =~= s);
    assert(s.skip(j)[0] == s[j]);
    assert(scan(stp, s.skip(j)) == ScanOutcome::Stopped(
        DecodeError::DuplicateField(f),
        stp.unknown,
    ));
}

/// Whether two states fill the same slots with the same contents, whatever
/// unrecognized keys each has recorded.
pub open spec fn same_slots(a: ScanState, b: ScanState) -> bool {
    &&& a.emoji_id == b.emoji_id
    &&& a.emoji_name == b.emoji_name
    &&& a.id == b.id
    &&& a.moderated == b.moderated
    &&& a.name == b.name
}

/// Scanning a document and scanning only its recognized entries fill the
/// slots alike and fail alike.
pub proof fn lemma_scan_skips_unknown(st1: ScanState, st2: ScanState, s: Seq<WireEntry>)
    requires
        same_slots(st1, st2),
    ensures
        (match (scan(st1, s), scan(st2, recognized_of(s))) {
            (ScanOutcome::Going(a), ScanOutcome::Going(b)) => same_slots(a, b),
            (ScanOutcome::Stopped(e1, _), ScanOutcome::Stopped(e2, _)) => e1 == e2,
            _ => false,
        }),
    decreases s.len(),
{
    if s.len() == 0 {
    } else {
        let e = s[0];
        let rest = s.drop_first();
        if entry_field(e) is None {
            match scan_step(st1, e) {
                Ok(st1b) => {
                    lemma_scan_skips_unknown(st1b, st2, rest);
                },
                Err(_) => {
                    assert(false);
                },
            }
        } else {
            let r = recognized_of(s);
            assert(r == seq![e] + recognized_of(rest));
            assert(r.len() > 0 && r[0] == e);
            assert(r.drop_first() =~= recognized_of(rest));
            match (scan_step(st1, e), scan_step(st2, e)) {
                (Ok(st1b), Ok(st2b)) => {
                    assert(same_slots(st1b, st2b));
                    lemma_scan_skips_unknown(st1b, st2b, rest);
                },
                (Err(e1), Err(e2)) => {
                    assert(e1 == e2);
                },
                _ => {
                    assert(false);
                },
            }
        }
    }
}

/// Law: unrecognized keys do not affect what a decode yields. A document
/// decodes exactly as the document of its recognized entries alone does.
pub proof fn lemma_decode_ignores_unknown(s: Seq<WireEntry>)
    ensures
        spec_decode_tag(s) == spec_decode_tag(recognized_of(s)),
{
    lemma_scan_skips_unknown(init_state(), init_state(), s);
    match (scan(init_state(), s), scan(init_state(), recognized_of(s))) {
        (ScanOutcome::Going(a), ScanOutcome::Going(b)) => {
            assert(finish(a) == finish(b));
        },
        _ => {
        },
    }
}

/// A scan that completes has recorded exactly the unrecognized keys.
pub proof fn lemma_scan_unknown_total(st: ScanState, s: Seq<WireEntry>)
    requires
        scan(st, s) is Going,
    ensures
        going_state(scan(st, s)).unknown == st.unknown + unknown_keys(s),
    decreases s.len(),
{
    if s.len() == 0 {
        assert(st.unknown + unknown_keys(s) =~= st.unknown);
    } else {
        match scan_step(st, s[0]) {
            Ok(st2) => {
                lemma_scan_unknown_total(st2, s.drop_first());
                assert(st2.unknown + unknown_keys(s.drop_first()) =~= st.unknown + unknown_keys(
                    s,
                ));
            },
            Err(_) => {
            },
        }
    }
}

/// Law: a decode that succeeds reports one diagnostic per unrecognized key,
/// the keys themselves, in document order.
pub proof fn lemma_decode_reports_unknown(s: Seq<WireEntry>)
    requires
        spec_decode_tag(s) matches Ok(_),
    ensures
        spec_decode_diag(s) == unknown_keys(s),
{
    lemma_scan_unknown_total(init_state(), s);
    assert(Seq::<Seq<char>>::empty() + unknown_keys(s) =~= unknown_keys(s));
}

} // verus!

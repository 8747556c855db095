//! The traversal that rewrites every `resolved` URL of a document.

use crate::json::{Json, JsonValue};
use crate::origin::{replace_origin, with_origin};
use vstd::prelude::*;

verus! {

/// The key whose string value is the download URL of a dependency.
pub const RESOLVED: &'static str = "resolved";

/// Whether an object entry holds a URL to rewrite: its key is `resolved` and
/// its value is a string.
pub open spec fn is_resolved_url(key: Seq<char>, value: JsonValue) -> bool {
    key == RESOLVED@ && value is String
}

/// The document `doc` after rewriting: every string that stands under a key
/// `resolved`, at any depth, has its first origin replaced by `origin`.
/// Nothing else differs.
pub open spec fn rewritten(doc: JsonValue, origin: Seq<char>) -> JsonValue
    decreases doc,
{
    match doc {
        JsonValue::Array(items) => JsonValue::Array(
            Seq::new(
                items.len(),
                |i: int|
                    if 0 <= i < items.len() {
                        rewritten(items[i], origin)
                    } else {
                        JsonValue::Null
                    },
            ),
        ),
        JsonValue::Object(entries) => JsonValue::Object(
            Seq::new(
                entries.len(),
                |i: int|
                    (
                        entries[i].0,
                        if is_resolved_url(entries[i].0, entries[i].1) {
                            JsonValue::String(with_origin(entries[i].1->String_0, origin))
                        } else if 0 <= i < entries.len() {
                            rewritten(entries[i].1, origin)
                        } else {
                            JsonValue::Null
                        },
                    ),
            ),
        ),
        _ => doc,
    }
}

/// Rewriting keeps a document as valid as it was: no key is added, dropped or
/// renamed.
pub proof fn lemma_rewritten_well_formed(doc: JsonValue, origin: Seq<char>)
    ensures
        rewritten(doc, origin).well_formed() == doc.well_formed(),
    decreases doc,
{
    match doc {
        JsonValue::Array(items) => {
            let after = rewritten(doc, origin)->Array_0;
            assert forall|i: int| 0 <= i < items.len() implies (#[trigger] after[i]).well_formed()
                == items[i].well_formed() by {
                lemma_rewritten_well_formed(items[i], origin);
            }
            if rewritten(doc, origin).well_formed() {
                assert forall|i: int| 0 <= i < items.len() implies (
                #[trigger] items[i]).well_formed() by {
                    assert(after[i].well_formed());
                }
            }
        },
        JsonValue::Object(entries) => {
            let after = rewritten(doc, origin)->Object_0;
            assert forall|i: int| 0 <= i < entries.len() implies (#[trigger] after[i]).0
                == entries[i].0 && after[i].1.well_formed() == entries[i].1.well_formed() by {
                lemma_rewritten_well_formed(entries[i].1, origin);
            }
            if rewritten(doc, origin).well_formed() {
                assert forall|i: int| 0 <= i < entries.len() implies (
                #[trigger] entries[i]).1.well_formed() by {
                    assert(after[i].1.well_formed());
                }
                assert forall|i: int, j: int| 0 <= i < j < entries.len() implies entries[i].0
                    != entries[j].0 by {
                    assert(after[i].0 != after[j].0);
                }
            }
        },
        _ => {},
    }
}

/// Rewrites `value` in place: in every object, at any depth, a string under
/// the key `resolved` gets `new_url` in place of its first origin. Objects
/// and arrays are gone through alike; nothing else is touched, and nothing
/// is reported: a `resolved` entry that holds no string, or a string without
/// an origin, is passed over.
pub fn update_urls(value: &mut Json, new_url: &str)
    ensures
        final(value)@ == rewritten(old(value)@, new_url@),
        final(value)@.well_formed() == old(value)@.well_formed(),
    decreases old(value)@,
{
    let ghost doc = value@;
    match value {
        Json::Array(items) => {
            let ghost before = items@;
            let mut i: usize = 0;
            while i < items.len()
                invariant
                    doc == old(value)@,
                    doc == JsonValue::Array(doc->Array_0),
                    doc->Array_0.len() == before.len(),
                    forall|j: int| 0 <= j < before.len() ==> doc->Array_0[j] == before[j]@,
                    i <= items@.len() == before.len(),
                    forall|j: int| 0 <= j < i ==> items@[j]@ == rewritten(before[j]@, new_url@),
                    forall|j: int| i <= j < before.len() ==> items@[j] == before[j],
                decreases items@.len() - i,
            {
                proof {
                    assert(decreases_to!(doc => doc->Array_0));
                    assert(decreases_to!(doc->Array_0 => doc->Array_0[i as int]));
                }
                update_urls(&mut items[i], new_url);
                i += 1;
            }
        },
        Json::Object(entries) => {
            let resolved = String::from_str(RESOLVED);
            let ghost before = entries@;
            let mut i: usize = 0;
            while i < entries.len()
                invariant
                    doc == old(value)@,
                    doc == JsonValue::Object(doc->Object_0),
                    doc->Object_0.len() == before.len(),
                    forall|j: int|
                        0 <= j < before.len() ==> doc->Object_0[j] == (before[j].0@, before[j].1@),
                    resolved@ == RESOLVED@,
                    i <= entries@.len() == before.len(),
                    forall|j: int|
                        0 <= j < i ==> (entries@[j].0@, entries@[j].1@) == rewritten(
                            doc,
                            new_url@,
                        )->Object_0[j],
                    forall|j: int| i <= j < before.len() ==> entries@[j] == before[j],
                decreases entries@.len() - i,
            {
                proof {
                    assert(decreases_to!(doc => doc->Object_0));
                    assert(decreases_to!(doc->Object_0 => doc->Object_0[i as int]));
                    assert(decreases_to!(doc->Object_0[i as int] => doc->Object_0[i as int].1));
                }
                if entries[i].0 == resolved && entries[i].1.is_string() {
                    if let Json::String(url) = &mut entries[i].1 {
                        *url = replace_origin(url.as_str(), new_url);
                    }
                } else {
                    update_urls(&mut entries[i].1, new_url);
                }
                i += 1;
            }
        },
        _ => {},
    }
    proof {
        lemma_rewritten_well_formed(doc, new_url@);
        if doc is Array {
            assert(value@->Array_0 =~= rewritten(doc, new_url@)->Array_0);
        }
        if doc is Object {
            assert(value@->Object_0 =~= rewritten(doc, new_url@)->Object_0);
        }
    }
}

} // verus!

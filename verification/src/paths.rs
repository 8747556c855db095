//! Positions in a document, and what rewriting does at each of them.
//!
//! A path names a node by the index of the item or entry taken at each level,
//! from the root down. The theorems here say, for every path of every
//! document, what stands there after rewriting.

use crate::json::JsonValue;
use crate::origin::{first_match, with_origin, ORIGIN_PATTERN};
use crate::pattern::{
    is_first_origin, is_origin, lemma_first_origin_unique, lemma_new_origin_is_first,
    lemma_second_splice,
};
use crate::rewrite::{is_resolved_url, rewritten};
use vstd::prelude::*;

verus! {

/// The `i`-th child of a node: an item of an array, or the value of an entry
/// of an object.
pub open spec fn child(doc: JsonValue, i: int) -> Option<JsonValue> {
    match doc {
        JsonValue::Array(items) => if 0 <= i < items.len() {
            Some(items[i])
        } else {
            None
        },
        JsonValue::Object(entries) => if 0 <= i < entries.len() {
            Some(entries[i].1)
        } else {
            None
        },
        _ => None,
    }
}

/// The node at `path`, if the path leads anywhere. The empty path leads to
/// the root.
pub open spec fn node_at(doc: JsonValue, path: Seq<int>) -> Option<JsonValue>
    decreases path.len(),
{
    if path.len() == 0 {
        Some(doc)
    } else {
        match child(doc, path[0]) {
            Some(below) => node_at(below, path.drop_first()),
            None => None,
        }
    }
}

/// Whether the `i`-th child of a node is a URL to rewrite: a string that
/// stands in an object under the key `resolved`.
pub open spec fn is_url_entry(doc: JsonValue, i: int) -> bool {
    doc matches JsonValue::Object(entries) && 0 <= i < entries.len() && is_resolved_url(
        entries[i].0,
        entries[i].1,
    )
}

/// Whether `path` leads to a URL to rewrite.
pub open spec fn url_at(doc: JsonValue, path: Seq<int>) -> bool
    decreases path.len(),
{
    if path.len() == 0 {
        false
    } else if path.len() == 1 {
        is_url_entry(doc, path[0])
    } else {
        match child(doc, path[0]) {
            Some(below) => url_at(below, path.drop_first()),
            None => false,
        }
    }
}

/// Whether a document holds a URL to rewrite, at any depth.
pub open spec fn holds_url(doc: JsonValue) -> bool {
    exists|path: Seq<int>| url_at(doc, path)
}

/// What stands at a path after rewriting. A path that led nowhere still leads
/// nowhere. A URL to rewrite has its first origin replaced. Any other node is
/// the rewritten form of the node that stood there: rewriting goes down to
/// every depth, through objects and arrays alike.
pub proof fn lemma_rewritten_at(doc: JsonValue, origin: Seq<char>, path: Seq<int>)
    ensures
        node_at(rewritten(doc, origin), path) == match node_at(doc, path) {
            None => None,
            Some(node) => Some(
                if url_at(doc, path) {
                    JsonValue::String(with_origin(node->String_0, origin))
                } else {
                    rewritten(node, origin)
                },
            ),
        },
    decreases path.len(),
{
    if path.len() > 0 {
        match child(doc, path[0]) {
            Some(below) => {
                let rest = path.drop_first();
                if path.len() == 1 {
                    assert(node_at(below, rest) == Some(below));
                    let after = child(rewritten(doc, origin), path[0]);
                    assert(node_at(after->0, rest) == after);
                } else {
                    lemma_rewritten_at(below, origin, rest);
                    if is_url_entry(doc, path[0]) {
                        lemma_nothing_below_a_string(below, rest);
                        lemma_nothing_below_a_string(
                            child(rewritten(doc, origin), path[0])->0,
                            rest,
                        );
                    }
                }
            },
            None => {},
        }
    }
}

/// Every URL to rewrite is rewritten, at whatever depth it stands: after
/// rewriting, its place holds the same URL with the first origin replaced.
pub proof fn lemma_url_rewritten(doc: JsonValue, origin: Seq<char>, path: Seq<int>)
    requires
        url_at(doc, path),
    ensures
        node_at(doc, path) matches Some(JsonValue::String(url)) && node_at(
            rewritten(doc, origin),
            path,
        ) == Some(JsonValue::String(with_origin(url, origin))),
{
    lemma_url_is_a_string(doc, path);
    lemma_rewritten_at(doc, origin, path);
}

/// A path to a URL leads to a string.
pub proof fn lemma_url_is_a_string(doc: JsonValue, path: Seq<int>)
    requires
        url_at(doc, path),
    ensures
        node_at(doc, path) matches Some(node) && node is String,
    decreases path.len(),
{
    let below = child(doc, path[0])->0;
    if path.len() == 1 {
        assert(node_at(below, path.drop_first()) == Some(below));
    } else {
        lemma_url_is_a_string(below, path.drop_first());
    }
}

/// Whether two nodes agree in all but their children: they are of one kind;
/// arrays have the same length, objects the same keys in the same order, and
/// any other node is the same value.
pub open spec fn same_frame(before: JsonValue, after: JsonValue) -> bool {
    match before {
        JsonValue::Array(items) => after matches JsonValue::Array(others) && others.len()
            == items.len(),
        JsonValue::Object(entries) => {
            &&& after matches JsonValue::Object(others)
            &&& others.len() == entries.len()
            &&& forall|i: int| 0 <= i < entries.len() ==> others[i].0 == entries[i].0
        },
        _ => after == before,
    }
}

/// Rewriting keeps everything that is no URL to rewrite. Wherever a path
/// leads to such a node, it leads to a node of the same kind afterwards: a
/// null, boolean, number or other string is the same value, an array has the
/// same length, and an object has the same keys in the same order. This holds
/// also for a value under the key `resolved` that is no string.
pub proof fn lemma_frame_kept(doc: JsonValue, origin: Seq<char>, path: Seq<int>)
    requires
        node_at(doc, path) is Some,
        !url_at(doc, path),
    ensures
        node_at(rewritten(doc, origin), path) matches Some(after) && same_frame(
            node_at(doc, path)->0,
            after,
        ),
{
    lemma_rewritten_at(doc, origin, path);
}

/// A document that holds no URL to rewrite is left as it is.
pub proof fn lemma_unchanged_without_urls(doc: JsonValue, origin: Seq<char>)
    requires
        !holds_url(doc),
    ensures
        rewritten(doc, origin) == doc,
    decreases doc,
{
    match doc {
        JsonValue::Array(items) => {
            let after = rewritten(doc, origin)->Array_0;
            assert forall|i: int| 0 <= i < items.len() implies after[i] == items[i] by {
                lemma_no_urls_below(doc, i);
                lemma_unchanged_without_urls(items[i], origin);
            }
            assert(after =~= items);
        },
        JsonValue::Object(entries) => {
            let after = rewritten(doc, origin)->Object_0;
            assert forall|i: int| 0 <= i < entries.len() implies after[i] == entries[i] by {
                lemma_no_urls_below(doc, i);
                assert(url_at(doc, seq![i]) == is_url_entry(doc, i));
                lemma_unchanged_without_urls(entries[i].1, origin);
            }
            assert(after =~= entries);
        },
        _ => {},
    }
}

/// Whatever is no URL to rewrite and holds none stays where it is and as it
/// is: the value under any other key, and a value under the key `resolved`
/// that is no string.
pub proof fn lemma_node_unchanged(doc: JsonValue, origin: Seq<char>, path: Seq<int>)
    requires
        node_at(doc, path) is Some,
        !url_at(doc, path),
        !holds_url(node_at(doc, path)->0),
    ensures
        node_at(rewritten(doc, origin), path) == node_at(doc, path),
{
    lemma_rewritten_at(doc, origin, path);
    lemma_unchanged_without_urls(node_at(doc, path)->0, origin);
}

/// Whether replacing the origin of `url` a second time changes nothing.
pub open spec fn settled(url: Seq<char>, origin: Seq<char>) -> bool {
    with_origin(with_origin(url, origin), origin) == with_origin(url, origin)
}

/// Whether every URL to rewrite in `doc` is settled once it has been
/// rewritten.
pub open spec fn all_settled(doc: JsonValue, origin: Seq<char>) -> bool {
    forall|path: Seq<int>| #[trigger]
        url_at(doc, path) ==> settled(node_at(doc, path)->0->String_0, origin)
}

/// Rewriting a second time with the same origin changes nothing, as far as
/// the search does its part: where replacing the origin a second time leaves
/// each rewritten URL as it is, rewriting a second time leaves the whole
/// rewritten document as it is.
pub proof fn lemma_idempotent_where_settled(doc: JsonValue, origin: Seq<char>)
    requires
        all_settled(doc, origin),
    ensures
        rewritten(rewritten(doc, origin), origin) == rewritten(doc, origin),
    decreases doc,
{
    let once = rewritten(doc, origin);
    let twice = rewritten(once, origin);
    match doc {
        JsonValue::Array(items) => {
            assert forall|i: int| 0 <= i < items.len() implies twice->Array_0[i]
                == once->Array_0[i] by {
                lemma_settled_below(doc, origin, i);
                lemma_idempotent_where_settled(items[i], origin);
            }
            assert(twice->Array_0 =~= once->Array_0);
        },
        JsonValue::Object(entries) => {
            assert forall|i: int| 0 <= i < entries.len() implies twice->Object_0[i]
                == once->Object_0[i] by {
                if is_url_entry(doc, i) {
                    assert(url_at(doc, seq![i]));
                    assert(node_at(entries[i].1, seq![i].drop_first()) == Some(entries[i].1));
                } else {
                    lemma_settled_below(doc, origin, i);
                    lemma_idempotent_where_settled(entries[i].1, origin);
                }
            }
            assert(twice->Object_0 =~= once->Object_0);
        },
        _ => {},
    }
}

/// Whether the search honours the pattern: in every text it finds the first
/// origin, and none where there is none.
pub open spec fn search_honours_pattern() -> bool {
    forall|text: Seq<char>|
        is_first_origin(text, #[trigger] first_match(ORIGIN_PATTERN@, text))
}

/// With a search that honours the pattern, and an origin that is a bare
/// origin, replacing the origin of a text a second time changes nothing.
pub proof fn lemma_settled_where_search_honours_pattern(url: Seq<char>, origin: Seq<char>)
    requires
        search_honours_pattern(),
        is_origin(origin),
    ensures
        settled(url, origin),
{
    let once = with_origin(url, origin);
    match first_match(ORIGIN_PATTERN@, url) {
        Some((start, end)) => {
            assert(is_first_origin(url, first_match(ORIGIN_PATTERN@, url)));
            assert(is_first_origin(once, first_match(ORIGIN_PATTERN@, once)));
            lemma_new_origin_is_first(url, start, end, origin);
            lemma_first_origin_unique(
                once,
                first_match(ORIGIN_PATTERN@, once),
                Some((start, start + origin.len())),
            );
            lemma_second_splice(url, start, end, origin);
        },
        None => {},
    }
}

/// With a search that honours the pattern, and an origin that is a bare
/// origin (`http` or `https`, `://` and a host, with no path), rewriting is
/// idempotent: rewriting a rewritten document with the same origin changes
/// nothing.
///
/// That the search honours the pattern is assumed here, not proved: the
/// search is the work of the `regex` crate. An origin with a path is left
/// out because the theorem fails for it: `https://a/b` becomes
/// `http://x/y/b` under the origin `http://x/y`, and `http://x/y/y/b` the
/// second time.
pub proof fn lemma_idempotent_where_search_honours_pattern(doc: JsonValue, origin: Seq<char>)
    requires
        search_honours_pattern(),
        is_origin(origin),
    ensures
        rewritten(rewritten(doc, origin), origin) == rewritten(doc, origin),
{
    assert forall|path: Seq<int>| #[trigger] url_at(doc, path) implies settled(
        node_at(doc, path)->0->String_0,
        origin,
    ) by {
        lemma_settled_where_search_honours_pattern(node_at(doc, path)->0->String_0, origin);
    }
    lemma_idempotent_where_settled(doc, origin);
}

/// Where the URLs of a document are settled, so are those of each child.
proof fn lemma_settled_below(doc: JsonValue, origin: Seq<char>, i: int)
    requires
        all_settled(doc, origin),
        child(doc, i) is Some,
    ensures
        all_settled(child(doc, i)->0, origin),
{
    let below = child(doc, i)->0;
    assert forall|path: Seq<int>| #[trigger] url_at(below, path) implies settled(
        node_at(below, path)->0->String_0,
        origin,
    ) by {
        let longer = seq![i] + path;
        assert(longer.drop_first() =~= path);
        assert(url_at(doc, longer));
        assert(node_at(doc, longer) == node_at(below, path));
    }
}

/// A document without URLs has no child with URLs.
proof fn lemma_no_urls_below(doc: JsonValue, i: int)
    requires
        !holds_url(doc),
        child(doc, i) is Some,
    ensures
        !holds_url(child(doc, i)->0),
{
    let below = child(doc, i)->0;
    if holds_url(below) {
        let path = choose|path: Seq<int>| url_at(below, path);
        let longer = seq![i] + path;
        assert(longer.drop_first() =~= path);
        assert(url_at(doc, longer));
    }
}

/// A non-empty path from a string leads nowhere.
proof fn lemma_nothing_below_a_string(doc: JsonValue, path: Seq<int>)
    requires
        doc is String,
        path.len() > 0,
    ensures
        node_at(doc, path) is None,
        !url_at(doc, path),
{
}

} // verus!

//! Replacing the origin (scheme, host and optional port) of one URL.
//!
//! Finding the origin is left to the `regex` crate. Everything around the
//! search is verified: what is cut out, what is put in its place, and that no
//! other character of the URL moves.

use vstd::prelude::*;

verus! {

/// The pattern of an origin: `http` or `https`, then `://`, then one or more
/// characters other than `/`.
pub const ORIGIN_PATTERN: &'static str = "https?://[^/]+";

/// Where `regex::Regex::find` places the first match of `pattern` in `text`:
/// the start and the end of the match, both counted in characters from the
/// start of `text`. `None` where `pattern` does not compile or matches nowhere
/// in `text`.
pub uninterp spec fn first_match(pattern: Seq<char>, text: Seq<char>) -> Option<(int, int)>;

/// `text` with the characters from `span.0` up to `span.1` replaced by
/// `origin`; `text` itself where there is no span.
pub open spec fn spliced(text: Seq<char>, span: Option<(int, int)>, origin: Seq<char>) -> Seq<
    char,
> {
    match span {
        Some((start, end)) => text.subrange(0, start) + origin + text.subrange(
            end,
            text.len() as int,
        ),
        None => text,
    }
}

/// `text` with its first origin replaced by `origin`.
pub open spec fn with_origin(text: Seq<char>, origin: Seq<char>) -> Seq<char> {
    spliced(text, first_match(ORIGIN_PATTERN@, text), origin)
}

/// Compiles `pattern` with `regex::Regex::new`, searches `text` with
/// `regex::Regex::find`, and returns what stands before the match and what
/// stands after it.
///
/// Not proved, taken from the crate's documentation: the match is a
/// well-formed range of `text` (`start <= end`, both on character
/// boundaries), so the two parts are the prefix of `text` up to the start of
/// the match and the suffix from its end. Which range it is has the name
/// [`first_match`]. An invalid pattern is reported like a failed search.
#[verifier::external_body]
fn cut_at_first_match(pattern: &str, text: &str) -> (parts: Option<(String, String)>)
    ensures
        match parts {
            Some((head, tail)) => {
                &&& first_match(pattern@, text@) matches Some((start, end))
                &&& 0 <= start <= end <= text@.len()
                &&& head@ == text@.subrange(0, start)
                &&& tail@ == text@.subrange(end, text@.len() as int)
            },
            None => first_match(pattern@, text@) is None,
        },
{
    let found = regex::Regex::new(pattern).ok()?.find(text)?;
    Some((text[..found.start()].to_string(), text[found.end()..].to_string()))
}

/// Puts `origin` between the two parts that a search cut `text` into, or
/// returns `text` where the search found nothing.
pub fn splice(text: &str, parts: Option<(String, String)>, origin: &str) -> (out: String)
    ensures
        out@ == match parts {
            Some((head, tail)) => head@ + origin@ + tail@,
            None => text@,
        },
{
    match parts {
        Some((head, tail)) => {
            let mut out = head;
            out.append(origin);
            out.append(tail.as_str());
            out
        },
        None => String::from_str(text),
    }
}

/// Replaces the first origin in `text` by `origin`. Every character before and
/// after the origin stays as it is; a text without an origin is returned
/// unchanged.
///
/// Where the search finds an origin from `start` to `end`, the result is made
/// of three parts: the characters of `text` before `start`, then `origin`,
/// then the characters of `text` from `end` on.
pub fn replace_origin(text: &str, origin: &str) -> (out: String)
    ensures
        out@ == with_origin(text@, origin@),
        match first_match(ORIGIN_PATTERN@, text@) {
            Some((start, end)) => {
                &&& 0 <= start <= end <= text@.len()
                &&& out@.len() == start + origin@.len() + (text@.len() - end)
                &&& out@.subrange(0, start) == text@.subrange(0, start)
                &&& out@.subrange(start, start + origin@.len()) == origin@
                &&& out@.subrange(start + origin@.len(), out@.len() as int) == text@.subrange(
                    end,
                    text@.len() as int,
                )
            },
            None => out@ == text@,
        },
{
    let parts = cut_at_first_match(ORIGIN_PATTERN, text);
    splice(text, parts, origin)
}

} // verus!

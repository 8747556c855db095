//! What the origin pattern stands for, and what follows for a search that
//! honours it.
//!
//! The search itself is done by the `regex` crate and is not verified. The
//! theorems here hold of every search that returns the first origin of a
//! text as this module defines it.

use crate::origin::spliced;
use vstd::prelude::*;

verus! {

/// Whether `word` stands in `text` at the position `at`.
pub open spec fn has_word(text: Seq<char>, at: int, word: Seq<char>) -> bool {
    0 <= at && at + word.len() <= text.len() && text.subrange(at, at + word.len()) == word
}

/// The length of the scheme and its `://` at the position `at`: 7 for
/// `http://`, 8 for `https://`, and 0 where neither stands there.
pub open spec fn scheme_len(text: Seq<char>, at: int) -> int {
    if has_word(text, at, "http://"@) {
        7
    } else if has_word(text, at, "https://"@) {
        8
    } else {
        0
    }
}

/// Whether the characters of `text` from `start` up to `end` are an origin
/// as the pattern takes it: a scheme with its `://`, then one or more
/// characters other than `/`, as many as there are.
pub open spec fn is_origin_at(text: Seq<char>, start: int, end: int) -> bool {
    let host = start + scheme_len(text, start);
    &&& scheme_len(text, start) > 0
    &&& host < end <= text.len()
    &&& forall|i: int| host <= i < end ==> text[i] != '/'
    &&& (end == text.len() || text[end] == '/')
}

/// Whether `span` is the first origin of `text`: the origin that starts
/// before every other one, or `None` where the text holds no origin.
pub open spec fn is_first_origin(text: Seq<char>, span: Option<(int, int)>) -> bool {
    match span {
        Some((start, end)) => {
            &&& is_origin_at(text, start, end)
            &&& forall|s: int, e: int| s < start ==> !is_origin_at(text, s, e)
        },
        None => forall|s: int, e: int| !is_origin_at(text, s, e),
    }
}

/// Whether the whole of `text` is one origin, with nothing before or after
/// it.
pub open spec fn is_origin(text: Seq<char>) -> bool {
    is_origin_at(text, 0, text.len() as int)
}

/// Where the run of characters other than `/` that starts at `from` ends.
pub open spec fn run_end(text: Seq<char>, from: int) -> int
    decreases text.len() - from,
{
    if from >= text.len() || text[from] == '/' {
        from
    } else {
        run_end(text, from + 1)
    }
}

proof fn lemma_run_end(text: Seq<char>, from: int)
    requires
        0 <= from <= text.len(),
    ensures
        from <= run_end(text, from) <= text.len(),
        forall|i: int| from <= i < run_end(text, from) ==> text[i] != '/',
        run_end(text, from) == text.len() || text[run_end(text, from)] == '/',
    decreases text.len() - from,
{
    if from < text.len() && text[from] != '/' {
        lemma_run_end(text, from + 1);
    }
}

/// A text has one first origin at most.
pub proof fn lemma_first_origin_unique(
    text: Seq<char>,
    one: Option<(int, int)>,
    other: Option<(int, int)>,
)
    requires
        is_first_origin(text, one),
        is_first_origin(text, other),
    ensures
        one == other,
{
    if let Some((start, end)) = one {
        if let Some((start2, end2)) = other {
            assert(start == start2) by {
                if start < start2 {
                    assert(is_origin_at(text, start, end));
                }
                if start2 < start {
                    assert(is_origin_at(text, start2, end2));
                }
            }
            let host = start + scheme_len(text, start);
            assert(end == end2) by {
                if end < end2 {
                    assert(text[end] != '/');
                }
                if end2 < end {
                    assert(text[end2] != '/');
                }
            }
        } else {
            assert(is_origin_at(text, start, end));
        }
    } else {
        if let Some((start2, end2)) = other {
            assert(is_origin_at(text, start2, end2));
        }
    }
}

/// After an origin has been put in place of the first origin of a text, the
/// first origin of the new text is the one that was put in, at the same
/// start.
pub proof fn lemma_new_origin_is_first(
    text: Seq<char>,
    start: int,
    end: int,
    origin: Seq<char>,
)
    requires
        is_first_origin(text, Some((start, end))),
        is_origin(origin),
    ensures
        is_first_origin(
            spliced(text, Some((start, end)), origin),
            Some((start, start + origin.len())),
        ),
{
    reveal_strlit("http://");
    reveal_strlit("https://");
    let http = "http://"@;
    let https = "https://"@;
    let after = spliced(text, Some((start, end)), origin);
    let new_end = start + origin.len();
    assert(after.len() == start + origin.len() + (text.len() - end));
    assert forall|i: int| 0 <= i < after.len() implies #[trigger] after[i] == (if i < start {
        text[i]
    } else if i < new_end {
        origin[i - start]
    } else {
        text[i - new_end + end]
    }) by {}
    // The new origin stands at `start`.
    assert(has_word(after, start, http) == has_word(origin, 0, http)) by {
        if 7 <= origin.len() {
            assert(after.subrange(start, start + 7) =~= origin.subrange(0, 7));
        }
    }
    assert(has_word(after, start, https) == has_word(origin, 0, https)) by {
        if 8 <= origin.len() {
            assert(after.subrange(start, start + 8) =~= origin.subrange(0, 8));
        }
    }
    assert(scheme_len(after, start) == scheme_len(origin, 0));
    let host = start + scheme_len(after, start);
    assert forall|i: int| host <= i < new_end implies after[i] != '/' by {
        assert(origin[i - start] != '/');
    }
    assert(new_end == after.len() || after[new_end] == '/');
    assert(is_origin_at(after, start, new_end));
    // Both the old and the new origin start with `h`.
    assert(origin[0] == 'h') by {
        if has_word(origin, 0, http) {
            assert(origin.subrange(0, 7)[0] == 'h');
        } else {
            assert(origin.subrange(0, 8)[0] == 'h');
        }
    }
    assert(text[start] == 'h') by {
        if has_word(text, start, http) {
            assert(text.subrange(start, start + 7)[0] == 'h');
        } else {
            assert(text.subrange(start, start + 8)[0] == 'h');
        }
    }
    assert(after[start] == 'h');
    // No origin starts before it.
    assert forall|s: int, e: int| s < start implies !is_origin_at(after, s, e) by {
        if is_origin_at(after, s, e) {
            let len = scheme_len(after, s);
            let word = if has_word(after, s, http) {
                http
            } else {
                https
            };
            assert(has_word(after, s, word) && word.len() == len);
            if s + len <= start {
                // The scheme stands in the part that was kept.
                assert(text.subrange(s, s + len) =~= after.subrange(s, s + len));
                assert(has_word(text, s, word));
                if word == https {
                    assert(!has_word(text, s, http)) by {
                        if has_word(text, s, http) {
                            assert(text.subrange(s, s + 7) =~= after.subrange(s, s + 7));
                        }
                    }
                }
                assert(scheme_len(text, s) == len);
                let host_s = s + len;
                assert(text[host_s] != '/') by {
                    if host_s < start {
                        assert(after[host_s] != '/');
                    }
                }
                lemma_run_end(text, host_s);
                let e2 = run_end(text, host_s);
                assert(e2 > host_s) by {
                    lemma_run_end(text, host_s + 1);
                }
                assert(is_origin_at(text, s, e2));
            } else {
                // The scheme would reach into the new origin, which starts
                // with `h`: no scheme has an `h` after its first character.
                let j = start - s;
                assert(after.subrange(s, s + len)[j] == word[j]);
                assert(after[s + j] == 'h');
                assert(word[j] != 'h');
            }
        }
    }
}

/// Putting the same origin in place a second time changes nothing: the text
/// that comes of replacing the first origin of `text` by `origin` has
/// `origin` as its first origin, and replacing that by `origin` gives the
/// same text.
pub proof fn lemma_second_splice(text: Seq<char>, start: int, end: int, origin: Seq<char>)
    requires
        is_first_origin(text, Some((start, end))),
        is_origin(origin),
    ensures
        spliced(
            spliced(text, Some((start, end)), origin),
            Some((start, start + origin.len())),
            origin,
        ) == spliced(text, Some((start, end)), origin),
{
    let after = spliced(text, Some((start, end)), origin);
    let again = spliced(after, Some((start, start + origin.len())), origin);
    assert(again =~= after);
}

} // verus!

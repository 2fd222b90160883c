//! Extracting a file extension from a media URL: the query string is dropped,
//! the part after the last `.` is kept, and the result is lower-cased. A URL
//! without a `.` yields the whole query-stripped URL; callers that want a
//! different fallback must supply it themselves.

use vstd::prelude::*;
use crate::chars::{str_to_chars, chars_to_string};

verus! {

/// The URL up to (not including) its first `?`; the whole URL if it has none.
pub open spec fn strip_query(s: Seq<char>) -> Seq<char>
    decreases s.len(),
{
    if s.len() == 0 {
        s
    } else if s[0] == '?' {
        Seq::empty()
    } else {
        seq![s[0]] + strip_query(s.drop_first())
    }
}

/// The part after the last `.`; the whole sequence if it has no `.`.
pub open spec fn after_last_dot(s: Seq<char>) -> Seq<char>
    decreases s.len(),
{
    if s.len() == 0 {
        s
    } else if s.last() == '.' {
        Seq::empty()
    } else {
        after_last_dot(s.drop_last()).push(s.last())
    }
}

/// What `str::to_lowercase` returns; it depends on the characters alone.
pub uninterp spec fn lower_of(s: Seq<char>) -> Seq<char>;

/// What `get_extension_from_url` returns.
pub open spec fn spec_extension(s: Seq<char>) -> Seq<char> {
    lower_of(after_last_dot(strip_query(s)))
}

/// Relies on `str::to_lowercase`: the result is a pure function of the
/// string's characters (the Unicode lowercase mapping).
#[verifier::external_body]
fn lowercase(s: &str) -> (r: String)
    ensures
        r@ == lower_of(s@),
{
    s.to_lowercase()
}

proof fn lemma_strip_query_is_take(s: Seq<char>, q: int)
    requires
        0 <= q <= s.len(),
        forall|j: int| 0 <= j < q ==> s[j] != '?',
        q == s.len() || s[q] == '?',
    ensures
        strip_query(s) == s.take(q),
    decreases q,
{
    if q == 0 {
        assert(s.take(0) =~= Seq::<char>::empty());
    } else {
        assert(s[0] != '?');
        lemma_strip_query_is_take(s.drop_first(), q - 1);
        assert(seq![s[0]] + s.drop_first().take(q - 1) =~= s.take(q));
    }
}

proof fn lemma_after_last_dot_no_dot(s: Seq<char>)
    requires
        forall|j: int| 0 <= j < s.len() ==> s[j] != '.',
    ensures
        after_last_dot(s) == s,
    decreases s.len(),
{
    if s.len() > 0 {
        lemma_after_last_dot_no_dot(s.drop_last());
        assert(s.drop_last().push(s.last()) =~= s);
    }
}

proof fn lemma_after_last_dot_is_skip(s: Seq<char>, d: int)
    requires
        0 <= d < s.len(),
        s[d] == '.',
        forall|j: int| d < j < s.len() ==> s[j] != '.',
    ensures
        after_last_dot(s) == s.skip(d + 1),
    decreases s.len(),
{
    if d == s.len() - 1 {
        assert(s.skip(d + 1) =~= Seq::<char>::empty());
    } else {
        assert(s.last() != '.');
        lemma_after_last_dot_is_skip(s.drop_last(), d);
        assert(s.drop_last().skip(d + 1).push(s.last()) =~= s.skip(d + 1));
    }
}

/// Strips the query string, splits what is left on `.`, and returns the final
/// segment, lower-cased. With no `.` present the segment is the whole
/// query-stripped URL.
pub fn get_extension_from_url(url: &str) -> (r: String)
    ensures
        r@ == spec_extension(url@),
{
    let cs = str_to_chars(url);
    let n = cs.len();
    let mut q: usize = 0;
    while q < n && cs[q] != '?'
        invariant
            n == cs@.len(),
            q <= n,
            forall|j: int| 0 <= j < q ==> cs@[j] != '?',
        decreases n - q,
    {
        q = q + 1;
    }
    proof {
        lemma_strip_query_is_take(cs@, q as int);
    }
    let mut d: usize = q;
    while d > 0 && cs[d - 1] != '.'
        invariant
            n == cs@.len(),
            d <= q <= n,
            forall|j: int| d <= j < q ==> cs@[j] != '.',
        decreases d,
    {
        d = d - 1;
    }
    proof {
        let path = cs@.take(q as int);
        if d == 0 {
            assert forall|j: int| 0 <= j < path.len() implies path[j] != '.' by {
                assert(path[j] == cs@[j]);
            }
            lemma_after_last_dot_no_dot(path);
        } else {
            assert(path[d - 1] == cs@[d - 1]);
            assert forall|j: int| d as int - 1 < j < path.len() implies path[j] != '.' by {
                assert(path[j] == cs@[j]);
            }
            lemma_after_last_dot_is_skip(path, d as int - 1);
        }
    }
    let mut seg: Vec<char> = Vec::new();
    let mut k: usize = d;
    while k < q
        invariant
            n == cs@.len(),
            d <= k <= q <= n,
            seg@ == cs@.subrange(d as int, k as int),
        decreases q - k,
    {
        seg.push(cs[k]);
        k = k + 1;
        proof {
            assert(seg@ =~= cs@.subrange(d as int, k as int));
        }
    }
    proof {
        if d == 0 {
            assert(cs@.subrange(0, q as int) =~= cs@.take(q as int));
        } else {
            assert(cs@.subrange(d as int, q as int) =~= cs@.take(q as int).skip(d as int));
        }
    }
    let seg_str = chars_to_string(&seg);
    lowercase(seg_str.as_str())
}

} // verus!

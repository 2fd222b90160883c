//! Support for the interactive episode picker: the lines it offers, and the
//! mapping from the line the user chose back to an episode. The picker itself
//! is an outside collaborator; it returns one of the offered strings.

use vstd::prelude::*;
use crate::chars::{usize_to_string, spec_decimal, str_to_chars};
use crate::feed::Episode;

verus! {

/// The line offered for the episode at position `i` (counted from zero):
/// its one-based number, a dot, a space, and the title.
pub open spec fn option_line(i: int, title: Seq<char>) -> Seq<char> {
    spec_decimal(i + 1) + ". "@ + title
}

/// Builds the list of lines to offer, one per episode, in order.
pub fn episode_options(episodes: &Vec<Episode>) -> (lines: Vec<String>)
    ensures
        lines@.len() == episodes@.len(),
        forall|i: int|
            0 <= i < episodes@.len() ==> lines@[i]@ == option_line(i, episodes@[i].title@),
{
    let mut lines: Vec<String> = Vec::new();
    let mut i: usize = 0;
    while i < episodes.len()
        invariant
            i <= episodes@.len(),
            lines@.len() == i,
            forall|j: int| 0 <= j < i ==> lines@[j]@ == option_line(j, episodes@[j].title@),
        decreases episodes@.len() - i,
    {
        let mut line = usize_to_string(i + 1);
        line.append(". ");
        line.append(episodes[i].title.as_str());
        lines.push(line);
        i = i + 1;
    }
    lines
}

/// The needle occurs in the haystack starting at position `k`.
pub open spec fn contains_at(h: Seq<char>, n: Seq<char>, k: int) -> bool {
    0 <= k && k + n.len() <= h.len() && h.subrange(k, k + n.len()) == n
}

/// The needle occurs somewhere in the haystack.
pub open spec fn seq_contains(h: Seq<char>, n: Seq<char>) -> bool {
    exists|k: int| contains_at(h, n, k)
}

fn match_at(h: &Vec<char>, n: &Vec<char>, k: usize) -> (r: bool)
    requires
        k + n@.len() <= h@.len(),
    ensures
        r == contains_at(h@, n@, k as int),
{
    let nlen = n.len();
    let hlen = h.len();
    let mut j: usize = 0;
    while j < nlen
        invariant
            nlen == n@.len(),
            hlen == h@.len(),
            k + nlen <= hlen,
            j <= nlen,
            forall|jj: int| 0 <= jj < j ==> h@[k + jj] == n@[jj],
        decreases nlen - j,
    {
        if h[k + j] != n[j] {
            proof {
                assert(h@.subrange(k as int, k + n@.len())[j as int] != n@[j as int]);
            }
            return false;
        }
        j = j + 1;
    }
    proof {
        assert(h@.subrange(k as int, k + n@.len()) =~= n@);
    }
    true
}

/// Whether `needle` occurs in `haystack`, as `str::contains` decides it.
pub fn str_contains(haystack: &str, needle: &str) -> (r: bool)
    ensures
        r == seq_contains(haystack@, needle@),
{
    let h = str_to_chars(haystack);
    let n = str_to_chars(needle);
    if n.len() == 0 {
        proof {
            assert(h@.subrange(0, 0) =~= n@);
            assert(contains_at(h@, n@, 0));
        }
        return true;
    }
    if n.len() > h.len() {
        proof {
            assert forall|k: int| !contains_at(h@, n@, k) by {}
        }
        return false;
    }
    let last = h.len() - n.len();
    let mut k: usize = 0;
    while k <= last
        invariant
            h@ == haystack@,
            n@ == needle@,
            n@.len() <= h@.len(),
            h@.len() <= usize::MAX,
            last == h@.len() - n@.len(),
            n@.len() >= 1,
            k <= last + 1,
            forall|kk: int| 0 <= kk < k ==> !contains_at(h@, n@, kk),
        decreases last + 1 - k,
    {
        if match_at(&h, &n, k) {
            proof {
                assert(contains_at(haystack@, needle@, k as int));
            }
            return true;
        }
        k = k + 1;
    }
    proof {
        assert forall|kk: int| !contains_at(h@, n@, kk) by {
            if 0 <= kk < k {
            }
        }
    }
    false
}

/// Finds the episode the user chose: the first whose title occurs in the
/// chosen line. Returns `None` when no title occurs in it.
pub fn find_selected(episodes: &Vec<Episode>, selection: &str) -> (r: Option<usize>)
    ensures
        r matches Some(i) ==> i < episodes@.len() && seq_contains(
            selection@,
            episodes@[i as int].title@,
        ) && forall|j: int| 0 <= j < i ==> !seq_contains(selection@, episodes@[j].title@),
        r is None ==> forall|j: int|
            0 <= j < episodes@.len() ==> !seq_contains(selection@, episodes@[j].title@),
{
    let mut i: usize = 0;
    while i < episodes.len()
        invariant
            i <= episodes@.len(),
            forall|j: int| 0 <= j < i ==> !seq_contains(selection@, episodes@[j].title@),
        decreases episodes@.len() - i,
    {
        if str_contains(selection, episodes[i].title.as_str()) {
            return Some(i);
        }
        i = i + 1;
    }
    None
}

} // verus!

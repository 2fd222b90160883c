//! Turning an episode title into a safe file name: characters that file
//! systems reject are replaced by `-`, then surrounding whitespace is trimmed.

use vstd::prelude::*;
use crate::chars::{str_to_chars, chars_to_string};

verus! {

/// The characters that may not appear in a file name.
pub open spec fn is_forbidden(c: char) -> bool {
    c == '/' || c == '\\' || c == ':' || c == '*' || c == '?' || c == '"' || c == '<'
        || c == '>' || c == '|'
}

/// What one character of the title becomes in the file name.
pub open spec fn replaced(c: char) -> char {
    if is_forbidden(c) {
        '-'
    } else {
        c
    }
}

/// Every character of the title after substitution, before trimming.
pub open spec fn replace_all(s: Seq<char>) -> Seq<char> {
    s.map_values(|c: char| replaced(c))
}

/// Whitespace as `str::trim` removes it: the Unicode `White_Space` characters.
pub open spec fn is_space(c: char) -> bool {
    c == '\u{9}' || c == '\u{a}' || c == '\u{b}' || c == '\u{c}' || c == '\u{d}'
        || c == ' ' || c == '\u{85}' || c == '\u{a0}' || c == '\u{1680}'
        || c == '\u{2000}' || c == '\u{2001}' || c == '\u{2002}' || c == '\u{2003}'
        || c == '\u{2004}' || c == '\u{2005}' || c == '\u{2006}' || c == '\u{2007}'
        || c == '\u{2008}' || c == '\u{2009}' || c == '\u{200a}' || c == '\u{2028}'
        || c == '\u{2029}' || c == '\u{202f}' || c == '\u{205f}' || c == '\u{3000}'
}

/// The sequence with its leading whitespace removed.
pub open spec fn trim_front(s: Seq<char>) -> Seq<char>
    decreases s.len(),
{
    if s.len() > 0 && is_space(s[0]) {
        trim_front(s.drop_first())
    } else {
        s
    }
}

/// The sequence with its trailing whitespace removed.
pub open spec fn trim_back(s: Seq<char>) -> Seq<char>
    decreases s.len(),
{
    if s.len() > 0 && is_space(s.last()) {
        trim_back(s.drop_last())
    } else {
        s
    }
}

/// The sequence with whitespace removed from both ends.
pub open spec fn spec_trim(s: Seq<char>) -> Seq<char> {
    trim_back(trim_front(s))
}

/// What `sanitize_filename` returns: substitution first, then trimming.
pub open spec fn spec_sanitize(s: Seq<char>) -> Seq<char> {
    spec_trim(replace_all(s))
}

fn replaced_exec(c: char) -> (r: char)
    ensures
        r == replaced(c),
{
    match c {
        '/' | '\\' | ':' | '*' | '?' | '"' | '<' | '>' | '|' => '-',
        _ => c,
    }
}

fn is_space_exec(c: char) -> (r: bool)
    ensures
        r == is_space(c),
{
    match c {
        '\u{9}' | '\u{a}' | '\u{b}' | '\u{c}' | '\u{d}' | ' ' | '\u{85}' | '\u{a0}'
            | '\u{1680}' | '\u{2000}' | '\u{2001}' | '\u{2002}' | '\u{2003}' | '\u{2004}'
            | '\u{2005}' | '\u{2006}' | '\u{2007}' | '\u{2008}' | '\u{2009}' | '\u{200a}'
            | '\u{2028}' | '\u{2029}' | '\u{202f}' | '\u{205f}' | '\u{3000}' => true,
        _ => false,
    }
}

proof fn lemma_trim_front_is_skip(s: Seq<char>, a: int)
    requires
        0 <= a <= s.len(),
        forall|j: int| 0 <= j < a ==> is_space(s[j]),
        a == s.len() || !is_space(s[a]),
    ensures
        trim_front(s) == s.skip(a),
    decreases a,
{
    if a == 0 {
        assert(s.skip(0) =~= s);
    } else {
        assert(is_space(s[0]));
        lemma_trim_front_is_skip(s.drop_first(), a - 1);
        assert(s.drop_first().skip(a - 1) =~= s.skip(a));
    }
}

proof fn lemma_trim_back_is_take(s: Seq<char>, b: int)
    requires
        0 <= b <= s.len(),
        forall|j: int| b <= j < s.len() ==> is_space(s[j]),
        b == 0 || !is_space(s[b - 1]),
    ensures
        trim_back(s) == s.take(b),
    decreases s.len(),
{
    if b == s.len() {
        assert(s.take(b) =~= s);
    } else {
        assert(is_space(s.last()));
        lemma_trim_back_is_take(s.drop_last(), b);
        assert(s.drop_last().take(b) =~= s.take(b));
    }
}

proof fn lemma_trim_front_suffix(s: Seq<char>)
    ensures
        exists|k: int| 0 <= k <= s.len() && trim_front(s) == s.skip(k),
        trim_front(s).len() == 0 || !is_space(trim_front(s)[0]),
    decreases s.len(),
{
    if s.len() > 0 && is_space(s[0]) {
        lemma_trim_front_suffix(s.drop_first());
        let k = choose|k: int| 0 <= k <= s.drop_first().len() && trim_front(s.drop_first())
            == s.drop_first().skip(k);
        assert(s.drop_first().skip(k) =~= s.skip(k + 1));
        assert(trim_front(s) == s.skip(k + 1));
    } else {
        assert(s.skip(0) =~= s);
        assert(trim_front(s) == s.skip(0));
    }
}

proof fn lemma_trim_back_prefix(s: Seq<char>)
    ensures
        exists|k: int| 0 <= k <= s.len() && trim_back(s) == s.take(k),
        trim_back(s).len() == 0 || !is_space(trim_back(s).last()),
    decreases s.len(),
{
    if s.len() > 0 && is_space(s.last()) {
        lemma_trim_back_prefix(s.drop_last());
        let k = choose|k: int| 0 <= k <= s.drop_last().len() && trim_back(s.drop_last())
            == s.drop_last().take(k);
        assert(s.drop_last().take(k) =~= s.take(k));
        assert(trim_back(s) == s.take(k));
    } else {
        assert(s.take(s.len() as int) =~= s);
        assert(trim_back(s) == s.take(s.len() as int));
    }
}

/// Law: sanitizing an already sanitized string changes nothing.
pub proof fn lemma_sanitize_idempotent(s: Seq<char>)
    ensures
        spec_sanitize(spec_sanitize(s)) == spec_sanitize(s),
{
    let ra = replace_all(s);
    let w = trim_front(ra);
    let t = trim_back(w);
    assert forall|i: int| 0 <= i < ra.len() implies !is_forbidden(ra[i]) by {
        assert(ra[i] == replaced(s[i]));
    }
    lemma_trim_front_suffix(ra);
    let k1 = choose|k: int| 0 <= k <= ra.len() && w == ra.skip(k);
    lemma_trim_back_prefix(w);
    let k2 = choose|k: int| 0 <= k <= w.len() && t == w.take(k);
    assert forall|i: int| 0 <= i < t.len() implies !is_forbidden(t[i]) by {
        assert(t[i] == w[i]);
        assert(w[i] == ra[k1 + i]);
    }
    assert(replace_all(t) =~= t);
    if t.len() > 0 {
        assert(t[0] == w[0]);
        assert(!is_space(t[0]));
    }
    assert(trim_front(t) == t);
    assert(trim_back(t) == t);
}

/// Replaces each of `/ \ : * ? " < > |` in the title by `-`, leaves every
/// other character unchanged, and trims leading and trailing whitespace.
pub fn sanitize_filename(title: &str) -> (r: String)
    ensures
        r@ == spec_sanitize(title@),
{
    let cs = str_to_chars(title);
    let n = cs.len();
    let mut mapped: Vec<char> = Vec::new();
    let mut i: usize = 0;
    while i < n
        invariant
            n == cs@.len(),
            i <= n,
            mapped@ == replace_all(cs@.subrange(0, i as int)),
        decreases n - i,
    {
        mapped.push(replaced_exec(cs[i]));
        i = i + 1;
        proof {
            assert(mapped@ =~= replace_all(cs@.subrange(0, i as int)));
        }
    }
    proof {
        assert(cs@.subrange(0, n as int) =~= cs@);
    }
    let mut a: usize = 0;
    while a < n && is_space_exec(mapped[a])
        invariant
            n == mapped@.len(),
            a <= n,
            forall|j: int| 0 <= j < a ==> is_space(mapped@[j]),
        decreases n - a,
    {
        a = a + 1;
    }
    let mut b: usize = n;
    while b > a && is_space_exec(mapped[b - 1])
        invariant
            n == mapped@.len(),
            a <= b <= n,
            forall|j: int| b <= j < n ==> is_space(mapped@[j]),
        decreases b,
    {
        b = b - 1;
    }
    let mut out: Vec<char> = Vec::new();
    let mut k: usize = a;
    while k < b
        invariant
            n == mapped@.len(),
            a <= k <= b <= n,
            out@ == mapped@.subrange(a as int, k as int),
        decreases b - k,
    {
        out.push(mapped[k]);
        k = k + 1;
        proof {
            assert(out@ =~= mapped@.subrange(a as int, k as int));
        }
    }
    proof {
        lemma_trim_front_is_skip(mapped@, a as int);
        lemma_trim_back_is_take(mapped@.skip(a as int), b as int - a as int);
        assert(mapped@.skip(a as int).take(b as int - a as int) =~= mapped@.subrange(
            a as int,
            b as int,
        ));
    }
    chars_to_string(&out)
}

} // verus!

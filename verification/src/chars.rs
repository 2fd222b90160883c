//! Conversions between strings and character vectors, and decimal rendering
//! of numbers. The rest of the crate does its text processing on `Vec<char>`.

use vstd::prelude::*;

verus! {

/// Collects the characters of a string into a vector.
pub fn str_to_chars(s: &str) -> (v: Vec<char>)
    ensures
        v@ == s@,
{
    let n: usize = s.unicode_len();
    let mut v: Vec<char> = Vec::new();
    let mut i: usize = 0;
    while i < n
        invariant
            n == s@.len(),
            i <= n,
            v@ == s@.subrange(0, i as int),
        decreases n - i,
    {
        v.push(s.get_char(i));
        i = i + 1;
        proof {
            assert(v@ =~= s@.subrange(0, i as int));
        }
    }
    proof {
        assert(v@ =~= s@);
    }
    v
}

/// The decimal digit character for a value below ten.
pub open spec fn digit_char(d: int) -> char {
    if d == 0 {
        '0'
    } else if d == 1 {
        '1'
    } else if d == 2 {
        '2'
    } else if d == 3 {
        '3'
    } else if d == 4 {
        '4'
    } else if d == 5 {
        '5'
    } else if d == 6 {
        '6'
    } else if d == 7 {
        '7'
    } else if d == 8 {
        '8'
    } else {
        '9'
    }
}

/// The decimal numeral of a non-negative number, most significant digit
/// first, with no leading zeros (a single `0` for zero).
pub open spec fn spec_decimal(n: int) -> Seq<char>
    decreases n,
{
    if n < 10 {
        seq![digit_char(n)]
    } else {
        spec_decimal(n / 10).push(digit_char(n % 10))
    }
}

fn digit_char_exec(d: usize) -> (c: char)
    requires
        d < 10,
    ensures
        c == digit_char(d as int),
{
    match d {
        0 => '0',
        1 => '1',
        2 => '2',
        3 => '3',
        4 => '4',
        5 => '5',
        6 => '6',
        7 => '7',
        8 => '8',
        _ => '9',
    }
}

fn reversed(v: &Vec<char>) -> (r: Vec<char>)
    ensures
        r@ == v@.reverse(),
{
    let n = v.len();
    let mut r: Vec<char> = Vec::new();
    let mut i: usize = 0;
    while i < n
        invariant
            n == v@.len(),
            i <= n,
            r@.len() == i,
            forall|j: int| 0 <= j < i ==> r@[j] == v@[n - 1 - j],
        decreases n - i,
    {
        r.push(v[n - 1 - i]);
        i = i + 1;
    }
    proof {
        assert(r@ =~= v@.reverse());
    }
    r
}

/// Renders a number in decimal, as `format!("{}", n)` would.
pub fn usize_to_string(n: usize) -> (r: String)
    ensures
        r@ == spec_decimal(n as int),
{
    let mut m: usize = n;
    let mut acc: Vec<char> = Vec::new();
    proof {
        assert(acc@.reverse() =~= Seq::<char>::empty());
        assert(spec_decimal(n as int) + acc@.reverse() =~= spec_decimal(n as int));
    }
    while m >= 10
        invariant
            spec_decimal(n as int) == spec_decimal(m as int) + acc@.reverse(),
        decreases m,
    {
        let d: usize = m % 10;
        proof {
            assert(spec_decimal(m as int) == spec_decimal(m as int / 10).push(digit_char(
                m as int % 10,
            )));
            assert(acc@.push(digit_char(d as int)).reverse() =~= seq![digit_char(d as int)]
                + acc@.reverse());
            assert(spec_decimal(m as int / 10).push(digit_char(m as int % 10)) + acc@.reverse()
                =~= spec_decimal(m as int / 10) + (seq![digit_char(d as int)] + acc@.reverse()));
        }
        acc.push(digit_char_exec(d));
        m = m / 10;
    }
    proof {
        assert(spec_decimal(m as int) == seq![digit_char(m as int)]);
        assert(acc@.push(digit_char(m as int)).reverse() =~= seq![digit_char(m as int)]
            + acc@.reverse());
    }
    acc.push(digit_char_exec(m));
    let digits = reversed(&acc);
    proof {
        assert(acc@.reverse() =~= spec_decimal(n as int));
    }
    chars_to_string(&digits)
}

/// Relies on `String`'s `FromIterator<char>`: collecting characters yields
/// the string made of exactly those characters, in order.
#[verifier::external_body]
pub fn chars_to_string(v: &Vec<char>) -> (s: String)
    ensures
        s@ == v@,
{
    v.iter().collect()
}

} // verus!

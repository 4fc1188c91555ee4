//! Conversions between `String`/`&str` and `Vec<char>`, the representation
//! the parsers in this crate work on.

use vstd::prelude::*;

verus! {

/// A class of characters that a scan gathers into one run.
#[derive(Clone, Copy, PartialEq, Eq, Structural)]
pub enum CharClass {
    /// ASCII letters, digits and `_`: the characters of a variable name.
    Name,
    /// Everything but the format specials `$ [ ] ( )`.
    Plain,
    /// Everything but `.`.
    NonDot,
}

/// Whether `c` is a special character of the format grammar.
pub open spec fn is_special(c: char) -> bool {
    c == '$' || c == '[' || c == ']' || c == '(' || c == ')'
}

/// Whether `c` may stand in a variable name.
pub open spec fn is_name_char(c: char) -> bool {
    ('a' as u32 <= c as u32 && c as u32 <= 'z' as u32) || ('A' as u32 <= c as u32 && c as u32
        <= 'Z' as u32) || ('0' as u32 <= c as u32 && c as u32 <= '9' as u32) || c == '_'
}

/// Whether `c` belongs to the class `k`.
pub open spec fn in_class(c: char, k: CharClass) -> bool {
    match k {
        CharClass::Name => is_name_char(c),
        CharClass::Plain => !is_special(c),
        CharClass::NonDot => c != '.',
    }
}

/// The position just after the longest run of class-`k` characters that
/// starts at `i`.
pub open spec fn run_end(s: Seq<char>, i: int, k: CharClass) -> int
    decreases s.len() - i,
    when 0 <= i
{
    if i < s.len() && in_class(s[i], k) {
        run_end(s, i + 1, k)
    } else {
        i
    }
}

pub proof fn lemma_run_end(s: Seq<char>, i: int, k: CharClass)
    requires
        0 <= i <= s.len(),
    ensures
        i <= run_end(s, i, k) <= s.len(),
        forall|t: int| i <= t < run_end(s, i, k) ==> in_class(s[t], k),
        run_end(s, i, k) < s.len() ==> !in_class(s[run_end(s, i, k)], k),
    decreases s.len() - i,
{
    if i < s.len() && in_class(s[i], k) {
        lemma_run_end(s, i + 1, k);
    }
}

/// Whether `c` belongs to the class `k`, decided at run time.
pub fn class_char(c: char, k: CharClass) -> (b: bool)
    ensures
        b == in_class(c, k),
{
    match k {
        CharClass::Name => ('a' as u32 <= c as u32 && c as u32 <= 'z' as u32) || ('A' as u32
            <= c as u32 && c as u32 <= 'Z' as u32) || ('0' as u32 <= c as u32 && c as u32
            <= '9' as u32) || c == '_',
        CharClass::Plain => !(c == '$' || c == '[' || c == ']' || c == '(' || c == ')'),
        CharClass::NonDot => c != '.',
    }
}

/// Scans the longest run of class-`k` characters starting at `i`.
pub fn scan_run(v: &Vec<char>, i: usize, k: CharClass) -> (j: usize)
    requires
        i <= v@.len(),
    ensures
        j == run_end(v@, i as int, k),
    decreases v@.len() - i,
{
    if i < v.len() && class_char(v[i], k) {
        scan_run(v, i + 1, k)
    } else {
        i
    }
}

/// The string holding the characters of `v` from `from` to `to`.
pub fn sub_string(v: &Vec<char>, from: usize, to: usize) -> (r: String)
    requires
        from <= to <= v@.len(),
    ensures
        r@ == v@.subrange(from as int, to as int),
{
    let mut r = String::new();
    let mut idx = from;
    while idx < to
        invariant
            from <= idx <= to <= v@.len(),
            r@ == v@.subrange(from as int, idx as int),
        decreases to - idx,
    {
        push_char(&mut r, v[idx]);
        idx = idx + 1;
        proof {
            assert(r@ =~= v@.subrange(from as int, idx as int));
        }
    }
    r
}

/// Appends one character to a string.
///
/// Relies on `String::push`: appends the given `char` to the end of the
/// string.
#[verifier::external_body]
pub fn push_char(s: &mut String, c: char)
    ensures
        final(s)@ == old(s)@.push(c),
{
    s.push(c);
}

/// The characters of `s`, in order, as a vector.
pub fn to_chars(s: &str) -> (r: Vec<char>)
    ensures
        r@ == s@,
{
    let n = s.unicode_len();
    let mut r: Vec<char> = Vec::new();
    let mut i: usize = 0;
    while i < n
        invariant
            n == s@.len(),
            i <= n,
            r@ == s@.subrange(0, i as int),
        decreases n - i,
    {
        r.push(s.get_char(i));
        i = i + 1;
        proof {
            assert(r@ =~= s@.subrange(0, i as int));
        }
    }
    proof {
        assert(r@ =~= s@);
    }
    r
}

/// The string holding exactly the characters of `v`, in order.
pub fn from_chars(v: &[char]) -> (r: String)
    ensures
        r@ == v@,
{
    let mut r = String::new();
    let mut i: usize = 0;
    while i < v.len()
        invariant
            i <= v@.len(),
            r@ == v@.subrange(0, i as int),
        decreases v@.len() - i,
    {
        push_char(&mut r, v[i]);
        i = i + 1;
        proof {
            assert(r@ =~= v@.subrange(0, i as int));
        }
    }
    proof {
        assert(r@ =~= v@);
    }
    r
}

} // verus!

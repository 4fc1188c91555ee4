//! The tool-version text: cleaning the probe's output and applying the
//! version-display template.
//!
//! The probe's captured output is cleaned by stripping the fixed tool
//! prefix `"adam "`, if present, and every trailing newline.  The cleaned
//! text is then run through the version-display template, whose
//! placeholders are written `${name}`: `raw` is the cleaned text itself,
//! and `major`, `minor` and `patch` are its first three dot-separated
//! parts, owed only when nonempty.  A malformed template, an unknown
//! placeholder, or a placeholder whose part the version does not have,
//! yields no version at all.

use vstd::prelude::*;
use crate::chars::CharClass;
use crate::chars::lemma_run_end;
use crate::chars::push_char;
use crate::chars::run_end;
use crate::chars::scan_run;
use crate::chars::sub_string;
use crate::chars::to_chars;
use crate::render::opt_text_view;

verus! {

/// `s` without its trailing newline characters.
pub open spec fn drop_trailing_newlines(s: Seq<char>) -> Seq<char>
    decreases s.len(),
{
    if s.len() > 0 && s[s.len() - 1] == '\n' {
        drop_trailing_newlines(s.drop_last())
    } else {
        s
    }
}

/// `s` without the fixed tool prefix `"adam "`, when it starts with it.
pub open spec fn strip_tool_prefix(s: Seq<char>) -> Seq<char> {
    if s.len() >= 5 && s.subrange(0, 5) == "adam "@ {
        s.subrange(5, s.len() as int)
    } else {
        s
    }
}

/// The cleaned form of the probe's captured output.
pub open spec fn clean_version_spec(s: Seq<char>) -> Seq<char> {
    drop_trailing_newlines(strip_tool_prefix(s))
}

/// The `k`-th dot-separated part of `ver` counted from the part starting
/// at `i`, or nothing when `ver` has no such part.
pub open spec fn version_part(ver: Seq<char>, i: int, k: int) -> Option<Seq<char>>
    decreases k,
    when 0 <= i <= ver.len() && 0 <= k
    via version_part_dec
{
    let j = run_end(ver, i, CharClass::NonDot);
    if k == 0 {
        Some(ver.subrange(i, j))
    } else if j < ver.len() {
        version_part(ver, j + 1, k - 1)
    } else {
        None
    }
}

#[via_fn]
proof fn version_part_dec(ver: Seq<char>, i: int, k: int) {
    if 0 <= i <= ver.len() {
        lemma_run_end(ver, i, CharClass::NonDot);
    }
}

/// `o`, emptied: a part that exists but is empty is no part.
pub open spec fn nonempty_part(o: Option<Seq<char>>) -> Option<Seq<char>> {
    match o {
        Some(t) => if t.len() > 0 {
            Some(t)
        } else {
            None
        },
        None => None,
    }
}

/// What the placeholder `name` stands for: `raw` is the whole cleaned
/// version, `major`, `minor` and `patch` its first three dot-separated
/// parts; any other name is unknown.
pub open spec fn placeholder_value(ver: Seq<char>, name: Seq<char>) -> Option<Seq<char>> {
    if name == "raw"@ {
        Some(ver)
    } else if name == "major"@ {
        nonempty_part(version_part(ver, 0, 0))
    } else if name == "minor"@ {
        nonempty_part(version_part(ver, 0, 1))
    } else if name == "patch"@ {
        nonempty_part(version_part(ver, 0, 2))
    } else {
        None
    }
}

/// The version-display template `t` from position `i` on, with every
/// `${name}` placeholder replaced by its value; nothing on a malformed
/// template or an unresolvable placeholder.
pub open spec fn subst_version(ver: Seq<char>, t: Seq<char>, i: int) -> Option<Seq<char>>
    decreases t.len() - i,
    when 0 <= i <= t.len()
    via subst_version_dec
{
    if i >= t.len() {
        Some(Seq::empty())
    } else if t[i] == '$' {
        if i + 1 < t.len() && t[i + 1] == '{' {
            let j = run_end(t, i + 2, CharClass::Name);
            if j < t.len() && t[j] == '}' {
                match placeholder_value(ver, t.subrange(i + 2, j)) {
                    Some(val) => match subst_version(ver, t, j + 1) {
                        Some(rest) => Some(val + rest),
                        None => None,
                    },
                    None => None,
                }
            } else {
                None
            }
        } else {
            None
        }
    } else {
        match subst_version(ver, t, i + 1) {
            Some(rest) => Some(seq![t[i]] + rest),
            None => None,
        }
    }
}

#[via_fn]
proof fn subst_version_dec(ver: Seq<char>, t: Seq<char>, i: int) {
    if 0 <= i && i + 1 < t.len() {
        lemma_run_end(t, i + 2, CharClass::Name);
    }
}

/// What formatting the cleaned version `ver` through the template yields.
pub open spec fn format_version_spec(ver: Seq<char>, tmpl: Seq<char>) -> Option<Seq<char>> {
    subst_version(ver, tmpl, 0)
}

/// Cleans the probe's captured output: strips the fixed tool prefix
/// `"adam "` when present, and every trailing newline character.
pub fn clean_version(output: &str) -> (r: String)
    ensures
        r@ == clean_version_spec(output@),
{
    let v = to_chars(output);
    proof {
        reveal_strlit("adam ");
    }
    let has_prefix = v.len() >= 5 && v[0] == 'a' && v[1] == 'd' && v[2] == 'a' && v[3] == 'm'
        && v[4] == ' ';
    let start: usize = if has_prefix {
        5
    } else {
        0
    };
    proof {
        if has_prefix {
            assert(v@.subrange(0, 5) =~= "adam "@);
        } else if v@.len() >= 5 {
            assert(v@.subrange(0, 5) != "adam "@) by {
                if v@.subrange(0, 5) == "adam "@ {
                    assert(v@.subrange(0, 5)[0] == 'a');
                    assert(v@.subrange(0, 5)[1] == 'd');
                    assert(v@.subrange(0, 5)[2] == 'a');
                    assert(v@.subrange(0, 5)[3] == 'm');
                    assert(v@.subrange(0, 5)[4] == ' ');
                }
            }
        }
        assert(strip_tool_prefix(v@) == v@.subrange(start as int, v@.len() as int));
    }
    let mut end: usize = v.len();
    while end > start && v[end - 1] == '\n'
        invariant
            start <= end <= v@.len(),
            start == 0 || start == 5,
            start <= v@.len(),
            drop_trailing_newlines(v@.subrange(start as int, v@.len() as int))
                == drop_trailing_newlines(v@.subrange(start as int, end as int)),
        decreases end,
    {
        proof {
            let cur = v@.subrange(start as int, end as int);
            assert(cur.len() > 0 && cur[cur.len() - 1] == '\n');
            assert(cur.drop_last() =~= v@.subrange(start as int, end - 1));
        }
        end = end - 1;
    }
    proof {
        let cur = v@.subrange(start as int, end as int);
        assert(drop_trailing_newlines(cur) == cur);
    }
    sub_string(&v, start, end)
}

fn version_part_x(ver: &Vec<char>, i: usize, k: usize) -> (r: Option<String>)
    requires
        i <= ver@.len(),
    ensures
        opt_text_view(r) == version_part(ver@, i as int, k as int),
    decreases k,
{
    let j = scan_run(ver, i, CharClass::NonDot);
    proof {
        lemma_run_end(ver@, i as int, CharClass::NonDot);
    }
    if k == 0 {
        Some(sub_string(ver, i, j))
    } else if j < ver.len() {
        version_part_x(ver, j + 1, k - 1)
    } else {
        None
    }
}

fn placeholder_value_x(ver: &Vec<char>, name: &String) -> (r: Option<String>)
    ensures
        opt_text_view(r) == placeholder_value(ver@, name@),
{
    if *name == String::from_str("raw") {
        let whole = sub_string(ver, 0, ver.len());
        proof {
            assert(whole@ =~= ver@);
        }
        Some(whole)
    } else if *name == String::from_str("major") {
        nonempty_x(version_part_x(ver, 0, 0))
    } else if *name == String::from_str("minor") {
        nonempty_x(version_part_x(ver, 0, 1))
    } else if *name == String::from_str("patch") {
        nonempty_x(version_part_x(ver, 0, 2))
    } else {
        None
    }
}

fn nonempty_x(o: Option<String>) -> (r: Option<String>)
    ensures
        opt_text_view(r) == nonempty_part(opt_text_view(o)),
{
    match o {
        Some(t) => if !t.as_str().is_empty() {
            Some(t)
        } else {
            None
        },
        None => None,
    }
}

fn subst_version_x(ver: &Vec<char>, t: &Vec<char>, i: usize) -> (r: Option<String>)
    requires
        i <= t@.len(),
    ensures
        opt_text_view(r) == subst_version(ver@, t@, i as int),
    decreases t@.len() - i,
{
    if i >= t.len() {
        Some(String::new())
    } else if t[i] == '$' {
        if i + 1 < t.len() && t[i + 1] == '{' {
            let j = scan_run(t, i + 2, CharClass::Name);
            proof {
                lemma_run_end(t@, i as int + 2, CharClass::Name);
            }
            if j < t.len() && t[j] == '}' {
                let name = sub_string(t, i + 2, j);
                match placeholder_value_x(ver, &name) {
                    Some(val) => match subst_version_x(ver, t, j + 1) {
                        Some(rest) => Some(val.concat(rest.as_str())),
                        None => None,
                    },
                    None => None,
                }
            } else {
                None
            }
        } else {
            None
        }
    } else {
        match subst_version_x(ver, t, i + 1) {
            Some(rest) => {
                let mut head = String::new();
                push_char(&mut head, t[i]);
                proof {
                    assert(head@ =~= seq![t@[i as int]]);
                }
                Some(head.concat(rest.as_str()))
            },
            None => None,
        }
    }
}

/// Applies the version-display template to the cleaned version text.
pub fn format_version(version: &str, version_format: &str) -> (r: Option<String>)
    ensures
        opt_text_view(r) == format_version_spec(version@, version_format@),
{
    let ver = to_chars(version);
    let t = to_chars(version_format);
    subst_version_x(&ver, &t, 0)
}

} // verus!

//! The template format: a format string is a sequence of literal runs,
//! `$name` variable references, `[spans](style)` styled sections, and
//! `(...)` optional groups that vanish when a variable inside is absent.
//!
//! Grammar, over the special characters `$ [ ] ( )`:
//! - a run of non-special characters is a literal;
//! - `$` followed by a nonempty run of name characters (ASCII letters,
//!   digits, `_`) is a variable reference;
//! - `[` opens a styled section holding literals and variables, closed by
//!   `]`, which must be followed by `(style)` where the style is either a
//!   literal run or a single `$name`;
//! - `(` elsewhere opens an optional group holding literals, variables and
//!   styled sections, closed by `)`; groups do not nest.
//!
//! Compilation turns a format string into nodes; it fails, with the error
//! saying why, exactly when the string breaks this grammar.

use vstd::prelude::*;
use crate::chars::CharClass;
use crate::chars::run_end;
use crate::chars::lemma_run_end;
use crate::chars::scan_run;
use crate::chars::sub_string;

verus! {

/// A style reference: a literal style string, or a style variable.
#[derive(Clone, Debug, PartialEq, Eq)]
pub enum StyleRef {
    Lit(String),
    Var(String),
}

/// A piece of a styled section: a literal run or a variable reference.
#[derive(Clone, Debug, PartialEq, Eq)]
pub enum Span {
    Lit(String),
    Var(String),
}

/// A node of a compiled format string.
#[derive(Clone, Debug, PartialEq, Eq)]
pub enum Node {
    Lit(String),
    Var(String),
    Styled(Vec<Span>, StyleRef),
    Group(Vec<GroupNode>),
}

/// A node inside an optional group (groups do not nest).
#[derive(Clone, Debug, PartialEq, Eq)]
pub enum GroupNode {
    Lit(String),
    Var(String),
    Styled(Vec<Span>, StyleRef),
}

/// Why a format string failed to compile, or a rendering failed.
#[derive(Clone, Copy, Debug, PartialEq, Eq, Structural)]
pub enum FormatError {
    /// `$` not followed by a name character.
    EmptyVariable,
    /// `[` with no closing `]`.
    UnclosedBracket,
    /// `]` not followed by a `(style)` part.
    MissingStyle,
    /// `(style)` part with no closing `)`.
    UnclosedStyle,
    /// `(` with no closing `)`.
    UnclosedGroup,
    /// `[` or `(` opened inside a styled section or a group.
    NestedGroup,
    /// `]` or `)` with no matching opener.
    UnexpectedClose,
    /// A style variable that no binding names (only at rendering).
    UnknownStyle,
}

/// Mathematical form of a style reference.
pub enum StyleRefS {
    Lit(Seq<char>),
    Var(Seq<char>),
}

/// Mathematical form of a styled-section piece.
pub enum SpanS {
    Lit(Seq<char>),
    Var(Seq<char>),
}

/// Mathematical form of a format node.
pub enum NodeS {
    Lit(Seq<char>),
    Var(Seq<char>),
    Styled(Seq<SpanS>, StyleRefS),
    Group(Seq<GroupNodeS>),
}

/// Mathematical form of a node inside a group.
pub enum GroupNodeS {
    Lit(Seq<char>),
    Var(Seq<char>),
    Styled(Seq<SpanS>, StyleRefS),
}

impl View for StyleRef {
    type V = StyleRefS;

    open spec fn view(&self) -> StyleRefS {
        match self {
            StyleRef::Lit(t) => StyleRefS::Lit(t@),
            StyleRef::Var(t) => StyleRefS::Var(t@),
        }
    }
}

impl View for Span {
    type V = SpanS;

    open spec fn view(&self) -> SpanS {
        match self {
            Span::Lit(t) => SpanS::Lit(t@),
            Span::Var(t) => SpanS::Var(t@),
        }
    }
}

/// The mathematical form of each piece of a styled section.
pub open spec fn spans_view(spans: Seq<Span>) -> Seq<SpanS> {
    spans.map_values(|sp: Span| sp@)
}

impl View for GroupNode {
    type V = GroupNodeS;

    open spec fn view(&self) -> GroupNodeS {
        match self {
            GroupNode::Lit(t) => GroupNodeS::Lit(t@),
            GroupNode::Var(t) => GroupNodeS::Var(t@),
            GroupNode::Styled(spans, st) => GroupNodeS::Styled(spans_view(spans@), st@),
        }
    }
}

/// The mathematical form of each node of a group.
pub open spec fn gnodes_view(gs: Seq<GroupNode>) -> Seq<GroupNodeS> {
    gs.map_values(|g: GroupNode| g@)
}

impl View for Node {
    type V = NodeS;

    open spec fn view(&self) -> NodeS {
        match self {
            Node::Lit(t) => NodeS::Lit(t@),
            Node::Var(t) => NodeS::Var(t@),
            Node::Styled(spans, st) => NodeS::Styled(spans_view(spans@), st@),
            Node::Group(gs) => NodeS::Group(gnodes_view(gs@)),
        }
    }
}

/// The mathematical form of each node of a compiled format string.
pub open spec fn nodes_view(ns: Seq<Node>) -> Seq<NodeS> {
    ns.map_values(|n: Node| n@)
}

/// Parses the `(style)` part that must follow the `]` of a styled section,
/// at position `i`; on success returns the style and the position after the
/// closing `)`.
pub open spec fn parse_style(s: Seq<char>, i: int) -> Result<(StyleRefS, int), FormatError>
    recommends
        0 <= i <= s.len(),
{
    if i >= s.len() || s[i] != '(' {
        Err(FormatError::MissingStyle)
    } else if i + 1 < s.len() && s[i + 1] == '$' {
        let j = run_end(s, i + 2, CharClass::Name);
        if j == i + 2 {
            Err(FormatError::EmptyVariable)
        } else if j < s.len() && s[j] == ')' {
            Ok((StyleRefS::Var(s.subrange(i + 2, j)), j + 1))
        } else {
            Err(FormatError::UnclosedStyle)
        }
    } else {
        let j = run_end(s, i + 1, CharClass::Plain);
        if j < s.len() && s[j] == ')' {
            Ok((StyleRefS::Lit(s.subrange(i + 1, j)), j + 1))
        } else {
            Err(FormatError::UnclosedStyle)
        }
    }
}

pub proof fn lemma_parse_style_progress(s: Seq<char>, i: int)
    requires
        0 <= i <= s.len(),
    ensures
        parse_style(s, i) matches Ok(r) ==> i + 2 <= r.1 <= s.len(),
{
    if i < s.len() {
        lemma_run_end(s, i + 1, CharClass::Plain);
        if i + 1 < s.len() {
            lemma_run_end(s, i + 2, CharClass::Name);
        }
    }
}

/// Parses the inside of a styled section, from position `i` up to and over
/// the closing `]`; on success returns the pieces and the position after
/// the `]`.
pub open spec fn parse_spans(s: Seq<char>, i: int) -> Result<(Seq<SpanS>, int), FormatError>
    decreases s.len() - i,
    when 0 <= i <= s.len()
    via parse_spans_dec
{
    if i >= s.len() {
        Err(FormatError::UnclosedBracket)
    } else if s[i] == ']' {
        Ok((Seq::empty(), i + 1))
    } else if s[i] == '[' || s[i] == '(' {
        Err(FormatError::NestedGroup)
    } else if s[i] == ')' {
        Err(FormatError::UnexpectedClose)
    } else if s[i] == '$' {
        let j = run_end(s, i + 1, CharClass::Name);
        if j == i + 1 {
            Err(FormatError::EmptyVariable)
        } else {
            match parse_spans(s, j) {
                Ok((rest, end)) => Ok((seq![SpanS::Var(s.subrange(i + 1, j))] + rest, end)),
                Err(e) => Err(e),
            }
        }
    } else {
        let j = run_end(s, i, CharClass::Plain);
        match parse_spans(s, j) {
            Ok((rest, end)) => Ok((seq![SpanS::Lit(s.subrange(i, j))] + rest, end)),
            Err(e) => Err(e),
        }
    }
}

#[via_fn]
proof fn parse_spans_dec(s: Seq<char>, i: int) {
    if 0 <= i < s.len() {
        lemma_run_end(s, i + 1, CharClass::Name);
        lemma_run_end(s, i, CharClass::Plain);
    }
}

pub proof fn lemma_parse_spans_progress(s: Seq<char>, i: int)
    requires
        0 <= i <= s.len(),
    ensures
        parse_spans(s, i) matches Ok(r) ==> i < r.1 <= s.len(),
    decreases s.len() - i,
{
    if i < s.len() {
        lemma_run_end(s, i + 1, CharClass::Name);
        lemma_run_end(s, i, CharClass::Plain);
        if s[i] == ']' {
        } else if s[i] == '$' {
            let j = run_end(s, i + 1, CharClass::Name);
            if j != i + 1 {
                lemma_parse_spans_progress(s, j);
            }
        } else if s[i] != '[' && s[i] != '(' && s[i] != ')' {
            lemma_parse_spans_progress(s, run_end(s, i, CharClass::Plain));
        }
    }
}

/// Parses the inside of an optional group, from position `i` up to and over
/// the closing `)`; on success returns the nodes and the position after the
/// `)`.
pub open spec fn parse_group(s: Seq<char>, i: int) -> Result<(Seq<GroupNodeS>, int), FormatError>
    decreases s.len() - i,
    when 0 <= i <= s.len()
    via parse_group_dec
{
    if i >= s.len() {
        Err(FormatError::UnclosedGroup)
    } else if s[i] == ')' {
        Ok((Seq::empty(), i + 1))
    } else if s[i] == '(' {
        Err(FormatError::NestedGroup)
    } else if s[i] == ']' {
        Err(FormatError::UnexpectedClose)
    } else if s[i] == '$' {
        let j = run_end(s, i + 1, CharClass::Name);
        if j == i + 1 {
            Err(FormatError::EmptyVariable)
        } else {
            match parse_group(s, j) {
                Ok((rest, end)) => Ok((seq![GroupNodeS::Var(s.subrange(i + 1, j))] + rest, end)),
                Err(e) => Err(e),
            }
        }
    } else if s[i] == '[' {
        match parse_spans(s, i + 1) {
            Ok((spans, j)) => match parse_style(s, j) {
                Ok((st, k)) => match parse_group(s, k) {
                    Ok((rest, end)) => Ok(
                        (seq![GroupNodeS::Styled(spans, st)] + rest, end),
                    ),
                    Err(e) => Err(e),
                },
                Err(e) => Err(e),
            },
            Err(e) => Err(e),
        }
    } else {
        let j = run_end(s, i, CharClass::Plain);
        match parse_group(s, j) {
            Ok((rest, end)) => Ok((seq![GroupNodeS::Lit(s.subrange(i, j))] + rest, end)),
            Err(e) => Err(e),
        }
    }
}

#[via_fn]
proof fn parse_group_dec(s: Seq<char>, i: int) {
    if 0 <= i < s.len() {
        lemma_run_end(s, i + 1, CharClass::Name);
        lemma_run_end(s, i, CharClass::Plain);
        if s[i] == '[' {
            lemma_parse_spans_progress(s, i + 1);
            if let Ok((spans, j)) = parse_spans(s, i + 1) {
                lemma_parse_style_progress(s, j);
            }
        }
    }
}

pub proof fn lemma_parse_group_progress(s: Seq<char>, i: int)
    requires
        0 <= i <= s.len(),
    ensures
        parse_group(s, i) matches Ok(r) ==> i < r.1 <= s.len(),
    decreases s.len() - i,
{
    if i < s.len() {
        lemma_run_end(s, i + 1, CharClass::Name);
        lemma_run_end(s, i, CharClass::Plain);
        if s[i] == ')' || s[i] == '(' || s[i] == ']' {
        } else if s[i] == '$' {
            let j = run_end(s, i + 1, CharClass::Name);
            if j != i + 1 {
                lemma_parse_group_progress(s, j);
            }
        } else if s[i] == '[' {
            lemma_parse_spans_progress(s, i + 1);
            if let Ok((spans, j)) = parse_spans(s, i + 1) {
                lemma_parse_style_progress(s, j);
                if let Ok((st, k)) = parse_style(s, j) {
                    lemma_parse_group_progress(s, k);
                }
            }
        } else {
            lemma_parse_group_progress(s, run_end(s, i, CharClass::Plain));
        }
    }
}

/// Parses a whole format string from position `i` to its end.
pub open spec fn parse_top(s: Seq<char>, i: int) -> Result<Seq<NodeS>, FormatError>
    decreases s.len() - i,
    when 0 <= i <= s.len()
    via parse_top_dec
{
    if i >= s.len() {
        Ok(Seq::empty())
    } else if s[i] == ']' || s[i] == ')' {
        Err(FormatError::UnexpectedClose)
    } else if s[i] == '$' {
        let j = run_end(s, i + 1, CharClass::Name);
        if j == i + 1 {
            Err(FormatError::EmptyVariable)
        } else {
            match parse_top(s, j) {
                Ok(rest) => Ok(seq![NodeS::Var(s.subrange(i + 1, j))] + rest),
                Err(e) => Err(e),
            }
        }
    } else if s[i] == '[' {
        match parse_spans(s, i + 1) {
            Ok((spans, j)) => match parse_style(s, j) {
                Ok((st, k)) => match parse_top(s, k) {
                    Ok(rest) => Ok(seq![NodeS::Styled(spans, st)] + rest),
                    Err(e) => Err(e),
                },
                Err(e) => Err(e),
            },
            Err(e) => Err(e),
        }
    } else if s[i] == '(' {
        match parse_group(s, i + 1) {
            Ok((items, j)) => match parse_top(s, j) {
                Ok(rest) => Ok(seq![NodeS::Group(items)] + rest),
                Err(e) => Err(e),
            },
            Err(e) => Err(e),
        }
    } else {
        let j = run_end(s, i, CharClass::Plain);
        match parse_top(s, j) {
            Ok(rest) => Ok(seq![NodeS::Lit(s.subrange(i, j))] + rest),
            Err(e) => Err(e),
        }
    }
}

#[via_fn]
proof fn parse_top_dec(s: Seq<char>, i: int) {
    if 0 <= i < s.len() {
        lemma_run_end(s, i + 1, CharClass::Name);
        lemma_run_end(s, i, CharClass::Plain);
        if s[i] == '[' {
            lemma_parse_spans_progress(s, i + 1);
            if let Ok((spans, j)) = parse_spans(s, i + 1) {
                lemma_parse_style_progress(s, j);
            }
        }
        if s[i] == '(' {
            lemma_parse_group_progress(s, i + 1);
        }
    }
}

/// What compiling a format string yields: its nodes, or the first error.
pub open spec fn parse_format(s: Seq<char>) -> Result<Seq<NodeS>, FormatError> {
    parse_top(s, 0)
}

fn compile_style(v: &Vec<char>, i: usize) -> (r: Result<(StyleRef, usize), FormatError>)
    requires
        i <= v@.len(),
    ensures
        r matches Ok(p) ==> parse_style(v@, i as int) matches Ok(q) && p.0@ == q.0 && p.1
            == q.1,
        r matches Err(e) ==> parse_style(v@, i as int) matches Err(e2) && e == e2,
{
    proof {
        if i < v@.len() {
            lemma_run_end(v@, i as int + 1, CharClass::Plain);
            if i + 1 < v@.len() {
                lemma_run_end(v@, i as int + 2, CharClass::Name);
            }
        }
    }
    if i >= v.len() || v[i] != '(' {
        Err(FormatError::MissingStyle)
    } else if i + 1 < v.len() && v[i + 1] == '$' {
        let j = scan_run(v, i + 2, CharClass::Name);
        if j == i + 2 {
            Err(FormatError::EmptyVariable)
        } else if j < v.len() && v[j] == ')' {
            Ok((StyleRef::Var(sub_string(v, i + 2, j)), j + 1))
        } else {
            Err(FormatError::UnclosedStyle)
        }
    } else {
        let j = scan_run(v, i + 1, CharClass::Plain);
        if j < v.len() && v[j] == ')' {
            Ok((StyleRef::Lit(sub_string(v, i + 1, j)), j + 1))
        } else {
            Err(FormatError::UnclosedStyle)
        }
    }
}

fn compile_spans(v: &Vec<char>, i: usize) -> (r: Result<(Vec<Span>, usize), FormatError>)
    requires
        i <= v@.len(),
    ensures
        r matches Ok(p) ==> parse_spans(v@, i as int) matches Ok(q) && spans_view(p.0@) == q.0
            && p.1 == q.1,
        r matches Err(e) ==> parse_spans(v@, i as int) matches Err(e2) && e == e2,
    decreases v@.len() - i,
{
    if i >= v.len() {
        Err(FormatError::UnclosedBracket)
    } else if v[i] == ']' {
        let out: Vec<Span> = Vec::new();
        proof {
            assert(spans_view(out@) =~= Seq::<SpanS>::empty());
        }
        Ok((out, i + 1))
    } else if v[i] == '[' || v[i] == '(' {
        Err(FormatError::NestedGroup)
    } else if v[i] == ')' {
        Err(FormatError::UnexpectedClose)
    } else if v[i] == '$' {
        let j = scan_run(v, i + 1, CharClass::Name);
        proof {
            lemma_run_end(v@, i as int + 1, CharClass::Name);
        }
        if j == i + 1 {
            Err(FormatError::EmptyVariable)
        } else {
            match compile_spans(v, j) {
                Ok((rest, end)) => {
                    let mut out: Vec<Span> = Vec::new();
                    out.push(Span::Var(sub_string(v, i + 1, j)));
                    let mut rest = rest;
                    out.append(&mut rest);
                    proof {
                        let q = parse_spans(v@, i as int).unwrap();
                        assert(spans_view(out@) =~= q.0);
                    }
                    Ok((out, end))
                },
                Err(e) => Err(e),
            }
        }
    } else {
        let j = scan_run(v, i, CharClass::Plain);
        proof {
            lemma_run_end(v@, i as int, CharClass::Plain);
        }
        match compile_spans(v, j) {
            Ok((rest, end)) => {
                let mut out: Vec<Span> = Vec::new();
                out.push(Span::Lit(sub_string(v, i, j)));
                let mut rest = rest;
                out.append(&mut rest);
                proof {
                    let q = parse_spans(v@, i as int).unwrap();
                    assert(spans_view(out@) =~= q.0);
                }
                Ok((out, end))
            },
            Err(e) => Err(e),
        }
    }
}

fn compile_group(v: &Vec<char>, i: usize) -> (r: Result<(Vec<GroupNode>, usize), FormatError>)
    requires
        i <= v@.len(),
    ensures
        r matches Ok(p) ==> parse_group(v@, i as int) matches Ok(q) && gnodes_view(p.0@) == q.0
            && p.1 == q.1,
        r matches Err(e) ==> parse_group(v@, i as int) matches Err(e2) && e == e2,
    decreases v@.len() - i,
{
    if i >= v.len() {
        Err(FormatError::UnclosedGroup)
    } else if v[i] == ')' {
        let out: Vec<GroupNode> = Vec::new();
        proof {
            assert(gnodes_view(out@) =~= Seq::<GroupNodeS>::empty());
        }
        Ok((out, i + 1))
    } else if v[i] == '(' {
        Err(FormatError::NestedGroup)
    } else if v[i] == ']' {
        Err(FormatError::UnexpectedClose)
    } else if v[i] == '$' {
        let j = scan_run(v, i + 1, CharClass::Name);
        proof {
            lemma_run_end(v@, i as int + 1, CharClass::Name);
        }
        if j == i + 1 {
            Err(FormatError::EmptyVariable)
        } else {
            match compile_group(v, j) {
                Ok((rest, end)) => {
                    let mut out: Vec<GroupNode> = Vec::new();
                    out.push(GroupNode::Var(sub_string(v, i + 1, j)));
                    let mut rest = rest;
                    out.append(&mut rest);
                    proof {
                        let q = parse_group(v@, i as int).unwrap();
                        assert(gnodes_view(out@) =~= q.0);
                    }
                    Ok((out, end))
                },
                Err(e) => Err(e),
            }
        }
    } else if v[i] == '[' {
        match compile_spans(v, i + 1) {
            Ok((spans, j)) => {
                proof {
                    lemma_parse_spans_progress(v@, i as int + 1);
                }
                match compile_style(v, j) {
                    Ok((st, k)) => {
                        proof {
                            lemma_parse_style_progress(v@, j as int);
                        }
                        match compile_group(v, k) {
                            Ok((rest, end)) => {
                                let mut out: Vec<GroupNode> = Vec::new();
                                out.push(GroupNode::Styled(spans, st));
                                let mut rest = rest;
                                out.append(&mut rest);
                                proof {
                                    let q = parse_group(v@, i as int).unwrap();
                                    assert(gnodes_view(out@) =~= q.0);
                                }
                                Ok((out, end))
                            },
                            Err(e) => Err(e),
                        }
                    },
                    Err(e) => Err(e),
                }
            },
            Err(e) => Err(e),
        }
    } else {
        let j = scan_run(v, i, CharClass::Plain);
        proof {
            lemma_run_end(v@, i as int, CharClass::Plain);
        }
        match compile_group(v, j) {
            Ok((rest, end)) => {
                let mut out: Vec<GroupNode> = Vec::new();
                out.push(GroupNode::Lit(sub_string(v, i, j)));
                let mut rest = rest;
                out.append(&mut rest);
                proof {
                    let q = parse_group(v@, i as int).unwrap();
                    assert(gnodes_view(out@) =~= q.0);
                }
                Ok((out, end))
            },
            Err(e) => Err(e),
        }
    }
}

fn compile_top(v: &Vec<char>, i: usize) -> (r: Result<Vec<Node>, FormatError>)
    requires
        i <= v@.len(),
    ensures
        r matches Ok(p) ==> parse_top(v@, i as int) matches Ok(q) && nodes_view(p@) == q,
        r matches Err(e) ==> parse_top(v@, i as int) matches Err(e2) && e == e2,
    decreases v@.len() - i,
{
    if i >= v.len() {
        let out: Vec<Node> = Vec::new();
        proof {
            assert(nodes_view(out@) =~= Seq::<NodeS>::empty());
        }
        Ok(out)
    } else if v[i] == ']' || v[i] == ')' {
        Err(FormatError::UnexpectedClose)
    } else if v[i] == '$' {
        let j = scan_run(v, i + 1, CharClass::Name);
        proof {
            lemma_run_end(v@, i as int + 1, CharClass::Name);
        }
        if j == i + 1 {
            Err(FormatError::EmptyVariable)
        } else {
            match compile_top(v, j) {
                Ok(rest) => {
                    let mut out: Vec<Node> = Vec::new();
                    out.push(Node::Var(sub_string(v, i + 1, j)));
                    let mut rest = rest;
                    out.append(&mut rest);
                    proof {
                        let q = parse_top(v@, i as int).unwrap();
                        assert(nodes_view(out@) =~= q);
                    }
                    Ok(out)
                },
                Err(e) => Err(e),
            }
        }
    } else if v[i] == '[' {
        match compile_spans(v, i + 1) {
            Ok((spans, j)) => {
                proof {
                    lemma_parse_spans_progress(v@, i as int + 1);
                }
                match compile_style(v, j) {
                    Ok((st, k)) => {
                        proof {
                            lemma_parse_style_progress(v@, j as int);
                        }
                        match compile_top(v, k) {
                            Ok(rest) => {
                                let mut out: Vec<Node> = Vec::new();
                                out.push(Node::Styled(spans, st));
                                let mut rest = rest;
                                out.append(&mut rest);
                                proof {
                                    let q = parse_top(v@, i as int).unwrap();
                                    assert(nodes_view(out@) =~= q);
                                }
                                Ok(out)
                            },
                            Err(e) => Err(e),
                        }
                    },
                    Err(e) => Err(e),
                }
            },
            Err(e) => Err(e),
        }
    } else if v[i] == '(' {
        match compile_group(v, i + 1) {
            Ok((items, j)) => {
                proof {
                    lemma_parse_group_progress(v@, i as int + 1);
                }
                match compile_top(v, j) {
                    Ok(rest) => {
                        let mut out: Vec<Node> = Vec::new();
                        out.push(Node::Group(items));
                        let mut rest = rest;
                        out.append(&mut rest);
                        proof {
                            let q = parse_top(v@, i as int).unwrap();
                            assert(nodes_view(out@) =~= q);
                        }
                        Ok(out)
                    },
                    Err(e) => Err(e),
                }
            },
            Err(e) => Err(e),
        }
    } else {
        let j = scan_run(v, i, CharClass::Plain);
        proof {
            lemma_run_end(v@, i as int, CharClass::Plain);
        }
        match compile_top(v, j) {
            Ok(rest) => {
                let mut out: Vec<Node> = Vec::new();
                out.push(Node::Lit(sub_string(v, i, j)));
                let mut rest = rest;
                out.append(&mut rest);
                proof {
                    let q = parse_top(v@, i as int).unwrap();
                    assert(nodes_view(out@) =~= q);
                }
                Ok(out)
            },
            Err(e) => Err(e),
        }
    }
}

/// Whether `t` holds no special character of the grammar.
pub open spec fn no_specials(t: Seq<char>) -> bool {
    forall|k: int| 0 <= k < t.len() ==> !crate::chars::is_special(t[k])
}

/// Whether a styled-section piece's literal text is free of specials.
pub open spec fn span_ok(sp: SpanS) -> bool {
    match sp {
        SpanS::Lit(t) => no_specials(t),
        SpanS::Var(_) => true,
    }
}

/// Whether a group node's literal texts are free of specials.
pub open spec fn gnode_ok(g: GroupNodeS) -> bool {
    match g {
        GroupNodeS::Lit(t) => no_specials(t),
        GroupNodeS::Var(_) => true,
        GroupNodeS::Styled(sps, _) => forall|k: int| 0 <= k < sps.len() ==> #[trigger] span_ok(sps[k]),
    }
}

/// Whether a node's literal texts are free of specials.
pub open spec fn node_ok(n: NodeS) -> bool {
    match n {
        NodeS::Lit(t) => no_specials(t),
        NodeS::Var(_) => true,
        NodeS::Styled(sps, _) => forall|k: int| 0 <= k < sps.len() ==> #[trigger] span_ok(sps[k]),
        NodeS::Group(gs) => forall|k: int| 0 <= k < gs.len() ==> #[trigger] gnode_ok(gs[k]),
    }
}

proof fn lemma_parse_spans_ok(s: Seq<char>, i: int)
    requires
        0 <= i <= s.len(),
    ensures
        parse_spans(s, i) matches Ok(r) ==> forall|k: int|
            0 <= k < r.0.len() ==> #[trigger] span_ok(r.0[k]),
    decreases s.len() - i,
{
    if i < s.len() {
        lemma_run_end(s, i + 1, CharClass::Name);
        lemma_run_end(s, i, CharClass::Plain);
        if s[i] == ']' || s[i] == '[' || s[i] == '(' || s[i] == ')' {
        } else if s[i] == '$' {
            let j = run_end(s, i + 1, CharClass::Name);
            if j != i + 1 {
                lemma_parse_spans_ok(s, j);
            }
        } else {
            let j = run_end(s, i, CharClass::Plain);
            lemma_parse_spans_ok(s, j);
            if let Ok((rest, _)) = parse_spans(s, j) {
                let head = SpanS::Lit(s.subrange(i, j));
                assert(span_ok(head));
                assert forall|k: int| 0 <= k < (seq![head] + rest).len() implies #[trigger] span_ok(
                    (seq![head] + rest)[k],
                ) by {
                    if k > 0 {
                        assert(span_ok(rest[k - 1]));
                    }
                }
            }
        }
    }
}

proof fn lemma_parse_group_ok(s: Seq<char>, i: int)
    requires
        0 <= i <= s.len(),
    ensures
        parse_group(s, i) matches Ok(r) ==> forall|k: int|
            0 <= k < r.0.len() ==> #[trigger] gnode_ok(r.0[k]),
    decreases s.len() - i,
{
    if i < s.len() {
        lemma_run_end(s, i + 1, CharClass::Name);
        lemma_run_end(s, i, CharClass::Plain);
        if s[i] == ')' || s[i] == '(' || s[i] == ']' {
        } else if s[i] == '$' {
            let j = run_end(s, i + 1, CharClass::Name);
            if j != i + 1 {
                lemma_parse_group_ok(s, j);
            }
        } else if s[i] == '[' {
            lemma_parse_spans_progress(s, i + 1);
            lemma_parse_spans_ok(s, i + 1);
            if let Ok((spans, j)) = parse_spans(s, i + 1) {
                lemma_parse_style_progress(s, j);
                if let Ok((st, k)) = parse_style(s, j) {
                    lemma_parse_group_ok(s, k);
                    if let Ok((rest, _)) = parse_group(s, k) {
                        let head = GroupNodeS::Styled(spans, st);
                        assert(gnode_ok(head));
                        assert forall|t: int|
                            0 <= t < (seq![head] + rest).len() implies #[trigger] gnode_ok(
                            (seq![head] + rest)[t],
                        ) by {
                            if t > 0 {
                                assert(gnode_ok(rest[t - 1]));
                            }
                        }
                    }
                }
            }
        } else {
            let j = run_end(s, i, CharClass::Plain);
            lemma_parse_group_ok(s, j);
            if let Ok((rest, _)) = parse_group(s, j) {
                let head = GroupNodeS::Lit(s.subrange(i, j));
                assert(gnode_ok(head));
                assert forall|t: int|
                    0 <= t < (seq![head] + rest).len() implies #[trigger] gnode_ok(
                    (seq![head] + rest)[t],
                ) by {
                    if t > 0 {
                        assert(gnode_ok(rest[t - 1]));
                    }
                }
            }
        }
    }
}

proof fn lemma_parse_top_ok(s: Seq<char>, i: int)
    requires
        0 <= i <= s.len(),
    ensures
        parse_top(s, i) matches Ok(ns) ==> forall|k: int|
            0 <= k < ns.len() ==> #[trigger] node_ok(ns[k]),
    decreases s.len() - i,
{
    if i < s.len() {
        lemma_run_end(s, i + 1, CharClass::Name);
        lemma_run_end(s, i, CharClass::Plain);
        if s[i] == ']' || s[i] == ')' {
        } else if s[i] == '$' {
            let j = run_end(s, i + 1, CharClass::Name);
            if j != i + 1 {
                lemma_parse_top_ok(s, j);
            }
        } else if s[i] == '[' {
            lemma_parse_spans_progress(s, i + 1);
            lemma_parse_spans_ok(s, i + 1);
            if let Ok((spans, j)) = parse_spans(s, i + 1) {
                lemma_parse_style_progress(s, j);
                if let Ok((st, k)) = parse_style(s, j) {
                    lemma_parse_top_ok(s, k);
                    if let Ok(rest) = parse_top(s, k) {
                        let head = NodeS::Styled(spans, st);
                        assert(node_ok(head));
                        assert forall|t: int|
                            0 <= t < (seq![head] + rest).len() implies #[trigger] node_ok(
                            (seq![head] + rest)[t],
                        ) by {
                            if t > 0 {
                                assert(node_ok(rest[t - 1]));
                            }
                        }
                    }
                }
            }
        } else if s[i] == '(' {
            lemma_parse_group_progress(s, i + 1);
            lemma_parse_group_ok(s, i + 1);
            if let Ok((items, j)) = parse_group(s, i + 1) {
                lemma_parse_top_ok(s, j);
                if let Ok(rest) = parse_top(s, j) {
                    let head = NodeS::Group(items);
                    assert(node_ok(head));
                    assert forall|t: int|
                        0 <= t < (seq![head] + rest).len() implies #[trigger] node_ok(
                        (seq![head] + rest)[t],
                    ) by {
                        if t > 0 {
                            assert(node_ok(rest[t - 1]));
                        }
                    }
                }
            }
        } else {
            let j = run_end(s, i, CharClass::Plain);
            lemma_parse_top_ok(s, j);
            if let Ok(rest) = parse_top(s, j) {
                let head = NodeS::Lit(s.subrange(i, j));
                assert(node_ok(head));
                assert forall|t: int|
                    0 <= t < (seq![head] + rest).len() implies #[trigger] node_ok(
                    (seq![head] + rest)[t],
                ) by {
                    if t > 0 {
                        assert(node_ok(rest[t - 1]));
                    }
                }
            }
        }
    }
}

/// Every literal of a compiled format string is free of the grammar's
/// special characters: in particular, no stray `$` survives compilation
/// into the rendered text, whose only `$` signs can come from variable
/// values themselves.
pub proof fn lemma_compiled_literals_clean(s: Seq<char>)
    ensures
        parse_format(s) matches Ok(ns) ==> forall|k: int|
            0 <= k < ns.len() ==> #[trigger] node_ok(ns[k]),
{
    lemma_parse_top_ok(s, 0);
}

/// Compiles a format string into its nodes; fails, with the error saying
/// why, exactly when the string breaks the grammar.
pub fn compile(format: &str) -> (r: Result<Vec<Node>, FormatError>)
    ensures
        r matches Ok(p) ==> parse_format(format@) matches Ok(q) && nodes_view(p@) == q,
        r matches Err(e) ==> parse_format(format@) matches Err(e2) && e == e2,
{
    let v = crate::chars::to_chars(format);
    compile_top(&v, 0)
}

} // verus!

//! Rendering compiled format nodes against a set of variable bindings.
//!
//! Bindings come in three families: meta substitutions (plain text, always
//! present), style bindings (named styles for styled sections), and value
//! substitutions (text that may be absent).  A variable that no binding
//! names resolves to absent.  An absent variable renders as nothing on its
//! own, and makes any optional group around it vanish entirely; a style
//! variable that no binding names is a rendering error.

use vstd::prelude::*;
use crate::format::FormatError;
use crate::format::GroupNode;
use crate::format::GroupNodeS;
use crate::format::Node;
use crate::format::NodeS;
use crate::format::Span;
use crate::format::SpanS;
use crate::format::StyleRef;
use crate::format::StyleRefS;
use crate::format::nodes_view;
use crate::format::spans_view;
use crate::format::gnodes_view;
use crate::Segment;

verus! {

/// Mathematical form of a rendered segment.
pub struct SegS {
    pub text: Seq<char>,
    pub style: Option<Seq<char>>,
}

/// The view of an optional string.
pub open spec fn opt_text_view(o: Option<String>) -> Option<Seq<char>> {
    match o {
        Some(t) => Some(t@),
        None => None,
    }
}

impl View for Segment {
    type V = SegS;

    open spec fn view(&self) -> SegS {
        SegS { text: self.text@, style: opt_text_view(self.style) }
    }
}

/// The mathematical form of each rendered segment.
pub open spec fn segs_view(segs: Seq<Segment>) -> Seq<SegS> {
    segs.map_values(|s: Segment| s@)
}

/// The variable bindings a rendering runs against.
pub struct Bindings {
    /// Meta substitutions: plain text, no style.
    pub metas: Vec<(String, String)>,
    /// Style bindings, by style-variable name.
    pub styles: Vec<(String, String)>,
    /// Value substitutions: text that may be absent.
    pub values: Vec<(String, Option<String>)>,
}

/// Mathematical form of the bindings.
pub struct BindsV {
    pub metas: Seq<(Seq<char>, Seq<char>)>,
    pub styles: Seq<(Seq<char>, Seq<char>)>,
    pub values: Seq<(Seq<char>, Option<Seq<char>>)>,
}

/// The mathematical form of a list of name/text pairs.
pub open spec fn pairs_view(ps: Seq<(String, String)>) -> Seq<(Seq<char>, Seq<char>)> {
    ps.map_values(|p: (String, String)| (p.0@, p.1@))
}

/// The mathematical form of a list of name/value pairs.
pub open spec fn value_pairs_view(ps: Seq<(String, Option<String>)>) -> Seq<
    (Seq<char>, Option<Seq<char>>),
> {
    ps.map_values(|p: (String, Option<String>)| (p.0@, opt_text_view(p.1)))
}

impl View for Bindings {
    type V = BindsV;

    open spec fn view(&self) -> BindsV {
        BindsV {
            metas: pairs_view(self.metas@),
            styles: pairs_view(self.styles@),
            values: value_pairs_view(self.values@),
        }
    }
}

/// The first pair at or after `i` whose name is `name`, if any.
pub open spec fn lookup_from(
    ps: Seq<(Seq<char>, Seq<char>)>,
    name: Seq<char>,
    i: int,
) -> Option<Seq<char>>
    decreases ps.len() - i,
    when 0 <= i
{
    if i >= ps.len() {
        None
    } else if ps[i].0 == name {
        Some(ps[i].1)
    } else {
        lookup_from(ps, name, i + 1)
    }
}

/// The first value pair at or after `i` whose name is `name`, if any.
pub open spec fn lookup_value_from(
    ps: Seq<(Seq<char>, Option<Seq<char>>)>,
    name: Seq<char>,
    i: int,
) -> Option<Option<Seq<char>>>
    decreases ps.len() - i,
    when 0 <= i
{
    if i >= ps.len() {
        None
    } else if ps[i].0 == name {
        Some(ps[i].1)
    } else {
        lookup_value_from(ps, name, i + 1)
    }
}

/// What the variable `name` resolves to: the meta text if a meta
/// substitution names it, else the value if a value substitution names it,
/// else absent.
pub open spec fn resolve_var(b: BindsV, name: Seq<char>) -> Option<Seq<char>> {
    match lookup_from(b.metas, name, 0) {
        Some(t) => Some(t),
        None => match lookup_value_from(b.values, name, 0) {
            Some(ov) => ov,
            None => None,
        },
    }
}

/// What the style variable `name` resolves to, if any style binding names
/// it.
pub open spec fn resolve_style_var(b: BindsV, name: Seq<char>) -> Option<Seq<char>> {
    lookup_from(b.styles, name, 0)
}

/// The text of one styled-section piece; an absent variable contributes
/// nothing.
pub open spec fn span_text(sp: SpanS, b: BindsV) -> Seq<char> {
    match sp {
        SpanS::Lit(t) => t,
        SpanS::Var(v) => match resolve_var(b, v) {
            Some(t) => t,
            None => Seq::empty(),
        },
    }
}

/// The text of the pieces of a styled section from `i` on, concatenated.
pub open spec fn spans_text_from(sps: Seq<SpanS>, b: BindsV, i: int) -> Seq<char>
    decreases sps.len() - i,
    when 0 <= i
{
    if i >= sps.len() {
        Seq::empty()
    } else {
        span_text(sps[i], b) + spans_text_from(sps, b, i + 1)
    }
}

/// The style a style reference names, if it resolves.
pub open spec fn style_text(st: StyleRefS, b: BindsV) -> Option<Seq<char>> {
    match st {
        StyleRefS::Lit(t) => Some(t),
        StyleRefS::Var(v) => resolve_style_var(b, v),
    }
}

/// Whether a styled-section piece has all its variables present.
pub open spec fn span_present(sp: SpanS, b: BindsV) -> bool {
    match sp {
        SpanS::Lit(_) => true,
        SpanS::Var(v) => resolve_var(b, v) is Some,
    }
}

/// Whether a group node has all its variables present.
pub open spec fn gnode_present(g: GroupNodeS, b: BindsV) -> bool {
    match g {
        GroupNodeS::Lit(_) => true,
        GroupNodeS::Var(v) => resolve_var(b, v) is Some,
        GroupNodeS::Styled(sps, _) => forall|t: int|
            0 <= t < sps.len() ==> #[trigger] span_present(sps[t], b),
    }
}

/// Whether every variable of the group is present; only then does the
/// group render.
pub open spec fn group_present(gs: Seq<GroupNodeS>, b: BindsV) -> bool {
    forall|t: int| 0 <= t < gs.len() ==> #[trigger] gnode_present(gs[t], b)
}

/// One segment of the given text and style, or nothing when the text is
/// empty.
pub open spec fn seg_of_text(t: Seq<char>, st: Option<Seq<char>>) -> Seq<SegS> {
    if t.len() > 0 {
        seq![SegS { text: t, style: st }]
    } else {
        Seq::empty()
    }
}

/// What one group node renders to.
pub open spec fn render_gnode(g: GroupNodeS, b: BindsV) -> Result<Seq<SegS>, FormatError> {
    match g {
        GroupNodeS::Lit(t) => Ok(seg_of_text(t, None)),
        GroupNodeS::Var(v) => Ok(
            seg_of_text(
                match resolve_var(b, v) {
                    Some(t) => t,
                    None => Seq::empty(),
                },
                None,
            ),
        ),
        GroupNodeS::Styled(sps, st) => match style_text(st, b) {
            Some(sty) => Ok(seg_of_text(spans_text_from(sps, b, 0), Some(sty))),
            None => Err(FormatError::UnknownStyle),
        },
    }
}

/// What the nodes of a group from `i` on render to.
pub open spec fn render_group_from(gs: Seq<GroupNodeS>, b: BindsV, i: int) -> Result<
    Seq<SegS>,
    FormatError,
>
    decreases gs.len() - i,
    when 0 <= i
{
    if i >= gs.len() {
        Ok(Seq::empty())
    } else {
        match render_gnode(gs[i], b) {
            Ok(segs) => match render_group_from(gs, b, i + 1) {
                Ok(rest) => Ok(segs + rest),
                Err(e) => Err(e),
            },
            Err(e) => Err(e),
        }
    }
}

/// What one top-level node renders to.
pub open spec fn render_node(n: NodeS, b: BindsV) -> Result<Seq<SegS>, FormatError> {
    match n {
        NodeS::Lit(t) => Ok(seg_of_text(t, None)),
        NodeS::Var(v) => Ok(
            seg_of_text(
                match resolve_var(b, v) {
                    Some(t) => t,
                    None => Seq::empty(),
                },
                None,
            ),
        ),
        NodeS::Styled(sps, st) => match style_text(st, b) {
            Some(sty) => Ok(seg_of_text(spans_text_from(sps, b, 0), Some(sty))),
            None => Err(FormatError::UnknownStyle),
        },
        NodeS::Group(gs) => if group_present(gs, b) {
            render_group_from(gs, b, 0)
        } else {
            Ok(Seq::empty())
        },
    }
}

/// What the nodes from `i` on render to.
pub open spec fn render_from(ns: Seq<NodeS>, b: BindsV, i: int) -> Result<Seq<SegS>, FormatError>
    decreases ns.len() - i,
    when 0 <= i
{
    if i >= ns.len() {
        Ok(Seq::empty())
    } else {
        match render_node(ns[i], b) {
            Ok(segs) => match render_from(ns, b, i + 1) {
                Ok(rest) => Ok(segs + rest),
                Err(e) => Err(e),
            },
            Err(e) => Err(e),
        }
    }
}

/// What a compiled format renders to against the bindings `b`: its
/// segments in order, or the first rendering error.
pub open spec fn render_spec(ns: Seq<NodeS>, b: BindsV) -> Result<Seq<SegS>, FormatError> {
    render_from(ns, b, 0)
}

fn lookup_x(ps: &Vec<(String, String)>, name: &String, i: usize) -> (r: Option<String>)
    requires
        i <= ps@.len(),
    ensures
        opt_text_view(r) == lookup_from(pairs_view(ps@), name@, i as int),
    decreases ps@.len() - i,
{
    if i >= ps.len() {
        None
    } else if ps[i].0 == *name {
        Some(ps[i].1.clone())
    } else {
        lookup_x(ps, name, i + 1)
    }
}

fn lookup_value_x(ps: &Vec<(String, Option<String>)>, name: &String, i: usize) -> (r: Option<
    Option<String>,
>)
    requires
        i <= ps@.len(),
    ensures
        (r matches Some(ov) ==> lookup_value_from(value_pairs_view(ps@), name@, i as int)
            matches Some(ov2) && opt_text_view(ov) == ov2),
        (r is None ==> lookup_value_from(value_pairs_view(ps@), name@, i as int) is None),
    decreases ps@.len() - i,
{
    if i >= ps.len() {
        None
    } else if ps[i].0 == *name {
        match &ps[i].1 {
            Some(t) => Some(Some(t.clone())),
            None => Some(None),
        }
    } else {
        lookup_value_x(ps, name, i + 1)
    }
}

/// Resolves the variable `name` against the bindings.
pub fn resolve(b: &Bindings, name: &String) -> (r: Option<String>)
    ensures
        opt_text_view(r) == resolve_var(b@, name@),
{
    match lookup_x(&b.metas, name, 0) {
        Some(t) => Some(t),
        None => match lookup_value_x(&b.values, name, 0) {
            Some(ov) => ov,
            None => None,
        },
    }
}

fn resolve_style(b: &Bindings, name: &String) -> (r: Option<String>)
    ensures
        opt_text_view(r) == resolve_style_var(b@, name@),
{
    lookup_x(&b.styles, name, 0)
}

fn style_of(st: &StyleRef, b: &Bindings) -> (r: Option<String>)
    ensures
        opt_text_view(r) == style_text(st@, b@),
{
    match st {
        StyleRef::Lit(t) => Some(t.clone()),
        StyleRef::Var(v) => resolve_style(b, v),
    }
}

fn span_text_x(sp: &Span, b: &Bindings) -> (r: String)
    ensures
        r@ == span_text(sp@, b@),
{
    match sp {
        Span::Lit(t) => t.clone(),
        Span::Var(v) => match resolve(b, v) {
            Some(t) => t,
            None => String::new(),
        },
    }
}

fn spans_text_x(sps: &Vec<Span>, b: &Bindings, i: usize) -> (r: String)
    requires
        i <= sps@.len(),
    ensures
        r@ == spans_text_from(spans_view(sps@), b@, i as int),
    decreases sps@.len() - i,
{
    if i >= sps.len() {
        String::new()
    } else {
        let head = span_text_x(&sps[i], b);
        let rest = spans_text_x(sps, b, i + 1);
        head.concat(rest.as_str())
    }
}

fn span_present_x(sp: &Span, b: &Bindings) -> (r: bool)
    ensures
        r == span_present(sp@, b@),
{
    match sp {
        Span::Lit(_) => true,
        Span::Var(v) => resolve(b, v).is_some(),
    }
}

fn spans_present_x(sps: &Vec<Span>, b: &Bindings, i: usize) -> (r: bool)
    requires
        i <= sps@.len(),
    ensures
        r == (forall|t: int|
            i <= t < sps@.len() ==> span_present(spans_view(sps@)[t], b@)),
    decreases sps@.len() - i,
{
    if i >= sps.len() {
        true
    } else if !span_present_x(&sps[i], b) {
        proof {
            assert(!span_present(spans_view(sps@)[i as int], b@));
        }
        false
    } else {
        let r = spans_present_x(sps, b, i + 1);
        proof {
            if r {
                assert forall|t: int| i <= t < sps@.len() implies span_present(
                    spans_view(sps@)[t],
                    b@,
                ) by {
                    if t > i {
                        assert(span_present(spans_view(sps@)[t], b@));
                    }
                }
            }
        }
        r
    }
}

fn gnode_present_x(g: &GroupNode, b: &Bindings) -> (r: bool)
    ensures
        r == gnode_present(g@, b@),
{
    match g {
        GroupNode::Lit(_) => true,
        GroupNode::Var(v) => resolve(b, v).is_some(),
        GroupNode::Styled(sps, st) => {
            let r = spans_present_x(sps, b, 0);
            proof {
                let sv = spans_view(sps@);
                assert(g@ == GroupNodeS::Styled(sv, st@));
                assert(g@ matches GroupNodeS::Styled(sps2, _) && sps2 == sv);
                if r {
                    assert forall|t: int| 0 <= t < sv.len() implies span_present(sv[t], b@) by {
                        assert(span_present(spans_view(sps@)[t], b@));
                    }
                } else {
                    let w = choose|t: int|
                        !(0 <= t < sps@.len() ==> span_present(spans_view(sps@)[t], b@));
                    assert(0 <= w < sv.len() && !span_present(sv[w], b@));
                }
            }
            r
        },
    }
}

fn group_present_x(gs: &Vec<GroupNode>, b: &Bindings, i: usize) -> (r: bool)
    requires
        i <= gs@.len(),
    ensures
        r == (forall|t: int|
            i <= t < gs@.len() ==> gnode_present(gnodes_view(gs@)[t], b@)),
    decreases gs@.len() - i,
{
    if i >= gs.len() {
        true
    } else if !gnode_present_x(&gs[i], b) {
        proof {
            assert(!gnode_present(gnodes_view(gs@)[i as int], b@));
        }
        false
    } else {
        let r = group_present_x(gs, b, i + 1);
        proof {
            if r {
                assert forall|t: int| i <= t < gs@.len() implies gnode_present(
                    gnodes_view(gs@)[t],
                    b@,
                ) by {
                    if t > i {
                        assert(gnode_present(gnodes_view(gs@)[t], b@));
                    }
                }
            }
        }
        r
    }
}

fn seg_of(text: String, style: Option<String>) -> (r: Vec<Segment>)
    ensures
        segs_view(r@) == seg_of_text(text@, opt_text_view(style)),
{
    let ghost tv = text@;
    let ghost sv = opt_text_view(style);
    let mut out: Vec<Segment> = Vec::new();
    if !text.as_str().is_empty() {
        out.push(Segment { text, style });
    }
    proof {
        assert(segs_view(out@) =~= seg_of_text(tv, sv));
    }
    out
}

fn render_gnode_x(g: &GroupNode, b: &Bindings) -> (r: Result<Vec<Segment>, FormatError>)
    ensures
        r matches Ok(p) ==> render_gnode(g@, b@) matches Ok(q) && segs_view(p@) == q,
        r matches Err(e) ==> render_gnode(g@, b@) matches Err(e2) && e == e2,
{
    match g {
        GroupNode::Lit(t) => Ok(seg_of(t.clone(), None)),
        GroupNode::Var(v) => {
            let text = match resolve(b, v) {
                Some(t) => t,
                None => String::new(),
            };
            Ok(seg_of(text, None))
        },
        GroupNode::Styled(sps, st) => match style_of(st, b) {
            Some(sty) => Ok(seg_of(spans_text_x(sps, b, 0), Some(sty))),
            None => Err(FormatError::UnknownStyle),
        },
    }
}

fn render_group_x(gs: &Vec<GroupNode>, b: &Bindings, i: usize) -> (r: Result<
    Vec<Segment>,
    FormatError,
>)
    requires
        i <= gs@.len(),
    ensures
        r matches Ok(p) ==> render_group_from(gnodes_view(gs@), b@, i as int) matches Ok(q)
            && segs_view(p@) == q,
        r matches Err(e) ==> render_group_from(gnodes_view(gs@), b@, i as int) matches Err(e2)
            && e == e2,
    decreases gs@.len() - i,
{
    if i >= gs.len() {
        let out: Vec<Segment> = Vec::new();
        proof {
            assert(segs_view(out@) =~= Seq::<SegS>::empty());
        }
        Ok(out)
    } else {
        match render_gnode_x(&gs[i], b) {
            Ok(mut segs) => match render_group_x(gs, b, i + 1) {
                Ok(rest) => {
                    let mut rest = rest;
                    segs.append(&mut rest);
                    proof {
                        let q = render_group_from(gnodes_view(gs@), b@, i as int).unwrap();
                        assert(segs_view(segs@) =~= q);
                    }
                    Ok(segs)
                },
                Err(e) => Err(e),
            },
            Err(e) => Err(e),
        }
    }
}

fn render_node_x(n: &Node, b: &Bindings) -> (r: Result<Vec<Segment>, FormatError>)
    ensures
        r matches Ok(p) ==> render_node(n@, b@) matches Ok(q) && segs_view(p@) == q,
        r matches Err(e) ==> render_node(n@, b@) matches Err(e2) && e == e2,
{
    match n {
        Node::Lit(t) => Ok(seg_of(t.clone(), None)),
        Node::Var(v) => {
            let text = match resolve(b, v) {
                Some(t) => t,
                None => String::new(),
            };
            Ok(seg_of(text, None))
        },
        Node::Styled(sps, st) => match style_of(st, b) {
            Some(sty) => Ok(seg_of(spans_text_x(sps, b, 0), Some(sty))),
            None => Err(FormatError::UnknownStyle),
        },
        Node::Group(gs) => {
            if group_present_x(gs, b, 0) {
                render_group_x(gs, b, 0)
            } else {
                let out: Vec<Segment> = Vec::new();
                proof {
                    assert(segs_view(out@) =~= Seq::<SegS>::empty());
                }
                Ok(out)
            }
        },
    }
}

fn render_x(ns: &Vec<Node>, b: &Bindings, i: usize) -> (r: Result<Vec<Segment>, FormatError>)
    requires
        i <= ns@.len(),
    ensures
        r matches Ok(p) ==> render_from(nodes_view(ns@), b@, i as int) matches Ok(q)
            && segs_view(p@) == q,
        r matches Err(e) ==> render_from(nodes_view(ns@), b@, i as int) matches Err(e2) && e
            == e2,
    decreases ns@.len() - i,
{
    if i >= ns.len() {
        let out: Vec<Segment> = Vec::new();
        proof {
            assert(segs_view(out@) =~= Seq::<SegS>::empty());
        }
        Ok(out)
    } else {
        match render_node_x(&ns[i], b) {
            Ok(mut segs) => match render_x(ns, b, i + 1) {
                Ok(rest) => {
                    let mut rest = rest;
                    segs.append(&mut rest);
                    proof {
                        let q = render_from(nodes_view(ns@), b@, i as int).unwrap();
                        assert(segs_view(segs@) =~= q);
                    }
                    Ok(segs)
                },
                Err(e) => Err(e),
            },
            Err(e) => Err(e),
        }
    }
}

/// Renders compiled format nodes against the bindings: the segments in
/// order, or the first rendering error.
pub fn render(ns: &Vec<Node>, b: &Bindings) -> (r: Result<Vec<Segment>, FormatError>)
    ensures
        r matches Ok(p) ==> render_spec(nodes_view(ns@), b@) matches Ok(q) && segs_view(p@)
            == q,
        r matches Err(e) ==> render_spec(nodes_view(ns@), b@) matches Err(e2) && e == e2,
{
    render_x(ns, b, 0)
}

} // verus!

//! The module evaluation: the activation rule and the renderer binding.
//!
//! An evaluation is a pure function of the context (directory listing,
//! probe output, project-file text) and the configuration.  The module
//! activates only when the module is not disabled, some file in the
//! working directory carries one of the configured extensions, and the
//! tool version resolves.  An active module compiles its output template,
//! binds the symbols, styles and the two version values, and renders; any
//! compile or rendering failure makes the module produce nothing.

use vstd::prelude::*;
use crate::Context;
use crate::CtxV;
use crate::Segment;
use crate::chars::sub_string;
use crate::chars::to_chars;
use crate::config::AdamConfig;
use crate::config::CfgV;
use crate::config::strings_view;
use crate::format::compile;
use crate::format::parse_format;
use crate::render::BindsV;
use crate::render::Bindings;
use crate::render::SegS;
use crate::render::opt_text_view;
use crate::render::render;
use crate::render::render_spec;
use crate::render::segs_view;
use crate::runtime::get_runtime_version;
use crate::runtime::runtime_version_spec;
use crate::version::clean_version;
use crate::version::clean_version_spec;
use crate::version::format_version;
use crate::version::format_version_spec;

verus! {

/// The index of the last `.` of `name`, or `-1` when it has none.
pub open spec fn last_dot(name: Seq<char>) -> int
    decreases name.len(),
{
    if name.len() == 0 {
        -1
    } else if name[name.len() - 1] == '.' {
        name.len() - 1
    } else {
        last_dot(name.drop_last())
    }
}

/// The extension of a file name: what follows its last `.`, provided that
/// dot is neither absent nor the leading character.
pub open spec fn ext_of(name: Seq<char>) -> Option<Seq<char>> {
    let d = last_dot(name);
    if d > 0 {
        Some(name.subrange(d + 1, name.len() as int))
    } else {
        None
    }
}

/// Whether the file `name` carries one of the extensions in `exts`.
pub open spec fn ext_matches(name: Seq<char>, exts: Seq<Seq<char>>) -> bool {
    match ext_of(name) {
        Some(e) => exts.contains(e),
        None => false,
    }
}

/// Whether some file of the directory carries one of the extensions.
pub open spec fn scan_match(files: Seq<Seq<char>>, exts: Seq<Seq<char>>) -> bool {
    exists|i: int| 0 <= i < files.len() && #[trigger] ext_matches(files[i], exts)
}

/// The extension of a file name, or nothing: the text after the last `.`,
/// provided that dot is neither absent nor the leading character.
pub fn extension_of(name: &String) -> (r: Option<String>)
    ensures
        opt_text_view(r) == ext_of(name@),
{
    let v = to_chars(name.as_str());
    let mut j: usize = v.len();
    proof {
        assert(v@.subrange(0, j as int) =~= v@);
    }
    while j > 0 && v[j - 1] != '.'
        invariant
            j <= v@.len(),
            v@ == name@,
            last_dot(v@) == last_dot(v@.subrange(0, j as int)),
        decreases j,
    {
        proof {
            let cur = v@.subrange(0, j as int);
            assert(cur.len() > 0 && cur[cur.len() - 1] != '.');
            assert(cur.drop_last() =~= v@.subrange(0, j - 1));
        }
        j = j - 1;
    }
    proof {
        let cur = v@.subrange(0, j as int);
        if j == 0 {
            assert(last_dot(cur) == -1);
        } else {
            assert(cur[cur.len() - 1] == '.');
            assert(last_dot(cur) == j - 1);
        }
    }
    if j > 1 {
        Some(sub_string(&v, j, v.len()))
    } else {
        None
    }
}

fn contains_string(exts: &Vec<String>, x: &String) -> (r: bool)
    ensures
        r == strings_view(exts@).contains(x@),
{
    let sv = Ghost(strings_view(exts@));
    let mut i: usize = 0;
    while i < exts.len()
        invariant
            i <= exts@.len(),
            sv@ == strings_view(exts@),
            forall|k: int| 0 <= k < i ==> sv@[k] != x@,
        decreases exts@.len() - i,
    {
        if exts[i] == *x {
            proof {
                assert(sv@[i as int] == x@);
            }
            return true;
        }
        i = i + 1;
    }
    proof {
        assert(!sv@.contains(x@)) by {
            if sv@.contains(x@) {
                let w = choose|k: int| 0 <= k < sv@.len() && sv@[k] == x@;
                assert(sv@[w] != x@);
            }
        }
    }
    false
}

fn ext_matches_x(name: &String, exts: &Vec<String>) -> (r: bool)
    ensures
        r == ext_matches(name@, strings_view(exts@)),
{
    match extension_of(name) {
        Some(e) => contains_string(exts, &e),
        None => false,
    }
}

/// Whether some file of the directory carries one of the configured
/// extensions.
pub fn scan_match_x(files: &Vec<String>, exts: &Vec<String>) -> (r: bool)
    ensures
        r == scan_match(strings_view(files@), strings_view(exts@)),
{
    let fv = Ghost(strings_view(files@));
    let mut i: usize = 0;
    while i < files.len()
        invariant
            i <= files@.len(),
            fv@ == strings_view(files@),
            forall|k: int| 0 <= k < i ==> !ext_matches(fv@[k], strings_view(exts@)),
        decreases files@.len() - i,
    {
        if ext_matches_x(&files[i], exts) {
            proof {
                assert(ext_matches(fv@[i as int], strings_view(exts@)));
            }
            return true;
        }
        i = i + 1;
    }
    proof {
        assert(!scan_match(fv@, strings_view(exts@))) by {
            if scan_match(fv@, strings_view(exts@)) {
                let w = choose|k: int|
                    0 <= k < fv@.len() && #[trigger] ext_matches(fv@[k], strings_view(exts@));
                assert(!ext_matches(fv@[w], strings_view(exts@)));
            }
        }
    }
    false
}

/// What the tool-version resolver yields: the probe's output, cleaned and
/// run through the version-display template; nothing when the probe
/// failed or the template does not apply.
pub open spec fn adam_version_spec(ctx: CtxV, cfg: CfgV) -> Option<Seq<char>> {
    match ctx.tool_output {
        Some(out) => format_version_spec(clean_version_spec(out), cfg.version_format),
        None => None,
    }
}

/// Resolves the tool version, exactly as `adam_version_spec` says.
pub fn get_adam_version(context: &Context, config: &AdamConfig) -> (r: Option<String>)
    ensures
        opt_text_view(r) == adam_version_spec(context@, config@),
{
    match &context.tool_output {
        Some(out) => {
            let cleaned = clean_version(out.as_str());
            format_version(cleaned.as_str(), config.version_format.as_str())
        },
        None => None,
    }
}

/// Whether the module activates: not disabled, a matching file extension
/// in the directory, and a resolvable tool version.
pub open spec fn is_active_spec(ctx: CtxV, cfg: CfgV) -> bool {
    &&& !cfg.disabled
    &&& scan_match(ctx.files, cfg.detect_extentions)
    &&& adam_version_spec(ctx, cfg) is Some
}

/// The activation rule: decides whether the module produces anything.
pub fn is_active(context: &Context, config: &AdamConfig) -> (r: bool)
    ensures
        r == is_active_spec(context@, config@),
{
    if config.disabled {
        false
    } else if !scan_match_x(&context.file_names, &config.detect_extentions) {
        false
    } else {
        get_adam_version(context, config).is_some()
    }
}

/// The variable bindings a rendering runs against: the two symbols as
/// meta substitutions, the two styles as style bindings, and the two
/// versions, each resolved afresh, as value substitutions.
pub open spec fn bindings_spec(ctx: CtxV, cfg: CfgV) -> BindsV {
    BindsV {
        metas: seq![("adam_symbol"@, cfg.adam_symbol), ("gm_symbol"@, cfg.gm_symbol)],
        styles: seq![("adam_style"@, cfg.adam_style), ("gm_style"@, cfg.gm_style)],
        values: seq![
            ("adam_version"@, adam_version_spec(ctx, cfg)),
            ("runtime_version"@, runtime_version_spec(ctx)),
        ],
    }
}

/// Builds the variable bindings for one rendering, resolving both
/// versions afresh.
pub fn make_bindings(context: &Context, config: &AdamConfig) -> (b: Bindings)
    ensures
        b@ == bindings_spec(context@, config@),
{
    let mut metas: Vec<(String, String)> = Vec::new();
    metas.push((String::from_str("adam_symbol"), config.adam_symbol.clone()));
    metas.push((String::from_str("gm_symbol"), config.gm_symbol.clone()));
    let mut styles: Vec<(String, String)> = Vec::new();
    styles.push((String::from_str("adam_style"), config.adam_style.clone()));
    styles.push((String::from_str("gm_style"), config.gm_style.clone()));
    let mut values: Vec<(String, Option<String>)> = Vec::new();
    values.push((String::from_str("adam_version"), get_adam_version(context, config)));
    values.push((String::from_str("runtime_version"), get_runtime_version(context)));
    let b = Bindings { metas, styles, values };
    proof {
        let want = bindings_spec(context@, config@);
        assert(b@.metas =~= want.metas);
        assert(b@.styles =~= want.styles);
        assert(b@.values =~= want.values);
    }
    b
}

/// What one module evaluation yields: nothing when activation fails or
/// the template fails to compile or render, else the rendered segments.
pub open spec fn module_spec(ctx: CtxV, cfg: CfgV) -> Option<Seq<SegS>> {
    if !is_active_spec(ctx, cfg) {
        None
    } else {
        match parse_format(cfg.format) {
            Ok(nodes) => match render_spec(nodes, bindings_spec(ctx, cfg)) {
                Ok(segs) => Some(segs),
                Err(_) => None,
            },
            Err(_) => None,
        }
    }
}

/// Evaluates the module: decides activation, compiles the output
/// template, binds the variables and renders.  Yields nothing when the
/// module is disabled, no file in the directory carries a configured
/// extension, the tool version does not resolve, or the template fails.
pub fn module(context: &Context, config: &AdamConfig) -> (r: Option<Vec<Segment>>)
    ensures
        (match r {
            Some(segs) => module_spec(context@, config@) == Some(segs_view(segs@)),
            None => module_spec(context@, config@) is None,
        }),
        config@.disabled ==> r is None,
        !scan_match(context@.files, config@.detect_extentions) ==> r is None,
{
    if !is_active(context, config) {
        return None;
    }
    let nodes = match compile(config.format.as_str()) {
        Ok(nodes) => nodes,
        Err(_) => {
            return None;
        },
    };
    let b = make_bindings(context, config);
    match render(&nodes, &b) {
        Ok(segs) => Some(segs),
        Err(_) => None,
    }
}

/// Evaluating the module is a function of the context and the
/// configuration alone: two evaluations against an unchanged directory,
/// probe and project-file state yield identical output.
pub proof fn lemma_module_idempotent(
    ctx: CtxV,
    cfg: CfgV,
    r1: Option<Seq<SegS>>,
    r2: Option<Seq<SegS>>,
)
    requires
        r1 == module_spec(ctx, cfg),
        r2 == module_spec(ctx, cfg),
    ensures
        r1 == r2,
{
}

} // verus!

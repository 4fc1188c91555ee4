//! The runtime-version resolver: reads the `runtime` key of the project
//! file's TOML text and renders its value as extracted.
//!
//! Unlike the tool version, this value is deliberately not passed through
//! the version-display template: it is shown as it stands in the project
//! file, with only the enclosing quotes stripped that the generic
//! value-to-text conversion puts around a string value, so a quoted and an
//! unquoted value render identically.
//!
//! The TOML decoding itself is the `toml` crate's work, reached through
//! trusted wrappers; everything around it is verified against their
//! contracts.

use vstd::prelude::*;
use crate::Context;
use crate::chars::sub_string;
use crate::chars::to_chars;
use crate::render::opt_text_view;

verus! {

#[verifier::external_type_specification]
#[verifier::external_body]
pub struct ExTomlValue(toml::Value);

/// The top-level entries of the TOML document `s`, each key mapped to the
/// TOML-serialized text of its value; nothing when `s` is not a TOML
/// document.
pub uninterp spec fn toml_doc(s: Seq<char>) -> Option<Map<Seq<char>, Seq<char>>>;

/// What the decoded document holds: each top-level key mapped to the
/// TOML-serialized text of its value.
pub uninterp spec fn toml_entries(v: toml::Value) -> Map<Seq<char>, Seq<char>>;

/// Relies on `toml::from_str::<toml::Value>`: decodes a TOML document into
/// a value holding its top-level entries, and fails exactly on text that
/// is not a TOML document.
#[verifier::external_body]
fn parse_toml(s: &str) -> (r: Option<toml::Value>)
    ensures
        r is Some <==> toml_doc(s@) is Some,
        r matches Some(v) ==> toml_entries(v) == toml_doc(s@).unwrap(),
{
    toml::from_str::<toml::Value>(s).ok()
}

/// Relies on `toml::Value::get`, which looks a key up among a table's
/// entries, and on the `Display` form of the entry's value, the
/// TOML-serialized text the entry is mapped to; hands the entry out as
/// that text.
#[verifier::external_body]
fn toml_get_text(v: &toml::Value, key: &str) -> (r: Option<String>)
    ensures
        r is Some <==> toml_entries(*v).contains_key(key@),
        r matches Some(t) ==> t@ == toml_entries(*v)[key@],
{
    v.get(key).map(|x| x.to_string())
}

/// `s` without one pair of enclosing double quotes, when both are there.
pub open spec fn strip_quotes_spec(s: Seq<char>) -> Seq<char> {
    if s.len() >= 2 && s[0] == '"' && s[s.len() - 1] == '"' {
        s.subrange(1, s.len() - 1)
    } else {
        s
    }
}

/// Strips one pair of enclosing double quotes, when both are there.
pub fn strip_enclosing_quotes(s: &str) -> (r: String)
    ensures
        r@ == strip_quotes_spec(s@),
{
    let v = to_chars(s);
    if v.len() >= 2 && v[0] == '"' && v[v.len() - 1] == '"' {
        sub_string(&v, 1, v.len() - 1)
    } else {
        let whole = sub_string(&v, 0, v.len());
        proof {
            assert(whole@ =~= s@);
        }
        whole
    }
}

/// The key the resolver looks up.
pub open spec fn runtime_key() -> Seq<char> {
    "runtime"@
}

/// What the runtime-version resolver yields: the text of the project
/// file's top-level `runtime` entry, quotes stripped; nothing when the
/// file is absent, not a TOML document, or has no such key.
pub open spec fn runtime_version_spec(ctx: crate::CtxV) -> Option<Seq<char>> {
    match ctx.project_file {
        Some(c) => match toml_doc(c) {
            Some(doc) => if doc.contains_key(runtime_key()) {
                Some(strip_quotes_spec(doc[runtime_key()]))
            } else {
                None
            },
            None => None,
        },
        None => None,
    }
}

/// Resolves the runtime version from the project file's text, exactly as
/// `runtime_version_spec` says.
pub fn get_runtime_version(context: &Context) -> (r: Option<String>)
    ensures
        opt_text_view(r) == runtime_version_spec(context@),
{
    match &context.project_file {
        Some(contents) => match parse_toml(contents.as_str()) {
            Some(value) => match toml_get_text(&value, "runtime") {
                Some(t) => Some(strip_enclosing_quotes(t.as_str())),
                None => None,
            },
            None => None,
        },
        None => None,
    }
}

} // verus!

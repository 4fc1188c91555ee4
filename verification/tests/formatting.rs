use adam_module::Segment;
use adam_module::format::FormatError;
use adam_module::format::compile;
use adam_module::render::Bindings;
use adam_module::render::render;
use adam_module::render::resolve;
use adam_module::version::clean_version;
use adam_module::version::format_version;
use adam_module::module::extension_of;

fn no_bindings() -> Bindings {
    Bindings { metas: vec![], styles: vec![], values: vec![] }
}

#[test]
fn probe_output_is_cleaned() {
    assert_eq!(clean_version("adam 1.2.3\n"), "1.2.3");
    assert_eq!(clean_version("1.2.3"), "1.2.3");
    assert_eq!(clean_version("adam 1.2.3\n\n\n"), "1.2.3");
    assert_eq!(clean_version(""), "");
    assert_eq!(clean_version("adam "), "");
}

#[test]
fn raw_placeholder_formats_cleaned_version() {
    assert_eq!(format_version("1.2.3", "v${raw}"), Some(String::from("v1.2.3")));
}

#[test]
fn part_placeholders_split_on_dots() {
    assert_eq!(format_version("1.2.3", "${major}"), Some(String::from("1")));
    assert_eq!(format_version("1.2.3", "${major}.${minor}"), Some(String::from("1.2")));
    assert_eq!(format_version("1.2.3", "${patch}"), Some(String::from("3")));
    assert_eq!(format_version("10.20.30", "${minor}"), Some(String::from("20")));
}

#[test]
fn missing_parts_fail_the_template() {
    assert_eq!(format_version("1.2", "${patch}"), None);
    assert_eq!(format_version("", "${major}"), None);
    assert_eq!(format_version("1..3", "${minor}"), None);
}

#[test]
fn unknown_or_malformed_placeholders_fail() {
    assert_eq!(format_version("1.2.3", "${nope}"), None);
    assert_eq!(format_version("1.2.3", "v$raw"), None);
    assert_eq!(format_version("1.2.3", "v${raw"), None);
    assert_eq!(format_version("1.2.3", "v$"), None);
}

#[test]
fn literal_only_templates_pass_through() {
    assert_eq!(format_version("1.2.3", "fixed"), Some(String::from("fixed")));
    assert_eq!(format_version("1.2.3", ""), Some(String::from("")));
}

#[test]
fn compile_errors_name_their_cause() {
    assert_eq!(compile("$").unwrap_err(), FormatError::EmptyVariable);
    assert_eq!(compile("a[b").unwrap_err(), FormatError::UnclosedBracket);
    assert_eq!(compile("[b]").unwrap_err(), FormatError::MissingStyle);
    assert_eq!(compile("[b](c").unwrap_err(), FormatError::UnclosedStyle);
    assert_eq!(compile("(d").unwrap_err(), FormatError::UnclosedGroup);
    assert_eq!(compile("((").unwrap_err(), FormatError::NestedGroup);
    assert_eq!(compile("a[b[c]](s)").unwrap_err(), FormatError::NestedGroup);
    assert_eq!(compile(")").unwrap_err(), FormatError::UnexpectedClose);
    assert_eq!(compile("]").unwrap_err(), FormatError::UnexpectedClose);
}

#[test]
fn unknown_style_variable_is_a_rendering_error() {
    let nodes = compile("[x]($nope)").unwrap();
    assert_eq!(render(&nodes, &no_bindings()).unwrap_err(), FormatError::UnknownStyle);
}

#[test]
fn unknown_value_variable_resolves_to_absent() {
    let nodes = compile("a$nope b").unwrap();
    let segs = render(&nodes, &no_bindings()).unwrap();
    let text: String = segs.iter().map(|s| s.text.as_str()).collect();
    assert_eq!(text, "a b");
}

#[test]
fn meta_value_and_style_bindings_each_resolve() {
    let b = Bindings {
        metas: vec![(String::from("sym"), String::from("& "))],
        styles: vec![(String::from("st"), String::from("bold red"))],
        values: vec![
            (String::from("have"), Some(String::from("here"))),
            (String::from("lack"), None),
        ],
    };
    assert_eq!(resolve(&b, &String::from("sym")), Some(String::from("& ")));
    assert_eq!(resolve(&b, &String::from("have")), Some(String::from("here")));
    assert_eq!(resolve(&b, &String::from("lack")), None);
    assert_eq!(resolve(&b, &String::from("other")), None);
    let nodes = compile("$sym[$have]($st)(x$lack)").unwrap();
    let segs = render(&nodes, &b).unwrap();
    assert_eq!(
        segs,
        vec![
            Segment { text: String::from("& "), style: None },
            Segment { text: String::from("here"), style: Some(String::from("bold red")) },
        ]
    );
}

#[test]
fn literal_style_needs_no_binding() {
    let nodes = compile("[hi](bold blue)").unwrap();
    let segs = render(&nodes, &no_bindings()).unwrap();
    assert_eq!(segs, vec![Segment { text: String::from("hi"), style: Some(String::from("bold blue")) }]);
}

#[test]
fn empty_rendered_text_makes_no_segment() {
    let b = Bindings {
        metas: vec![(String::from("empty"), String::from(""))],
        styles: vec![],
        values: vec![],
    };
    let nodes = compile("$empty[$empty](s)").unwrap();
    assert_eq!(render(&nodes, &b).unwrap(), vec![]);
}

#[test]
fn extensions_come_after_the_last_dot() {
    assert_eq!(extension_of(&String::from("game.yyp")), Some(String::from("yyp")));
    assert_eq!(extension_of(&String::from("archive.tar.gz")), Some(String::from("gz")));
    assert_eq!(extension_of(&String::from(".adam.toml")), Some(String::from("toml")));
    assert_eq!(extension_of(&String::from("README")), None);
    assert_eq!(extension_of(&String::from(".hidden")), None);
    assert_eq!(extension_of(&String::from("trailing.")), Some(String::from("")));
}

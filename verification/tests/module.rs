use adam_module::Context;
use adam_module::Segment;
use adam_module::config::AdamConfig;
use adam_module::config::RawSettings;
use adam_module::module::get_adam_version;
use adam_module::module::is_active;
use adam_module::module::module;
use adam_module::runtime::get_runtime_version;

fn seg(text: &str, style: Option<&str>) -> Segment {
    Segment { text: String::from(text), style: style.map(String::from) }
}

fn full_context() -> Context {
    Context {
        file_names: vec![String::from("game.yyp"), String::from("README.md")],
        tool_output: Some(String::from("adam 1.2.3\n")),
        project_file: Some(String::from("runtime = \"2024.1\"\n")),
    }
}

#[test]
fn disabled_module_yields_nothing() {
    let mut config = AdamConfig::default();
    config.disabled = true;
    let context = full_context();
    assert!(module(&context, &config).is_none());
}

#[test]
fn no_matching_extension_yields_nothing() {
    let config = AdamConfig::default();
    let context = Context {
        file_names: vec![String::from("main.rs"), String::from("Cargo.toml")],
        tool_output: Some(String::from("adam 1.2.3\n")),
        project_file: Some(String::from("runtime = \"2024.1\"\n")),
    };
    assert!(module(&context, &config).is_none());
    assert!(!is_active(&context, &config));
}

#[test]
fn empty_directory_yields_nothing() {
    let config = AdamConfig::default();
    let context = Context {
        file_names: vec![],
        tool_output: Some(String::from("adam 1.2.3\n")),
        project_file: None,
    };
    assert!(module(&context, &config).is_none());
}

#[test]
fn failed_probe_yields_nothing() {
    let config = AdamConfig::default();
    let context = Context {
        file_names: vec![String::from("game.yyp")],
        tool_output: None,
        project_file: Some(String::from("runtime = \"2024.1\"\n")),
    };
    assert!(module(&context, &config).is_none());
    assert!(!is_active(&context, &config));
}

#[test]
fn default_template_renders_both_versions() {
    let config = AdamConfig::default();
    let context = full_context();
    let segs = module(&context, &config).unwrap();
    assert_eq!(
        segs,
        vec![
            seg("via ", None),
            seg("\u{1fa80} ", None),
            seg("2024.1", Some("bold green")),
            seg(" / ", None),
            seg("\u{1f9df} ", None),
            seg("v1.2.3", Some("bold yellow")),
            seg(" ", None),
        ]
    );
    let text: String = segs.iter().map(|s| s.text.as_str()).collect();
    assert_eq!(text, "via \u{1fa80} 2024.1 / \u{1f9df} v1.2.3 ");
    assert!(!text.contains('$'));
}

#[test]
fn absent_runtime_omits_optional_group() {
    let mut config = AdamConfig::default();
    config.format = String::from("via $adam_version( gm $runtime_version)!");
    let context = Context {
        file_names: vec![String::from("game.yyp")],
        tool_output: Some(String::from("adam 1.2.3\n")),
        project_file: None,
    };
    let segs = module(&context, &config).unwrap();
    assert_eq!(segs, vec![seg("via ", None), seg("v1.2.3", None), seg("!", None)]);
}

#[test]
fn present_runtime_keeps_optional_group() {
    let mut config = AdamConfig::default();
    config.format = String::from("via $adam_version( gm $runtime_version)!");
    let context = full_context();
    let segs = module(&context, &config).unwrap();
    assert_eq!(
        segs,
        vec![
            seg("via ", None),
            seg("v1.2.3", None),
            seg(" gm ", None),
            seg("2024.1", None),
            seg("!", None),
        ]
    );
}

#[test]
fn evaluation_is_idempotent() {
    let config = AdamConfig::default();
    let context = full_context();
    let first = module(&context, &config);
    let second = module(&context, &config);
    assert_eq!(first, second);
}

#[test]
fn tool_version_is_cleaned_and_formatted() {
    let config = AdamConfig::default();
    let context = Context {
        file_names: vec![String::from("game.yyp")],
        tool_output: Some(String::from("adam 1.2.3\n")),
        project_file: None,
    };
    assert_eq!(get_adam_version(&context, &config), Some(String::from("v1.2.3")));
}

#[test]
fn probe_output_without_prefix_is_kept_whole() {
    let config = AdamConfig::default();
    let context = Context {
        file_names: vec![String::from("game.yyp")],
        tool_output: Some(String::from("9.9.9")),
        project_file: None,
    };
    assert_eq!(get_adam_version(&context, &config), Some(String::from("v9.9.9")));
}

#[test]
fn quoted_runtime_value_loses_its_quotes() {
    let context = full_context();
    assert_eq!(get_runtime_version(&context), Some(String::from("2024.1")));
}

#[test]
fn unquoted_runtime_value_renders_identically() {
    let context = Context {
        file_names: vec![],
        tool_output: None,
        project_file: Some(String::from("runtime = 2024\n")),
    };
    assert_eq!(get_runtime_version(&context), Some(String::from("2024")));
}

#[test]
fn missing_runtime_key_is_absent() {
    let context = Context {
        file_names: vec![],
        tool_output: None,
        project_file: Some(String::from("name = \"x\"\n")),
    };
    assert_eq!(get_runtime_version(&context), None);
}

#[test]
fn unreadable_project_file_is_absent() {
    let context = Context { file_names: vec![], tool_output: None, project_file: None };
    assert_eq!(get_runtime_version(&context), None);
}

#[test]
fn unparsable_project_file_is_absent() {
    let context = Context {
        file_names: vec![],
        tool_output: None,
        project_file: Some(String::from("runtime = = nonsense [")),
    };
    assert_eq!(get_runtime_version(&context), None);
}

#[test]
fn load_merges_partial_settings_onto_defaults() {
    let raw = RawSettings {
        format: None,
        version_format: Some(String::from("${raw}")),
        adam_symbol: None,
        gm_symbol: None,
        adam_style: None,
        gm_style: None,
        disabled: Some(true),
        detect_extentions: None,
    };
    let config = AdamConfig::load(raw);
    let default = AdamConfig::default();
    assert_eq!(config.format, default.format);
    assert_eq!(config.version_format, "${raw}");
    assert_eq!(config.adam_symbol, default.adam_symbol);
    assert_eq!(config.gm_style, default.gm_style);
    assert!(config.disabled);
    assert_eq!(config.detect_extentions, vec![String::from("yyp")]);
}

#[test]
fn default_configuration_values() {
    let config = AdamConfig::default();
    assert_eq!(
        config.format,
        "via $gm_symbol[$runtime_version]($gm_style)( / $adam_symbol[$adam_version]($adam_style)) "
    );
    assert_eq!(config.version_format, "v${raw}");
    assert_eq!(config.adam_symbol, "\u{1f9df} ");
    assert_eq!(config.gm_symbol, "\u{1fa80} ");
    assert_eq!(config.adam_style, "bold yellow");
    assert_eq!(config.gm_style, "bold green");
    assert!(!config.disabled);
    assert_eq!(config.detect_extentions, vec![String::from("yyp")]);
}

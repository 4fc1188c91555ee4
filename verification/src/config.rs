//! The configuration record: detection and formatting parameters, all with
//! total defaults so that partial user settings merge safely.

use vstd::prelude::*;

verus! {

/// The configuration of one module evaluation, read-only once loaded.
pub struct AdamConfig {
    /// The output template.
    pub format: String,
    /// The version-display template for the tool version.
    pub version_format: String,
    /// Display symbol for the tool; presentation only.
    pub adam_symbol: String,
    /// Display symbol for the runtime; presentation only.
    pub gm_symbol: String,
    /// Style descriptor for the tool; presentation only.
    pub adam_style: String,
    /// Style descriptor for the runtime; presentation only.
    pub gm_style: String,
    /// When set, the module produces no output at all.
    pub disabled: bool,
    /// File extensions whose presence marks a project directory.
    pub detect_extentions: Vec<String>,
}

/// Mathematical form of the configuration.
pub struct CfgV {
    pub format: Seq<char>,
    pub version_format: Seq<char>,
    pub adam_symbol: Seq<char>,
    pub gm_symbol: Seq<char>,
    pub adam_style: Seq<char>,
    pub gm_style: Seq<char>,
    pub disabled: bool,
    pub detect_extentions: Seq<Seq<char>>,
}

/// The mathematical form of a list of strings.
pub open spec fn strings_view(v: Seq<String>) -> Seq<Seq<char>> {
    v.map_values(|s: String| s@)
}

impl View for AdamConfig {
    type V = CfgV;

    open spec fn view(&self) -> CfgV {
        CfgV {
            format: self.format@,
            version_format: self.version_format@,
            adam_symbol: self.adam_symbol@,
            gm_symbol: self.gm_symbol@,
            adam_style: self.adam_style@,
            gm_style: self.gm_style@,
            disabled: self.disabled,
            detect_extentions: strings_view(self.detect_extentions@),
        }
    }
}

/// The documented defaults, user-visible behaviour.
pub open spec fn default_config() -> CfgV {
    CfgV {
        format: "via $gm_symbol[$runtime_version]($gm_style)( / $adam_symbol[$adam_version]($adam_style)) "@,
        version_format: "v${raw}"@,
        adam_symbol: "🧟 "@,
        gm_symbol: "🪀 "@,
        adam_style: "bold yellow"@,
        gm_style: "bold green"@,
        disabled: false,
        detect_extentions: seq!["yyp"@],
    }
}

impl Default for AdamConfig {
    /// The default configuration.
    fn default() -> (r: AdamConfig)
        ensures
            r@ == default_config(),
    {
        let r = AdamConfig {
            format: String::from_str(
                "via $gm_symbol[$runtime_version]($gm_style)( / $adam_symbol[$adam_version]($adam_style)) ",
            ),
            version_format: String::from_str("v${raw}"),
            adam_symbol: String::from_str("🧟 "),
            gm_symbol: String::from_str("🪀 "),
            adam_style: String::from_str("bold yellow"),
            gm_style: String::from_str("bold green"),
            disabled: false,
            detect_extentions: vec![String::from_str("yyp")],
        };
        proof {
            assert(strings_view(r.detect_extentions@) =~= seq!["yyp"@]);
        }
        r
    }
}

/// Partial, user-supplied settings: a field left out, or of the wrong
/// type, arrives as absent and falls back to the default.
pub struct RawSettings {
    pub format: Option<String>,
    pub version_format: Option<String>,
    pub adam_symbol: Option<String>,
    pub gm_symbol: Option<String>,
    pub adam_style: Option<String>,
    pub gm_style: Option<String>,
    pub disabled: Option<bool>,
    pub detect_extentions: Option<Vec<String>>,
}

/// Mathematical form of partial settings.
pub struct RawV {
    pub format: Option<Seq<char>>,
    pub version_format: Option<Seq<char>>,
    pub adam_symbol: Option<Seq<char>>,
    pub gm_symbol: Option<Seq<char>>,
    pub adam_style: Option<Seq<char>>,
    pub gm_style: Option<Seq<char>>,
    pub disabled: Option<bool>,
    pub detect_extentions: Option<Seq<Seq<char>>>,
}

/// The view of an optional string.
pub open spec fn opt_view(o: Option<String>) -> Option<Seq<char>> {
    match o {
        Some(t) => Some(t@),
        None => None,
    }
}

/// The view of an optional list of strings.
pub open spec fn opt_strings_view(o: Option<Vec<String>>) -> Option<Seq<Seq<char>>> {
    match o {
        Some(v) => Some(strings_view(v@)),
        None => None,
    }
}

impl View for RawSettings {
    type V = RawV;

    open spec fn view(&self) -> RawV {
        RawV {
            format: opt_view(self.format),
            version_format: opt_view(self.version_format),
            adam_symbol: opt_view(self.adam_symbol),
            gm_symbol: opt_view(self.gm_symbol),
            adam_style: opt_view(self.adam_style),
            gm_style: opt_view(self.gm_style),
            disabled: self.disabled,
            detect_extentions: opt_strings_view(self.detect_extentions),
        }
    }
}

/// One field of the merge: the given value, or the default.
pub open spec fn or_default<T>(o: Option<T>, d: T) -> T {
    match o {
        Some(t) => t,
        None => d,
    }
}

/// What loading partial settings yields: each given field, the default for
/// each absent one.
pub open spec fn merged_config(raw: RawV) -> CfgV {
    CfgV {
        format: or_default(raw.format, default_config().format),
        version_format: or_default(raw.version_format, default_config().version_format),
        adam_symbol: or_default(raw.adam_symbol, default_config().adam_symbol),
        gm_symbol: or_default(raw.gm_symbol, default_config().gm_symbol),
        adam_style: or_default(raw.adam_style, default_config().adam_style),
        gm_style: or_default(raw.gm_style, default_config().gm_style),
        disabled: or_default(raw.disabled, default_config().disabled),
        detect_extentions: or_default(raw.detect_extentions, default_config().detect_extentions),
    }
}

impl AdamConfig {
    /// Merges partial user settings onto the defaults, field by field;
    /// an absent field never fails the whole load.
    pub fn load(raw: RawSettings) -> (r: AdamConfig)
        ensures
            r@ == merged_config(raw@),
    {
        let d = AdamConfig::default();
        let r = AdamConfig {
            format: match raw.format {
                Some(t) => t,
                None => d.format,
            },
            version_format: match raw.version_format {
                Some(t) => t,
                None => d.version_format,
            },
            adam_symbol: match raw.adam_symbol {
                Some(t) => t,
                None => d.adam_symbol,
            },
            gm_symbol: match raw.gm_symbol {
                Some(t) => t,
                None => d.gm_symbol,
            },
            adam_style: match raw.adam_style {
                Some(t) => t,
                None => d.adam_style,
            },
            gm_style: match raw.gm_style {
                Some(t) => t,
                None => d.gm_style,
            },
            disabled: match raw.disabled {
                Some(b) => b,
                None => d.disabled,
            },
            detect_extentions: match raw.detect_extentions {
                Some(v) => v,
                None => d.detect_extentions,
            },
        };
        r
    }
}

} // verus!

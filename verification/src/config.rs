//! The effective configuration and the pure half of loading it: defaults,
//! overlaying raw file values, and value parsing.  Reading the file and
//! the environment is the shell's job.

use vstd::prelude::*;
use crate::risk::RiskLevel;
use crate::text::{lower_seq, str_eq, to_ascii_lower, trim, trim_spec};
use crate::trash::path_join;

verus! {

#[derive(Debug, Clone, PartialEq, Eq)]
pub struct UiConfig {
    pub color: bool,
    pub max_table_rows: usize,
}

#[derive(Debug, Clone, PartialEq, Eq)]
pub struct ScanConfig {
    pub default_scope: String,
    pub exclude: Vec<String>,
}

#[derive(Debug, Clone, Copy, PartialEq, Eq, Structural)]
pub struct FixConfig {
    pub default_risk_max: RiskLevel,
}

#[derive(Debug, Clone, Copy, PartialEq, Eq, Structural)]
pub struct PrivacyConfig {
    pub mask_home: bool,
}

#[derive(Debug, Clone, Copy, PartialEq, Eq, Structural)]
pub struct ReportConfig {
    pub include_evidence: bool,
}

#[derive(Debug, Clone, PartialEq, Eq)]
pub struct EffectiveConfig {
    pub ui: UiConfig,
    pub scan: ScanConfig,
    pub fix: FixConfig,
    pub privacy: PrivacyConfig,
    pub report: ReportConfig,
    pub config_path: Option<String>,
}

impl Default for EffectiveConfig {
    /// Conservative defaults: mask the home directory, keep evidence out
    /// of reports, and never apply anything above R1 unasked.
    fn default() -> (r: Self)
        ensures
            r.ui.color == true,
            r.ui.max_table_rows == 20,
            r.scan.default_scope@ == "dev"@,
            r.scan.exclude@.len() == 1 && r.scan.exclude@[0]@ == "**/node_modules/**"@,
            r.fix.default_risk_max == RiskLevel::R1,
            r.privacy.mask_home == true,
            r.report.include_evidence == false,
            r.config_path is None,
    {
        let mut exclude: Vec<String> = Vec::new();
        exclude.push(String::from_str("**/node_modules/**"));
        EffectiveConfig {
            ui: UiConfig { color: true, max_table_rows: 20 },
            scan: ScanConfig { default_scope: String::from_str("dev"), exclude },
            fix: FixConfig { default_risk_max: RiskLevel::R1 },
            privacy: PrivacyConfig { mask_home: true },
            report: ReportConfig { include_evidence: false },
            config_path: None,
        }
    }
}

/// What a configuration file may set; absent fields keep their defaults.
#[derive(Debug, Clone, PartialEq, Eq)]
pub struct RawConfig {
    pub ui: Option<RawUiConfig>,
    pub scan: Option<RawScanConfig>,
    pub fix: Option<RawFixConfig>,
    pub privacy: Option<RawPrivacyConfig>,
    pub report: Option<RawReportConfig>,
}

#[derive(Debug, Clone, PartialEq, Eq)]
pub struct RawUiConfig {
    pub color: Option<bool>,
    pub max_table_rows: Option<usize>,
}

#[derive(Debug, Clone, PartialEq, Eq)]
pub struct RawScanConfig {
    pub default_scope: Option<String>,
    pub exclude: Option<Vec<String>>,
}

#[derive(Debug, Clone, Copy, PartialEq, Eq)]
pub struct RawFixConfig {
    pub default_risk_max: Option<RiskLevel>,
}

#[derive(Debug, Clone, Copy, PartialEq, Eq)]
pub struct RawPrivacyConfig {
    pub mask_home: Option<bool>,
}

#[derive(Debug, Clone, Copy, PartialEq, Eq)]
pub struct RawReportConfig {
    pub include_evidence: Option<bool>,
}

/// Overlays the raw file values on the configuration: every present field
/// replaces its counterpart, every absent one leaves it untouched.
pub fn apply_raw_config(cfg: &mut EffectiveConfig, raw: RawConfig)
    ensures
        final(cfg).ui.color == (match raw.ui {
            Some(u) => match u.color {
                Some(c) => c,
                None => old(cfg).ui.color,
            },
            None => old(cfg).ui.color,
        }),
        final(cfg).ui.max_table_rows == (match raw.ui {
            Some(u) => match u.max_table_rows {
                Some(m) => m,
                None => old(cfg).ui.max_table_rows,
            },
            None => old(cfg).ui.max_table_rows,
        }),
        final(cfg).scan.default_scope == (match raw.scan {
            Some(s) => match s.default_scope {
                Some(d) => d,
                None => old(cfg).scan.default_scope,
            },
            None => old(cfg).scan.default_scope,
        }),
        final(cfg).scan.exclude == (match raw.scan {
            Some(s) => match s.exclude {
                Some(e) => e,
                None => old(cfg).scan.exclude,
            },
            None => old(cfg).scan.exclude,
        }),
        final(cfg).fix.default_risk_max == (match raw.fix {
            Some(f) => match f.default_risk_max {
                Some(d) => d,
                None => old(cfg).fix.default_risk_max,
            },
            None => old(cfg).fix.default_risk_max,
        }),
        final(cfg).privacy.mask_home == (match raw.privacy {
            Some(p) => match p.mask_home {
                Some(m) => m,
                None => old(cfg).privacy.mask_home,
            },
            None => old(cfg).privacy.mask_home,
        }),
        final(cfg).report.include_evidence == (match raw.report {
            Some(p) => match p.include_evidence {
                Some(m) => m,
                None => old(cfg).report.include_evidence,
            },
            None => old(cfg).report.include_evidence,
        }),
        final(cfg).config_path == old(cfg).config_path,
{
    match raw.ui {
        Some(ui) => {
            match ui.color {
                Some(color) => {
                    cfg.ui.color = color;
                },
                None => {},
            }
            match ui.max_table_rows {
                Some(max_table_rows) => {
                    cfg.ui.max_table_rows = max_table_rows;
                },
                None => {},
            }
        },
        None => {},
    }
    match raw.scan {
        Some(scan) => {
            match scan.default_scope {
                Some(default_scope) => {
                    cfg.scan.default_scope = default_scope;
                },
                None => {},
            }
            match scan.exclude {
                Some(exclude) => {
                    cfg.scan.exclude = exclude;
                },
                None => {},
            }
        },
        None => {},
    }
    match raw.fix {
        Some(fix) => {
            match fix.default_risk_max {
                Some(default_risk_max) => {
                    cfg.fix.default_risk_max = default_risk_max;
                },
                None => {},
            }
        },
        None => {},
    }
    match raw.privacy {
        Some(privacy) => {
            match privacy.mask_home {
                Some(mask_home) => {
                    cfg.privacy.mask_home = mask_home;
                },
                None => {},
            }
        },
        None => {},
    }
    match raw.report {
        Some(report) => {
            match report.include_evidence {
                Some(include_evidence) => {
                    cfg.report.include_evidence = include_evidence;
                },
                None => {},
            }
        },
        None => {},
    }
}

/// The configuration file's place under the home directory.
pub fn default_config_path(home_dir: &str) -> (r: String)
    ensures
        r@ == path_join(home_dir@, ".config/macdiet/config.toml"@),
{
    crate::trash::path_join_exec(home_dir, ".config/macdiet/config.toml")
}

/// The boolean words a configuration value or environment override may
/// use, matched after trimming and lowercasing.
pub open spec fn bool_word(s: Seq<char>) -> Option<bool> {
    let w = lower_seq(trim_spec(s));
    if w == "1"@ || w == "true"@ || w == "yes"@ || w == "on"@ {
        Some(true)
    } else if w == "0"@ || w == "false"@ || w == "no"@ || w == "off"@ {
        Some(false)
    } else {
        None
    }
}

pub fn parse_bool(s: &str) -> (r: Option<bool>)
    ensures
        r == bool_word(s@),
{
    let w = to_ascii_lower(trim(s));
    let ws = w.as_str();
    if str_eq(ws, "1") || str_eq(ws, "true") || str_eq(ws, "yes") || str_eq(ws, "on") {
        Some(true)
    } else if str_eq(ws, "0") || str_eq(ws, "false") || str_eq(ws, "no") || str_eq(ws, "off") {
        Some(false)
    } else {
        None
    }
}

/// The risk-ceiling words accepted from configuration or environment: an
/// optional `<=` prefix, then a case-insensitive level name.
pub open spec fn risk_word(s: Seq<char>) -> Option<RiskLevel> {
    let t = trim_spec(s);
    let u = if crate::text::has_prefix(t, "<="@) {
        trim_spec(t.subrange(2, t.len() as int))
    } else {
        t
    };
    let w = lower_seq(u);
    if w == "r0"@ {
        Some(RiskLevel::R0)
    } else if w == "r1"@ {
        Some(RiskLevel::R1)
    } else if w == "r2"@ {
        Some(RiskLevel::R2)
    } else if w == "r3"@ {
        Some(RiskLevel::R3)
    } else {
        None
    }
}

pub fn parse_risk_level(s: &str) -> (r: Option<RiskLevel>)
    ensures
        r == risk_word(s@),
{
    let t = trim(s);
    let u = if crate::text::starts_with(t, "<=") {
        let n = t.unicode_len();
        proof {
            reveal_strlit("<=");
        }
        trim(t.substring_char(2, n))
    } else {
        t
    };
    let w = to_ascii_lower(u);
    let ws = w.as_str();
    if str_eq(ws, "r0") {
        Some(RiskLevel::R0)
    } else if str_eq(ws, "r1") {
        Some(RiskLevel::R1)
    } else if str_eq(ws, "r2") {
        Some(RiskLevel::R2)
    } else if str_eq(ws, "r3") {
        Some(RiskLevel::R3)
    } else {
        None
    }
}

} // verus!

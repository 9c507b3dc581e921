use archlint::detectors::Severity;
use archlint::rule_resolver::{FullRuleConfig, ResolvedRuleConfig, RuleConfig, RuleOverride, RuleSeverity, RulesConfig};

fn s(x: &str) -> String {
    x.to_string()
}

fn config() -> RulesConfig {
    RulesConfig {
        rules: vec![
            (s("god_module"), RuleConfig::Short(RuleSeverity::Error)),
            (
                s("large_file"),
                RuleConfig::Full(FullRuleConfig {
                    enabled: None,
                    severity: Some(RuleSeverity::Warn),
                    exclude: vec![s("**/gen/**")],
                    options: Some(vec![(s("lines"), s("500")), (s("mode"), s("strict"))]),
                }),
            ),
        ],
        overrides: vec![
            RuleOverride { files: vec![s("src/legacy/**")], rules: vec![(s("god_module"), RuleConfig::Short(RuleSeverity::Off))] },
            RuleOverride {
                files: vec![s("[invalid"), s("src/**/*.ts")],
                rules: vec![(
                    s("large_file"),
                    RuleConfig::Full(FullRuleConfig {
                        enabled: Some(true),
                        severity: None,
                        exclude: vec![],
                        options: Some(vec![(s("lines"), s("900")), (s("extra"), s("1"))]),
                    }),
                )],
            },
        ],
    }
}

#[test]
fn rule_severity_table() {
    let mut enabled = true;
    let mut severity = Severity::High;
    ResolvedRuleConfig::apply_severity(RuleSeverity::Off, &mut enabled, &mut severity);
    assert!(!enabled);
    assert_eq!(severity, Severity::High);
    ResolvedRuleConfig::apply_severity(RuleSeverity::Info, &mut enabled, &mut severity);
    assert!(enabled);
    assert_eq!(severity, Severity::Low);
    ResolvedRuleConfig::apply_severity(RuleSeverity::Critical, &mut enabled, &mut severity);
    assert_eq!(severity, Severity::Critical);
}

#[test]
fn unknown_detector_gets_defaults() {
    let r = ResolvedRuleConfig::resolve(&config(), "cycles", Some("src/a.ts"));
    assert!(r.enabled);
    assert_eq!(r.severity, Severity::Medium);
    assert!(r.exclude.is_empty());
    assert!(r.options.is_empty());
}

#[test]
fn base_rule_then_overrides() {
    let r = ResolvedRuleConfig::resolve(&config(), "god_module", None);
    assert!(r.enabled);
    assert_eq!(r.severity, Severity::High);
    let r = ResolvedRuleConfig::resolve(&config(), "god_module", Some("src/legacy/old.ts"));
    assert!(!r.enabled);
    assert_eq!(r.severity, Severity::High);
    let r = ResolvedRuleConfig::resolve(&config(), "god_module", Some("src/new.ts"));
    assert!(r.enabled);
}

#[test]
fn options_merge_in_place() {
    let r = ResolvedRuleConfig::resolve(&config(), "large_file", Some("src/x/a.ts"));
    assert_eq!(r.severity, Severity::Medium);
    assert_eq!(r.exclude, vec![s("**/gen/**")]);
    assert_eq!(r.options, vec![(s("lines"), s("900")), (s("mode"), s("strict")), (s("extra"), s("1"))]);
    assert_eq!(r.get_option("lines"), Some(s("900")));
    assert_eq!(r.get_option("missing"), None);
    let r = ResolvedRuleConfig::resolve(&config(), "large_file", Some("lib/a.js"));
    assert_eq!(r.options, vec![(s("lines"), s("500")), (s("mode"), s("strict"))]);
}

#[test]
fn path_matching_skips_bad_patterns() {
    assert!(ResolvedRuleConfig::matches_path("src/a/b.ts", &vec![s("[bad"), s("src/**/*.ts")]));
    assert!(!ResolvedRuleConfig::matches_path("src/a/b.ts", &vec![s("[bad")]));
    assert!(!ResolvedRuleConfig::matches_path("x", &vec![]));
}

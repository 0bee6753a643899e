use secret_squirrel::config::SeverityLevel;
use secret_squirrel::display::{style_line, LineStyle};

#[test]
fn the_floor_line_is_parted_into_key_and_value() {
    assert_eq!(
        style_line("severity: HIGH"),
        Some(LineStyle::Floor { key: "severity".into(), value: "HIGH".into() })
    );
    // the first colon and blank part the line
    assert_eq!(
        style_line("severity: a: b"),
        Some(LineStyle::Floor { key: "severity".into(), value: "a: b".into() })
    );
}

#[test]
fn the_severity_of_a_rule_is_shown_by_its_level() {
    assert_eq!(
        style_line("    severity: critical"),
        Some(LineStyle::RuleSeverity {
            indent: "    ".into(),
            key: "severity".into(),
            value: "critical".into(),
            level: SeverityLevel::Critical,
        })
    );
    assert_eq!(
        style_line("  é severity: Medium"),
        Some(LineStyle::RuleSeverity {
            indent: "  é ".into(),
            key: "severity".into(),
            value: "Medium".into(),
            level: SeverityLevel::Medium,
        })
    );
    assert_eq!(
        style_line("  x_severity: other"),
        Some(LineStyle::RuleSeverity {
            indent: "  x_".into(),
            key: "severity".into(),
            value: "other".into(),
            level: SeverityLevel::Low,
        })
    );
}

#[test]
fn a_severity_without_a_value_has_no_showing() {
    assert_eq!(style_line("severity:"), None);
    assert_eq!(style_line("severity:HIGH"), None);
    assert_eq!(style_line("  severity:"), None);
}

#[test]
fn other_lines_are_items_or_plain() {
    assert_eq!(style_line("patterns:"), Some(LineStyle::Plain));
    assert_eq!(style_line("- tests/*"), Some(LineStyle::Item));
    // a heading wins over an item
    assert_eq!(style_line("- odd:"), Some(LineStyle::Plain));
    assert_eq!(style_line("  regex: abc"), Some(LineStyle::Plain));
    assert_eq!(style_line(""), Some(LineStyle::Plain));
    assert_eq!(style_line("-x"), Some(LineStyle::Plain));
}

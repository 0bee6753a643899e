use secret_squirrel::batch::{plan_batches, Batch};
use secret_squirrel::cancel::{may_continue, still_running};
use secret_squirrel::fileset::FileSet;
use secret_squirrel::rules::{same_text, Pattern, PatternSet};
use secret_squirrel::severity::SeverityLevel;

fn rule(regex: &str, severity: &str) -> Pattern {
    Pattern { description: None, regex: regex.into(), severity: severity.into() }
}

#[test]
fn a_rule_set_keeps_the_order_of_first_insertion() {
    let mut set = PatternSet::new();
    assert!(set.is_empty());
    assert!(set.insert("b".into(), rule("1", "low")).is_none());
    assert!(set.insert("a".into(), rule("2", "high")).is_none());
    assert!(set.insert("c".into(), rule("3", "low")).is_none());
    // a known name is replaced where it stands
    let previous = set.insert("a".into(), rule("4", "critical"));
    assert_eq!(previous, Some(rule("2", "high")));
    assert_eq!(set.len(), 3);
    let names: Vec<_> = (0..set.len()).map(|i| set.entry(i).name.clone()).collect();
    assert_eq!(names, vec!["b", "a", "c"]);
    assert_eq!(set.get("a"), Some(&rule("4", "critical")));
    assert_eq!(set.get("missing"), None);
    assert_eq!(set.position("c"), Some(2));
    assert!(set.contains_key("b"));
    assert!(!set.contains_key("B"));
}

#[test]
fn a_floor_keeps_the_rules_at_or_above_it_in_order() {
    let mut set = PatternSet::new();
    set.insert("l".into(), rule("1", "low"));
    set.insert("c".into(), rule("2", "CRITICAL"));
    set.insert("m".into(), rule("3", "Medium"));
    set.insert("h".into(), rule("4", "high"));
    set.insert("u".into(), rule("5", "unknown"));
    let names = |s: &PatternSet| (0..s.len()).map(|i| s.entry(i).name.clone()).collect::<Vec<_>>();
    assert_eq!(names(&set.at_least(None)), vec!["l", "c", "m", "h", "u"]);
    assert_eq!(names(&set.at_least(Some(SeverityLevel::Low))), vec!["l", "c", "m", "h", "u"]);
    assert_eq!(names(&set.at_least(Some(SeverityLevel::Medium))), vec!["c", "m", "h"]);
    assert_eq!(names(&set.at_least(Some(SeverityLevel::High))), vec!["c", "h"]);
    assert_eq!(names(&set.at_least(Some(SeverityLevel::Critical))), vec!["c"]);
    assert_eq!(rule("x", "HiGh").level(), SeverityLevel::High);
    assert!(rule("x", "high").admitted(Some(SeverityLevel::High)));
    assert!(!rule("x", "medium").admitted(Some(SeverityLevel::High)));
    assert!(rule("x", "medium").admitted(None));
}

#[test]
fn severity_levels_are_ordered() {
    assert!(SeverityLevel::Low < SeverityLevel::Medium);
    assert!(SeverityLevel::Medium < SeverityLevel::High);
    assert!(SeverityLevel::High < SeverityLevel::Critical);
    assert!(SeverityLevel::High.meets(&SeverityLevel::High));
    assert!(SeverityLevel::Critical.meets(&SeverityLevel::Low));
    assert!(!SeverityLevel::Medium.meets(&SeverityLevel::High));
    assert_eq!(SeverityLevel::from_lowercase("high"), SeverityLevel::High);
    assert_eq!(SeverityLevel::from_lowercase("HIGH"), SeverityLevel::Low);
}

#[test]
fn texts_are_compared_by_their_characters() {
    assert!(same_text("replace", "replace"));
    assert!(!same_text("replace", "Replace"));
    assert!(same_text("", ""));
}

#[test]
fn batches_cut_the_files_into_runs_of_at_most_the_limit() {
    assert_eq!(plan_batches(0, 3), vec![]);
    assert_eq!(
        plan_batches(7, 3),
        vec![Batch { start: 0, end: 3 }, Batch { start: 3, end: 6 }, Batch { start: 6, end: 7 }]
    );
    assert_eq!(plan_batches(6, 3), vec![Batch { start: 0, end: 3 }, Batch { start: 3, end: 6 }]);
    assert_eq!(plan_batches(2, 10), vec![Batch { start: 0, end: 2 }]);
    assert_eq!(plan_batches(3, 1).len(), 3);
    assert_eq!(plan_batches(usize::MAX, usize::MAX), vec![Batch { start: 0, end: usize::MAX }]);
}

#[test]
fn a_file_set_holds_each_path_once() {
    let mut set = FileSet::new();
    assert!(set.is_empty());
    assert!(set.insert("/r/a".into()));
    assert!(set.insert("/r/b".into()));
    assert!(!set.insert("/r/a".into()));
    assert_eq!(set.len(), 2);
    assert!(set.contains("/r/a"));
    assert!(!set.contains("/r/c"));
    assert_eq!(set.get(0), "/r/a");
    assert_eq!(set.get(1), "/r/b");
}

#[test]
fn a_scan_goes_on_while_its_signal_reads_true() {
    assert!(may_continue(None));
    assert!(may_continue(Some(true)));
    assert!(!may_continue(Some(false)));
    assert!(still_running(None));
    assert!(still_running(Some(&std::sync::atomic::AtomicBool::new(true))));
    assert!(!still_running(Some(&std::sync::atomic::AtomicBool::new(false))));
}

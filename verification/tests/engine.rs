use secret_squirrel::classify::{classify, Classification, FileTask, LARGE_FILE_THRESHOLD};
use secret_squirrel::config::{Config, Pattern};
use secret_squirrel::events::ProgressEvent;
use secret_squirrel::resolver::{IgnorePart, IgnoreResolver, ScanError};
use secret_squirrel::regex::LineHit;
use secret_squirrel::scan::{rule_progress, select_findings, ScanPlan};
use secret_squirrel::scanner::{FileEntry, Scanner};
use std::sync::atomic::AtomicBool;

fn rule(regex: &str, severity: &str) -> Pattern {
    Pattern { description: None, regex: regex.to_string(), severity: severity.to_string() }
}

fn two_rules() -> Config {
    let mut config = Config::default();
    config.patterns.insert("test-key".into(), rule("^API_KEY=([A-Za-z0-9]+)$", "high"));
    config.patterns.insert("password".into(), rule("^password=([^\\s]+)$", "medium"));
    config
}

fn entry(path: &str, text: &str) -> FileEntry {
    FileEntry { path: path.to_string(), size: text.len() as u64, content: Some(text.as_bytes().to_vec()) }
}

fn found(scanner: &Scanner) -> Vec<(String, String, u64, String)> {
    scanner
        .matches()
        .iter()
        .map(|m| (m.pattern_name.clone(), m.file_path.clone(), m.line_number, m.line.clone()))
        .collect()
}

#[test]
fn findings_carry_rule_path_line_number_and_raw_line() {
    let config = two_rules();
    let files = vec![entry("/r/config.txt", "first\nAPI_KEY=abc123\n\npassword=secret123\n")];
    let mut scanner = Scanner::new(&config);
    scanner.scan_path("/r", &files, 10, None).unwrap();
    assert_eq!(
        found(&scanner),
        vec![
            ("test-key".to_string(), "/r/config.txt".to_string(), 2, "API_KEY=abc123\n".to_string()),
            ("password".to_string(), "/r/config.txt".to_string(), 4, "password=secret123\n".to_string()),
        ]
    );
    assert_eq!(scanner.matches()[0].pattern.severity, "high");
}

#[test]
fn every_rule_that_matches_a_line_reports_it() {
    let mut config = Config::default();
    config.patterns.insert("generic".into(), rule("KEY=", "low"));
    config.patterns.insert("vendor".into(), rule("^AWS_KEY=AKIA", "critical"));
    let files = vec![entry("/r/a.env", "AWS_KEY=AKIA1234\n")];
    let mut scanner = Scanner::new(&config);
    scanner.scan_path("/r", &files, 10, None).unwrap();
    let names: Vec<_> = scanner.matches().iter().map(|m| m.pattern_name.as_str()).collect();
    assert_eq!(names, vec!["generic", "vendor"]);
    assert_eq!(scanner.matches()[0].line, scanner.matches()[1].line);
    let summary = scanner.summary();
    assert_eq!(summary.matches, 2);
    assert_eq!(summary.files_with_matches, 1);
    assert_eq!(summary.scanned_files, 1);
}

#[test]
fn a_file_without_findings_still_counts_as_scanned() {
    let config = two_rules();
    let files = vec![entry("/r/clean.txt", "nothing to see here\n")];
    let mut scanner = Scanner::new(&config);
    scanner.scan_path("/r", &files, 10, None).unwrap();
    assert!(scanner.matches().is_empty());
    assert!(scanner.scanned_files().contains("/r/clean.txt"));
    assert_eq!(scanner.scanned_files().len(), 1);
    assert!(scanner.files_with_matches().is_empty());
}

#[test]
fn events_of_a_file_follow_the_rules_in_order() {
    let config = two_rules();
    let files = vec![entry("/r/config.txt", "API_KEY=abc123\npassword=secret123\n")];
    let mut scanner = Scanner::new(&config);
    let outcome = scanner.scan_path("/r", &files, 10, None).unwrap();
    let shown: Vec<String> = outcome
        .events
        .iter()
        .map(|e| match e {
            ProgressEvent::FileStarted { path, total_rules } => format!("start {} {}", path, total_rules),
            ProgressEvent::RuleChecked { path, rule_name, rules_done, rules_total } => {
                format!("check {} {} {}/{}", path, rule_name, rules_done, rules_total)
            }
            ProgressEvent::MatchFound { path } => format!("found {}", path),
            ProgressEvent::FileCompleted { path, had_match } => format!("done {} {}", path, had_match),
        })
        .collect();
    assert_eq!(
        shown,
        vec![
            "start /r/config.txt 2",
            "check /r/config.txt test-key 1/2",
            "found /r/config.txt",
            "check /r/config.txt password 2/2",
            "found /r/config.txt",
            "done /r/config.txt true",
        ]
    );
}

#[test]
fn repeated_scans_try_the_rules_in_the_same_order() {
    let config = two_rules();
    let files = vec![entry("/r/config.txt", "password=x\n")];
    let mut order = Vec::new();
    for _ in 0..3 {
        let mut scanner = Scanner::new(&config);
        let outcome = scanner.scan_path("/r", &files, 10, None).unwrap();
        let names: Vec<String> = outcome
            .events
            .iter()
            .filter_map(|e| match e {
                ProgressEvent::RuleChecked { rule_name, .. } => Some(rule_name.clone()),
                _ => None,
            })
            .collect();
        order.push(names);
    }
    assert_eq!(order[0], vec!["test-key", "password"]);
    assert_eq!(order[0], order[1]);
    assert_eq!(order[1], order[2]);
}

#[test]
fn a_higher_floor_finds_a_subset() {
    let mut config = Config::default();
    config.patterns.insert("a".into(), rule("aaa", "low"));
    config.patterns.insert("b".into(), rule("bbb", "medium"));
    config.patterns.insert("c".into(), rule("ccc", "high"));
    config.patterns.insert("d".into(), rule("ddd", "critical"));
    let files = vec![entry("/r/f.txt", "aaa\nbbb\nccc\nddd\naaa ddd\n")];
    let mut previous: Option<Vec<(String, String, u64, String)>> = None;
    let mut counts = Vec::new();
    for floor in ["critical", "high", "medium", "low"] {
        config.set_severity_filter(floor);
        let mut scanner = Scanner::new(&config);
        scanner.scan_path("/r", &files, 10, None).unwrap();
        let now = found(&scanner);
        if let Some(stricter) = &previous {
            for m in stricter {
                assert!(now.contains(m));
            }
        }
        counts.push(now.len());
        previous = Some(now);
    }
    assert_eq!(counts, vec![2, 3, 4, 6]);
}

#[test]
fn ignored_lines_are_never_reported_by_any_rule() {
    let mut config = Config::default();
    config.patterns.insert("key".into(), rule("API_KEY=", "high"));
    config.patterns.insert("any".into(), rule("ignored", "low"));
    config.ignore_patterns = Some(vec!["TEST_API_KEY=.*".into(), "^#".into()]);
    let files = vec![entry("/r/test.txt", "TEST_API_KEY=ignored123\n# API_KEY=x\nAPI_KEY=real\n")];
    let mut scanner = Scanner::new(&config);
    scanner.scan_path("/r", &files, 10, None).unwrap();
    assert_eq!(
        found(&scanner),
        vec![("key".to_string(), "/r/test.txt".to_string(), 3, "API_KEY=real\n".to_string())]
    );
    // the file is still scanned
    assert!(scanner.scanned_files().contains("/r/test.txt"));
}

#[test]
fn an_empty_list_of_ignore_patterns_ignores_nothing() {
    let mut config = two_rules();
    config.ignore_patterns = Some(vec![]);
    config.ignore_paths = Some(vec![]);
    let files = vec![entry("/r/config.txt", "API_KEY=abc123\n")];
    let mut scanner = Scanner::new(&config);
    scanner.scan_path("/r", &files, 10, None).unwrap();
    assert_eq!(scanner.matches().len(), 1);
}

#[test]
fn ignored_paths_are_neither_scanned_nor_reported() {
    let mut config = two_rules();
    config.ignore_paths = Some(vec!["tests/*".into(), "*.lock".into(), "!keep.lock".into()]);
    let files = vec![
        entry("/r/tests/test.txt", "API_KEY=shouldnotfindthis\n"),
        entry("/r/Cargo.lock", "API_KEY=abc\n"),
        entry("/r/keep.lock", "API_KEY=def\n"),
        entry("/r/src/main.rs", "API_KEY=ghi\n"),
    ];
    let mut scanner = Scanner::new(&config);
    let outcome = scanner.scan_path("/r", &files, 10, None).unwrap();
    let paths: Vec<_> = scanner.matches().iter().map(|m| m.file_path.as_str()).collect();
    assert_eq!(paths, vec!["/r/keep.lock", "/r/src/main.rs"]);
    assert!(!scanner.scanned_files().contains("/r/tests/test.txt"));
    assert!(!scanner.scanned_files().contains("/r/Cargo.lock"));
    assert_eq!(scanner.scanned_files().len(), 2);
    for e in &outcome.events {
        let path = match e {
            ProgressEvent::FileStarted { path, .. } => path,
            ProgressEvent::RuleChecked { path, .. } => path,
            ProgressEvent::MatchFound { path } => path,
            ProgressEvent::FileCompleted { path, .. } => path,
        };
        assert!(path != "/r/tests/test.txt" && path != "/r/Cargo.lock");
    }
}

#[test]
fn a_binary_file_is_left_out_without_any_event() {
    let config = two_rules();
    let mut bytes = b"API_KEY=abc123\n".to_vec();
    bytes.push(0);
    let files = vec![FileEntry { path: "/r/blob.bin".into(), size: bytes.len() as u64, content: Some(bytes) }];
    let mut scanner = Scanner::new(&config);
    let outcome = scanner.scan_path("/r", &files, 10, None).unwrap();
    assert!(scanner.matches().is_empty());
    assert!(scanner.scanned_files().is_empty());
    assert!(outcome.events.is_empty());
    assert_eq!(outcome.files_seen, 1);
}

#[test]
fn an_unreadable_file_is_left_out() {
    let config = two_rules();
    let files = vec![
        FileEntry { path: "/r/gone.txt".into(), size: 10, content: None },
        entry("/r/config.txt", "API_KEY=abc123\n"),
    ];
    let mut scanner = Scanner::new(&config);
    scanner.scan_path("/r", &files, 10, None).unwrap();
    assert_eq!(scanner.matches().len(), 1);
    assert!(!scanner.scanned_files().contains("/r/gone.txt"));
    assert_eq!(scanner.scanned_files().len(), 1);
}

#[test]
fn classification_follows_the_leading_bytes_and_the_size() {
    let text = b"plain text".as_slice();
    assert_eq!(classify(10, Some(text)), Classification::Normal);
    assert_eq!(classify(LARGE_FILE_THRESHOLD, Some(text)), Classification::Normal);
    assert_eq!(classify(LARGE_FILE_THRESHOLD + 1, Some(text)), Classification::Large);
    assert_eq!(classify(10, None), Classification::Skipped);
    assert_eq!(classify(LARGE_FILE_THRESHOLD + 1, None), Classification::Skipped);

    let mut early = vec![b'a'; 600];
    early[511] = 0;
    assert_eq!(classify(600, Some(&early)), Classification::Binary);
    assert_eq!(classify(LARGE_FILE_THRESHOLD + 1, Some(&early)), Classification::Binary);
    let mut late = vec![b'a'; 600];
    late[512] = 0;
    assert_eq!(classify(600, Some(&late)), Classification::Normal);
    assert_eq!(classify(0, Some(&[])), Classification::Normal);
    assert!(Scanner::is_binary_file(&[1, 2, 0, 3]));
    assert!(!Scanner::is_binary_file(&[1, 2, 3]));

    let task = FileTask::new("/r/a".to_string(), LARGE_FILE_THRESHOLD + 5, Some(text));
    assert_eq!(task.classification(), Classification::Large);
    assert_eq!(task.path(), "/r/a");
    assert_eq!(task.size(), LARGE_FILE_THRESHOLD + 5);
    assert!(task.classification().is_scanned());
    assert!(!Classification::Binary.is_scanned());
    assert!(!Classification::Skipped.is_scanned());
}

#[test]
fn a_large_file_and_a_normal_file_of_the_same_content_find_the_same() {
    let config = two_rules();
    let text = "x\nAPI_KEY=abc123\npassword=secret123\n";
    let normal = vec![FileEntry {
        path: "/r/f.txt".into(),
        size: LARGE_FILE_THRESHOLD,
        content: Some(text.as_bytes().to_vec()),
    }];
    let large = vec![FileEntry {
        path: "/r/f.txt".into(),
        size: LARGE_FILE_THRESHOLD + 1,
        content: Some(text.as_bytes().to_vec()),
    }];
    let mut first = Scanner::new(&config);
    first.scan_path("/r", &normal, 10, None).unwrap();
    let mut second = Scanner::new(&config);
    second.scan_path("/r", &large, 10, None).unwrap();
    assert_eq!(found(&first).len(), 2);
    assert_eq!(found(&first), found(&second));
}

#[test]
fn an_invalid_rule_stops_the_scan_before_it_starts() {
    let mut config = two_rules();
    config.patterns.insert("broken".into(), rule("([unclosed", "high"));
    config.patterns.insert("also-broken".into(), rule("(", "high"));
    let files = vec![entry("/r/config.txt", "API_KEY=abc123\n")];
    let mut scanner = Scanner::new(&config);
    match scanner.scan_path("/r", &files, 10, None) {
        Err(ScanError::RuleCompilation { rule_name, detail }) => {
            assert_eq!(rule_name, "broken");
            assert!(!detail.is_empty());
        }
        other => panic!("unexpected: {:?}", other),
    }
    assert!(scanner.matches().is_empty());
    assert!(scanner.scanned_files().is_empty());
}

#[test]
fn a_rule_under_the_floor_is_not_compiled() {
    let mut config = two_rules();
    config.patterns.insert("broken".into(), rule("([unclosed", "low"));
    config.set_severity_filter("medium");
    let files = vec![entry("/r/config.txt", "API_KEY=abc123\n")];
    let mut scanner = Scanner::new(&config);
    scanner.scan_path("/r", &files, 10, None).unwrap();
    assert_eq!(scanner.matches().len(), 1);
}

#[test]
fn a_refused_glob_line_is_named_by_its_position() {
    let mut config = two_rules();
    config.ignore_paths = Some(vec!["ok/*".into(), "# a comment".into(), "a/{b".into(), "x/{y".into()]);
    let mut scanner = Scanner::new(&config);
    match scanner.scan_path("/r", &vec![], 10, None) {
        Err(ScanError::IgnoreConfig { part, detail }) => {
            assert_eq!(part, IgnorePart::PathLine(2));
            assert!(!detail.is_empty());
        }
        other => panic!("unexpected: {:?}", other),
    }
}

#[test]
fn a_refused_ignore_pattern_is_an_error() {
    let mut config = two_rules();
    config.ignore_patterns = Some(vec!["fine".into(), "(broken".into()]);
    let mut scanner = Scanner::new(&config);
    match scanner.scan_path("/r", &vec![], 10, None) {
        Err(ScanError::IgnoreConfig { part, .. }) => assert_eq!(part, IgnorePart::LinePattern),
        other => panic!("unexpected: {:?}", other),
    }
    let e = ScanError::IgnoreConfig { part: IgnorePart::LinePattern, detail: "why".into() };
    assert_eq!(e.message(), "invalid ignore rules: why");
    let e = ScanError::RuleCompilation { rule_name: "r".into(), detail: "why".into() };
    assert_eq!(e.message(), "invalid rule r: why");
}

#[test]
fn rules_are_refused_before_ignore_rules() {
    let mut config = two_rules();
    config.patterns.insert("broken".into(), rule("(", "high"));
    config.ignore_paths = Some(vec!["a/{b".into()]);
    let mut scanner = Scanner::new(&config);
    assert!(matches!(
        scanner.scan_path("/r", &vec![], 10, None),
        Err(ScanError::RuleCompilation { .. })
    ));
}

#[test]
fn an_error_leaves_earlier_results_in_place() {
    let mut config = two_rules();
    let files = vec![entry("/r/config.txt", "API_KEY=abc123\n")];
    config.ignore_patterns = Some(vec!["(".into()]);
    let good = two_rules();
    let mut scanner = Scanner::new(&good);
    scanner.scan_path("/r", &files, 10, None).unwrap();
    assert_eq!(scanner.matches().len(), 1);
    // a second scan replaces what was held
    scanner.scan_path("/r", &vec![], 10, None).unwrap();
    assert!(scanner.matches().is_empty());
    let mut failing = Scanner::new(&config);
    assert!(failing.scan_path("/r", &files, 10, None).is_err());
    assert!(failing.matches().is_empty());
}

#[test]
fn a_stop_signal_ends_the_scan_before_the_next_file() {
    let config = two_rules();
    let files = vec![
        entry("/r/a.txt", "API_KEY=abc123\n"),
        entry("/r/b.txt", "API_KEY=def456\n"),
    ];
    let stopped = AtomicBool::new(false);
    let mut scanner = Scanner::new(&config);
    let outcome = scanner.scan_path("/r", &files, 1, Some(&stopped)).unwrap();
    assert_eq!(outcome.files_seen, 0);
    assert!(scanner.matches().is_empty());
    assert!(scanner.scanned_files().is_empty());
    assert!(outcome.events.is_empty());

    let running = AtomicBool::new(true);
    let mut scanner = Scanner::new(&config);
    let outcome = scanner.scan_path("/r", &files, 1, Some(&running)).unwrap();
    assert_eq!(outcome.files_seen, 2);
    assert_eq!(scanner.matches().len(), 2);
    assert_eq!(scanner.scanned_files().len(), 2);
}

#[test]
fn the_batch_size_does_not_change_what_is_found() {
    let config = two_rules();
    let files: Vec<FileEntry> = (0..7)
        .map(|i| entry(&format!("/r/f{}.txt", i), &format!("API_KEY=abc{}\n", i)))
        .collect();
    let mut reference = Scanner::new(&config);
    reference.scan_path("/r", &files, 100, None).unwrap();
    assert_eq!(reference.matches().len(), 7);
    for limit in [1, 2, 3, 7, 8] {
        let mut scanner = Scanner::new(&config);
        let outcome = scanner.scan_path("/r", &files, limit, None).unwrap();
        assert_eq!(outcome.files_seen, 7);
        assert_eq!(found(&scanner), found(&reference));
    }
}

#[test]
fn a_path_is_scanned_once_in_the_set_of_scanned_paths() {
    let config = two_rules();
    let files = vec![entry("/r/a.txt", "API_KEY=abc123\n"), entry("/r/a.txt", "API_KEY=abc123\n")];
    let mut scanner = Scanner::new(&config);
    scanner.scan_path("/r", &files, 10, None).unwrap();
    assert_eq!(scanner.scanned_files().len(), 1);
    assert_eq!(scanner.matches().len(), 2);
    assert_eq!(scanner.files_with_matches().len(), 1);
}

#[test]
fn a_plan_scans_single_files() {
    let mut config = two_rules();
    config.ignore_paths = Some(vec!["vendor/".into(), "skip/*".into()]);
    config.ignore_patterns = Some(vec!["EXAMPLE".into()]);
    let plan = ScanPlan::compile(&config, "/r").unwrap();
    assert_eq!(plan.rule_count(), 2);
    assert!(plan.is_path_ignored("/r/skip/a.txt"));
    assert!(!plan.is_path_ignored("/r/src/a.txt"));
    let report = plan.scan_file("/r/src/a.txt", b"API_KEY=EXAMPLE\nAPI_KEY=abc\n");
    assert_eq!(report.path, "/r/src/a.txt");
    assert_eq!(report.matches.len(), 1);
    assert_eq!(report.matches[0].line_number, 2);
    assert!(plan.scan_entry(&entry("/r/skip/a.txt", "API_KEY=abc\n")).is_none());
    assert!(plan.scan_entry(&entry("/r/b.txt", "API_KEY=abc\n")).is_some());

    let mut scanner = Scanner::new(&config);
    let events = scanner.record(report);
    assert_eq!(events.len(), 5);
    assert_eq!(scanner.matches().len(), 1);
    assert!(scanner.scanned_files().contains("/r/src/a.txt"));
}

#[test]
fn ignore_rules_decide_lines_and_paths() {
    let resolver = IgnoreResolver::new(
        "/r",
        &Some(vec!["*.min.js".into(), "build/".into()]),
        &Some(vec!["DUMMY_.*".into(), "^example".into()]),
    )
    .unwrap();
    assert!(resolver.is_path_ignored("/r/static/app.min.js"));
    assert!(!resolver.is_path_ignored("/r/static/app.js"));
    // a glob for directories alone does not cover a file of that name
    assert!(!resolver.is_path_ignored("/r/build"));
    assert!(resolver.is_line_ignored("x DUMMY_TOKEN"));
    assert!(resolver.is_line_ignored("example=1"));
    assert!(!resolver.is_line_ignored("an example"));
    assert!(Scanner::should_ignore_match("x DUMMY_TOKEN", Some(&resolver)));
    assert!(!Scanner::should_ignore_match("x DUMMY_TOKEN", None));

    let none = IgnoreResolver::new("/r", &None, &None).unwrap();
    assert!(!none.is_path_ignored("/r/anything"));
    assert!(!none.is_line_ignored("anything"));
}

#[test]
fn the_result_of_a_scan_can_be_owned() {
    let config = two_rules();
    let files = vec![entry("/r/a.txt", "API_KEY=abc123\n"), entry("/r/b.txt", "nothing\n")];
    let mut scanner = Scanner::new(&config);
    scanner.scan_path("/r", &files, 10, None).unwrap();
    let result = scanner.into_result();
    assert_eq!(result.matches.len(), 1);
    assert_eq!(result.scanned_files.len(), 2);
}

#[test]
fn findings_are_the_reported_lines_that_are_not_ignored() {
    let pattern = rule("KEY", "high");
    let hits = vec![
        LineHit { number: 2, text: "KEY=a\n".into() },
        LineHit { number: 5, text: "KEY=b\n".into() },
        LineHit { number: 9, text: "KEY=c".into() },
    ];
    let found = select_findings("key", &pattern, "/r/f", &hits, &vec![false, true, false]);
    let shown: Vec<_> = found
        .iter()
        .map(|m| (m.pattern_name.as_str(), m.file_path.as_str(), m.line_number, m.line.as_str()))
        .collect();
    assert_eq!(shown, vec![("key", "/r/f", 2, "KEY=a\n"), ("key", "/r/f", 9, "KEY=c")]);
    assert_eq!(found[0].pattern, pattern);
    assert!(select_findings("key", &pattern, "/r/f", &hits, &vec![true, true, true]).is_empty());
    assert!(select_findings("key", &pattern, "/r/f", &vec![], &vec![]).is_empty());

    let events = rule_progress("/r/f", "key", 2, 3, 2);
    assert_eq!(events.len(), 3);
    assert!(matches!(
        &events[0],
        ProgressEvent::RuleChecked { path, rule_name, rules_done: 2, rules_total: 3 }
            if path == "/r/f" && rule_name == "key"
    ));
    assert!(matches!(&events[1], ProgressEvent::MatchFound { path } if path == "/r/f"));
    assert!(matches!(&events[2], ProgressEvent::MatchFound { path } if path == "/r/f"));
    assert_eq!(rule_progress("/r/f", "key", 1, 1, 0).len(), 1);
}

use secret_squirrel::config::{Config, Pattern};
use secret_squirrel::scanner::{FileEntry, Scanner};

fn create_test_config() -> Config {
    let mut config = Config::default();

    // Configure test patterns with exact matches
    config.patterns.insert(
        "test-key".into(),
        Pattern {
            description: Some("Test API Key".into()),
            regex: "^API_KEY=([A-Za-z0-9]+)$".into(),
            severity: "HIGH".into(),
        },
    );
    config.patterns.insert(
        "password".into(),
        Pattern {
            description: Some("Password in file".into()),
            regex: "^password=([^\\s]+)$".into(),
            severity: "MEDIUM".into(),
        },
    );
    config
}

fn file(root: &str, name: &str, text: &str) -> FileEntry {
    FileEntry {
        path: format!("{}/{}", root, name),
        size: text.len() as u64,
        content: Some(text.as_bytes().to_vec()),
    }
}

fn create_test_files(root: &str) -> Vec<FileEntry> {
    // Each pattern on its own line
    vec![
        file(root, "config.txt", "API_KEY=abc123\npassword=secret123\n"),
        file(root, "test.txt", "TEST_API_KEY=ignored123\n"),
        file(root, "clean.txt", "nothing to see here\n"),
    ]
}

#[test]
fn test_basic_scan() {
    let root = "/tmp/project";
    let files = create_test_files(root);

    let config = create_test_config();
    let mut scanner = Scanner::new(&config);
    scanner.scan_path(root, &files, 10, None).unwrap();

    println!("Found matches: {:#?}", scanner.matches());

    assert_eq!(scanner.matches().len(), 2, "Expected exactly 2 matches");

    // Check exact matches
    let matches: Vec<_> = scanner.matches().iter().map(|m| &m.pattern_name).collect();
    assert!(
        matches.contains(&&"test-key".to_string()),
        "Should find test-key pattern"
    );
    assert!(
        matches.contains(&&"password".to_string()),
        "Should find password pattern"
    );
}

#[test]
fn test_severity_filter() {
    let root = "/tmp/project";
    let files = create_test_files(root);

    let mut config = create_test_config();

    // First verify we get both matches
    let mut scanner = Scanner::new(&config);
    scanner.scan_path(root, &files, 10, None).unwrap();
    assert_eq!(
        scanner.matches().len(),
        2,
        "Should find both patterns initially"
    );

    // Clear scanner and set severity
    config.set_severity_filter("high");
    let mut scanner = Scanner::new(&config);
    scanner.scan_path(root, &files, 10, None).unwrap();

    println!("Found matches with HIGH filter: {:#?}", scanner.matches());

    assert_eq!(
        scanner.matches().len(),
        1,
        "Should only find HIGH severity pattern"
    );
    assert_eq!(scanner.matches()[0].pattern_name, "test-key");
    assert_eq!(scanner.matches()[0].pattern.severity, "HIGH");
}

#[test]
fn test_ignore_patterns() {
    let root = "/tmp/project";
    let files = create_test_files(root);

    let mut config = create_test_config();
    config.ignore_patterns = Some(vec!["TEST_API_KEY=.*".into()]);

    let mut scanner = Scanner::new(&config);
    scanner.scan_path(root, &files, 10, None).unwrap();

    assert!(!scanner
        .matches()
        .iter()
        .any(|m| m.line.contains("TEST_API_KEY")));
}

#[test]
fn test_ignore_paths() {
    let root = "/tmp/project";
    let mut files = create_test_files(root);

    // A file in a directory that should be ignored
    files.push(file(root, "tests/test.txt", "API_KEY=should_not_find_this\n"));

    let mut config = create_test_config();
    config.ignore_paths = Some(vec!["tests/*".into()]);

    let mut scanner = Scanner::new(&config);
    scanner.scan_path(root, &files, 10, None).unwrap();

    assert!(!scanner
        .matches()
        .iter()
        .any(|m| m.file_path.contains("tests/")));
    assert!(!scanner.scanned_files().contains("/tmp/project/tests/test.txt"));
    assert_eq!(scanner.scanned_files().len(), 3);
}

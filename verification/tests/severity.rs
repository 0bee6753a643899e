use secret_squirrel::severity::SeverityLevel;

#[test]
fn severity_words_are_read_without_regard_to_case() {
    assert_eq!(SeverityLevel::from("critical"), SeverityLevel::Critical);
    assert_eq!(SeverityLevel::from("HIGH"), SeverityLevel::High);
    assert_eq!(SeverityLevel::from("Medium"), SeverityLevel::Medium);
    assert_eq!(SeverityLevel::from("low"), SeverityLevel::Low);
    assert_eq!(SeverityLevel::from("anything else"), SeverityLevel::Low);
}

use busy_nas::project::ProjectName;

#[test]
fn accepts_simple_lowercase_slugs() {
    assert_eq!(ProjectName::parse("busy-nas-2").unwrap().as_str(), "busy-nas-2");
    assert_eq!(ProjectName::parse("2026-plan").unwrap().as_str(), "2026-plan");
}

#[test]
fn rejects_paths_and_non_slug_names() {
    for value in ["", ".", "..", "a/b", "a\\b", "UPPER", "-starts-dash", "has_space"] {
        assert!(ProjectName::parse(value).is_err(), "{value} should be rejected");
    }
}

#[test]
fn names_are_at_most_sixty_three_characters() {
    let longest = "a".repeat(63);
    assert_eq!(ProjectName::parse(&longest).unwrap().as_str(), longest);
    assert!(ProjectName::parse(&"a".repeat(64)).is_err());
    assert!(ProjectName::parse("caf\u{e9}").is_err());
}

#[test]
fn a_name_parses_back_to_itself() {
    let name = ProjectName::parse("demo-1").unwrap();
    let again = ProjectName::parse(name.as_str()).unwrap();
    assert_eq!(again, name);
    assert_eq!(name.duplicate(), name);
}

#[test]
fn rejected_names_are_reported_with_their_text() {
    let error = ProjectName::parse("Bad Name").unwrap_err();
    assert_eq!(
        error.message(),
        "invalid project name `Bad Name`; use a lowercase slug such as `my-project`"
    );
}

#[test]
fn names_parse_from_text() {
    let name: ProjectName = "demo".parse().unwrap();
    assert_eq!(name.as_str(), "demo");
    assert!("Demo".parse::<ProjectName>().is_err());
}

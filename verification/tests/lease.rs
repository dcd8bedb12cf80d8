use busy_nas::clock::UtcTime;
use busy_nas::lease::{Lease, LegacyLease, FORMAT_VERSION};
use busy_nas::project::ProjectName;
use busy_nas::state::LeaseState;

fn at_noon() -> UtcTime {
    // 2026-09-05T12:00:00Z
    UtcTime { secs: 1_788_609_600, nanos: 0 }
}

fn lease(version: u8, project: &str, token: &str) -> Lease {
    Lease {
        format_version: version,
        project: project.to_string(),
        token: token.to_string(),
        created_at: at_noon(),
    }
}

fn is_v4_text(token: &str) -> bool {
    let bytes = token.as_bytes();
    token.len() == 36
        && [8, 13, 18, 23].iter().all(|&i| bytes[i] == b'-')
        && bytes[14] == b'4'
        && matches!(bytes[19], b'8' | b'9' | b'a' | b'b')
        && token
            .chars()
            .all(|c| c == '-' || c.is_ascii_digit() || ('a'..='f').contains(&c))
}

#[test]
fn lease_metadata_rejects_unknown_versions() {
    let project = ProjectName::parse("demo").unwrap();
    let error = Lease::from_parsed(Ok(lease(2, "demo", "token")), &project).unwrap_err();
    assert!(error.message().contains("unsupported format version 2"));
}

#[test]
fn lease_metadata_accepts_this_version_for_this_project() {
    let project = ProjectName::parse("demo").unwrap();
    let read = Lease::from_parsed(Ok(lease(FORMAT_VERSION, "demo", "token")), &project).unwrap();
    assert_eq!(read.token, "token");
    assert_eq!(read.created_at, at_noon());
}

#[test]
fn lease_metadata_rejects_other_projects_and_empty_tokens() {
    let project = ProjectName::parse("demo").unwrap();
    let error = Lease::from_parsed(Ok(lease(1, "other", "t")), &project).unwrap_err();
    assert_eq!(
        error.message(),
        "invalid lease metadata: project is `other`, expected `demo`"
    );
    let error = Lease::from_parsed(Ok(lease(1, "demo", "")), &project).unwrap_err();
    assert_eq!(error.message(), "invalid lease metadata: token must not be empty");
    let error = Lease::from_parsed(Err("expected `=`".to_string()), &project).unwrap_err();
    assert_eq!(error.message(), "invalid lease metadata: expected `=`");
}

#[test]
fn new_leases_carry_a_version_four_token() {
    let project = ProjectName::parse("demo").unwrap();
    let first = Lease::new(&project);
    let second = Lease::new(&project);
    assert_eq!(first.format_version, FORMAT_VERSION);
    assert_eq!(first.project, "demo");
    assert!(is_v4_text(&first.token), "{}", first.token);
    assert_ne!(first.token, second.token);
    assert!(first.created_at.secs > 1_700_000_000);
    assert!(first.validate(&project).is_ok());
}

#[test]
fn legacy_records_are_read_as_leases() {
    let project = ProjectName::parse("demo").unwrap();
    let old = LegacyLease {
        project: "demo".to_string(),
        token: "legacy-token".to_string(),
        created_at: at_noon(),
    };
    let read = Lease::from_legacy(Ok(old), &project).unwrap();
    assert_eq!(read.token, "legacy-token");
    assert_eq!(read.format_version, FORMAT_VERSION);

    let other = LegacyLease {
        project: "other".to_string(),
        token: "t".to_string(),
        created_at: at_noon(),
    };
    let error = Lease::from_legacy(Ok(other), &project).unwrap_err();
    assert_eq!(error.message(), "no local lease state exists for project `demo`");
}

#[test]
fn lease_state_records_are_checked_against_the_project() {
    let project = ProjectName::parse("demo").unwrap();
    let state = LeaseState::new(&project);
    assert!(is_v4_text(&state.token));
    let read = LeaseState::from_parsed(Ok(state.clone()), &project).unwrap();
    assert_eq!(read.token, state.token);
    let other = ProjectName::parse("other").unwrap();
    let error = LeaseState::from_parsed(Ok(state), &other).unwrap_err();
    assert_eq!(error.message(), "no local lease state exists for project `other`");
    let error = LeaseState::from_parsed(Err("bad".to_string()), &project).unwrap_err();
    assert_eq!(error.message(), "could not parse configuration: bad");
}

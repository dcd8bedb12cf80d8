use busy_nas::config::{default_remote_root, default_snapshot_retention, Config};

fn settings(
    host: &str,
    user: Option<&str>,
    root: Option<&str>,
    workspace_root: &str,
    retention: Option<usize>,
) -> busy_nas::error::Result<Config> {
    Config::from_settings(
        host.to_string(),
        user.map(str::to_string),
        root.map(str::to_string),
        workspace_root.to_string(),
        retention,
    )
}

#[test]
fn parses_user_configuration_and_defaults() {
    let config = settings("nas.home", Some("developer"), None, "/Users/ada/Developer", None).unwrap();

    assert_eq!(config.nas.root, "/srv/developer");
    assert_eq!(config.snapshot_retention, 20);
    assert_eq!(config.remote_target(), "developer@nas.home");
}

#[test]
fn rejects_unsafe_remote_root() {
    let error = settings("nas", None, Some("/srv/developer/../other"), "/tmp/workspace", None)
        .unwrap_err();
    assert!(error.message().contains("nas.root"));
}

#[test]
fn defaults_are_the_documented_ones() {
    assert_eq!(default_remote_root(), "/srv/developer");
    assert_eq!(default_snapshot_retention(), 20);
}

#[test]
fn remote_target_without_user_is_the_host() {
    let config = settings("nas.example", None, None, "/tmp/w", Some(3)).unwrap();
    assert_eq!(config.remote_target(), "nas.example");
    assert_eq!(config.snapshot_retention, 3);
}

#[test]
fn each_rule_names_what_it_rejects() {
    let cases: [(&str, Option<&str>, Option<&str>, &str, Option<usize>, &str); 7] = [
        ("nas home", None, None, "/tmp/w", None, "invalid configuration: nas.host may contain only letters, digits, dots, or hyphens"),
        ("", None, None, "/tmp/w", None, "invalid configuration: nas.host may contain only letters, digits, dots, or hyphens"),
        ("nas", Some("dev;rm"), None, "/tmp/w", None, "invalid configuration: nas.user may contain only letters, digits, dots, or hyphens"),
        ("nas", None, Some("srv/relative"), "/tmp/w", None, "invalid configuration: nas.root must be an absolute, shell-safe path without traversal components"),
        ("nas", None, Some("/srv/with space"), "/tmp/w", None, "invalid configuration: nas.root must be an absolute, shell-safe path without traversal components"),
        ("nas", None, None, "relative/w", None, "invalid configuration: workspace_root must be an absolute local path"),
        ("nas", None, None, "/tmp/a:b", None, "invalid configuration: workspace_root may not contain ':' because rsync would treat it as a remote endpoint"),
    ];
    for (host, user, root, workspace, retention, message) in cases {
        let error = settings(host, user, root, workspace, retention).unwrap_err();
        assert_eq!(error.message(), message);
    }
    let error = settings("nas", None, None, "/tmp/w", Some(0)).unwrap_err();
    assert_eq!(error.message(), "invalid configuration: snapshot_retention must be at least 1");
}

#[test]
fn validate_accepts_a_safe_configuration() {
    let config = settings("nas-1.home", Some("dev.user"), Some("/srv/a_b/c-d.e"), "/home/x/Developer", Some(1)).unwrap();
    assert!(config.validate().is_ok());
}

use busy_nas::filters::{excludes, rsync_filter_args};

#[test]
fn filters_are_constructed_as_rsync_argument_pairs() {
    let args = rsync_filter_args();
    assert_eq!(args.len(), excludes().len() * 2);
    assert_eq!(&args[..4], ["--exclude", "node_modules/", "--exclude", "target/"]);
    assert!(args.windows(2).any(|pair| pair == ["--exclude", "result-*"]));
}

#[test]
fn excluded_patterns_are_the_local_build_artifacts() {
    assert_eq!(
        excludes(),
        ["node_modules/", "target/", ".direnv/", ".devenv/", "result", "result-*"]
    );
    let args = rsync_filter_args();
    for (i, pattern) in excludes().iter().enumerate() {
        assert_eq!(args[2 * i], "--exclude");
        assert_eq!(&args[2 * i + 1], pattern);
    }
}

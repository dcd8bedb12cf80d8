use busy_nas::workspace::{reject_linux_network_mount, reject_macos_network_filesystem, unescape_mount_path};

const MOUNTINFO: &str = "\
22 1 8:1 / / rw,relatime shared:1 - ext4 /dev/sda1 rw
35 22 0:40 / /home/ada/Developer rw,relatime shared:20 - nfs4 nas:/export rw
36 35 0:41 / /home/ada/Developer/local rw,relatime shared:21 - ext4 /dev/sdb1 rw
37 22 0:42 / /mnt/my\\040share rw,relatime shared:22 - cifs //nas/share rw
";

#[test]
fn mount_path_unescaping_handles_spaces() {
    assert_eq!(unescape_mount_path("/tmp/a\\040b"), "/tmp/a b");
}

#[test]
fn mount_path_unescaping_leaves_other_backslashes() {
    assert_eq!(unescape_mount_path("/a\\b"), "/a\\b");
    assert_eq!(unescape_mount_path("/a\\09x"), "/a\\09x");
    assert_eq!(unescape_mount_path("/a\\777"), "/a\\777");
    assert_eq!(unescape_mount_path("/a\\134b"), "/a\\b");
    assert_eq!(unescape_mount_path("/end\\04"), "/end\\04");
}

#[test]
fn local_disk_is_a_safe_workspace() {
    assert!(reject_linux_network_mount("/home/ada/work", MOUNTINFO).is_ok());
}

#[test]
fn network_mount_is_refused() {
    let error = reject_linux_network_mount("/home/ada/Developer/demo", MOUNTINFO).unwrap_err();
    assert_eq!(
        error.message(),
        "workspace root is unsafe: /home/ada/Developer/demo is on a nfs4 mount"
    );
}

#[test]
fn the_longest_mount_point_decides() {
    assert!(reject_linux_network_mount("/home/ada/Developer/local/demo", MOUNTINFO).is_ok());
}

#[test]
fn escaped_mount_points_are_matched() {
    let error = reject_linux_network_mount("/mnt/my share/w", MOUNTINFO).unwrap_err();
    assert_eq!(error.message(), "workspace root is unsafe: /mnt/my share/w is on a cifs mount");
}

#[test]
fn mount_points_match_whole_components() {
    assert!(reject_linux_network_mount("/home/ada/Developer2", MOUNTINFO).is_ok());
}

#[test]
fn an_empty_mount_table_says_nothing() {
    assert!(reject_linux_network_mount("/anything", "").is_ok());
    assert!(reject_linux_network_mount("/anything", "garbage line\n").is_ok());
}

#[test]
fn macos_network_filesystems_are_refused() {
    assert!(reject_macos_network_filesystem("apfs").is_ok());
    let error = reject_macos_network_filesystem("SMBFS").unwrap_err();
    assert_eq!(error.message(), "workspace root is unsafe: workspace is on a smbfs mount");
    assert!(reject_macos_network_filesystem("nfs").is_err());
    assert!(reject_macos_network_filesystem("webdav").is_err());
}

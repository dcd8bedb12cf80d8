use busy_nas::status::{display_width, pad_cell, paint, paint_cell, pluralize, Status};

fn names(values: &[&str]) -> Vec<String> {
    values.iter().map(|v| v.to_string()).collect()
}

fn sample() -> Status {
    Status {
        remote: "developer@nas.home".to_string(),
        remote_root: "/srv/developer".to_string(),
        workspace_root: "/home/ada/Developer".to_string(),
        projects: names(&["bible", "busy-nas-mobile"]),
        nas_leases: names(&["bible"]),
        local_leases: names(&["bible", "orphan"]),
    }
}

#[test]
fn plain_table_lists_every_project_once_in_order() {
    let text = sample().render_with_color(false);
    let expected = "\
busy-nas  status

nas  developer@nas.home:/srv/developer
workdir  /home/ada/Developer

project          lease   local 
───────────────  ──────  ──────
bible            ● held  ● here
busy-nas-mobile  ·       ·     
orphan           ·       ● here

2 projects · 1 active lease · 2 local leases
";
    assert_eq!(text, expected);
}

#[test]
fn coloured_table_wraps_cells_in_ansi_styles() {
    let text = sample().render_with_color(true);
    assert!(text.starts_with("\x1b[1;36mbusy-nas\x1b[0m\x1b[2m  status\x1b[0m\n\n"));
    assert!(text.contains("\x1b[33m● held\x1b[0m"));
    assert!(text.contains("\x1b[32m● here\x1b[0m"));
    assert!(text.ends_with("\x1b[2m2 projects · 1 active lease · 2 local leases\x1b[0m\n"));
}

#[test]
fn empty_status_keeps_the_header_width() {
    let text = Status::default().render_with_color(false);
    assert!(text.contains("project  lease   local \n"));
    assert!(text.contains("───────  ──────  ──────\n"));
    assert!(text.ends_with("\n0 projects · 0 active leases · 0 local leases\n"));
}

#[test]
fn cells_pad_by_characters_and_never_cut() {
    assert_eq!(display_width("● held"), 6);
    assert_eq!(pad_cell("·", 3), "·  ");
    assert_eq!(pad_cell("toolong", 3), "toolong");
    assert_eq!(paint(false, "1", "x"), "x");
    assert_eq!(paint(true, "1", "x"), "\x1b[1mx\x1b[0m");
    assert_eq!(paint_cell(true, "2", "a", 2), "\x1b[2ma \x1b[0m");
    assert_eq!(pluralize(1, "lease"), "lease");
    assert_eq!(pluralize(0, "lease"), "leases");
    assert_eq!(pluralize(2, "project"), "projects");
}

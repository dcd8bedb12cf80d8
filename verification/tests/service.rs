//! The service driven against an in-memory NAS and an in-memory local disk.

use std::collections::BTreeMap;

use busy_nas::clock::UtcTime;
use busy_nas::config::Config;
use busy_nas::error::BusyNasError;
use busy_nas::lease::Lease;
use busy_nas::paths::AppPaths;
use busy_nas::process::{CommandOutput, CommandSpec};
use busy_nas::project::ProjectName;
use busy_nas::service::{snapshot_name_from, Action, Effect, Event, PathKind, ProgramPaths, Service};
use busy_nas::status::Status;

/// A file tree: a path maps to `None` for a directory, to its bytes for a file.
type Tree = BTreeMap<String, Option<Vec<u8>>>;

const EXCLUDED_DIRS: [&str; 4] = ["node_modules", "target", ".direnv", ".devenv"];

fn excluded(relative: &str) -> bool {
    let first = relative.split('/').next().unwrap_or("");
    EXCLUDED_DIRS.contains(&first) || first == "result" || first.starts_with("result-")
}

fn mkdirs(tree: &mut Tree, path: &str) {
    let mut prefix = String::new();
    for part in path.split('/').filter(|p| !p.is_empty()) {
        prefix.push('/');
        prefix.push_str(part);
        tree.entry(prefix.clone()).or_insert(None);
    }
}

fn write_file(tree: &mut Tree, path: &str, contents: &[u8]) {
    let parent = &path[..path.rfind('/').unwrap()];
    mkdirs(tree, parent);
    tree.insert(path.to_string(), Some(contents.to_vec()));
}

fn remove_tree(tree: &mut Tree, path: &str) -> bool {
    let existed = tree.contains_key(path);
    let inside = format!("{path}/");
    tree.retain(|key, _| key != path && !key.starts_with(&inside));
    existed
}

/// The entries below `dir`, by their path relative to it.
fn below(tree: &Tree, dir: &str) -> Vec<(String, Option<Vec<u8>>)> {
    let inside = format!("{}/", dir.trim_end_matches('/'));
    tree.iter()
        .filter(|(key, _)| key.starts_with(&inside))
        .map(|(key, value)| (key[inside.len()..].to_string(), value.clone()))
        .collect()
}

fn children(tree: &Tree, dir: &str, directories: bool) -> Vec<String> {
    below(tree, dir)
        .into_iter()
        .filter(|(relative, value)| !relative.contains('/') && value.is_none() == directories)
        .map(|(relative, _)| relative)
        .collect()
}

/// `rsync -a [--delete] source/ destination/` with the exclusions.
fn sync(from: &Tree, source: &str, to: &mut Tree, destination: &str, delete: bool) {
    let source = source.trim_end_matches('/');
    let destination = destination.trim_end_matches('/').to_string();
    let wanted: Vec<(String, Option<Vec<u8>>)> =
        below(from, source).into_iter().filter(|(relative, _)| !excluded(relative)).collect();
    if delete {
        for (relative, _) in below(to, &destination) {
            if !excluded(&relative) && !wanted.iter().any(|(w, _)| *w == relative) {
                remove_tree(to, &format!("{destination}/{relative}"));
            }
        }
    }
    mkdirs(to, &destination);
    for (relative, value) in wanted {
        let path = format!("{destination}/{relative}");
        match value {
            None => mkdirs(to, &path),
            Some(bytes) => write_file(to, &path, &bytes),
        }
    }
}

fn output(success: bool, status: i32, stdout: &[u8], stderr: &[u8]) -> CommandOutput {
    CommandOutput { success, status, stdout: stdout.to_vec(), stderr: stderr.to_vec() }
}

fn ok(stdout: &[u8]) -> CommandOutput {
    output(true, 0, stdout, b"")
}

fn encode(lease: &Lease) -> String {
    format!(
        "format_version = {}\nproject = \"{}\"\ntoken = \"{}\"\ncreated_at = {}\n",
        lease.format_version, lease.project, lease.token, lease.created_at.secs
    )
}

fn decode(text: &str) -> Result<Lease, String> {
    let mut fields = BTreeMap::new();
    for line in text.lines().filter(|l| !l.trim().is_empty()) {
        let (key, value) = line.split_once(" = ").ok_or("expected `=`")?;
        fields.insert(key.trim().to_string(), value.trim().trim_matches('"').to_string());
    }
    let get = |key: &str| fields.get(key).cloned().ok_or(format!("missing field `{key}`"));
    Ok(Lease {
        format_version: get("format_version")?.parse().map_err(|_| "bad version".to_string())?,
        project: get("project")?,
        token: get("token")?,
        created_at: UtcTime { secs: get("created_at")?.parse().map_err(|_| "bad time".to_string())?, nanos: 0 },
    })
}

/// One machine: its disk and its lease records; the NAS is shared.
#[derive(Default)]
struct Machine {
    disk: Tree,
    records: BTreeMap<String, Lease>,
}

#[derive(Default)]
struct Nas {
    tree: Tree,
    commands: Vec<CommandSpec>,
    fail_download: bool,
    fail_install: bool,
    differences: Vec<u8>,
}

enum Outcome {
    Done(Result<(), BusyNasError>),
    Status(Result<Status, BusyNasError>),
}

impl Nas {
    fn run(&mut self, machine: &mut Machine, command: &CommandSpec) -> CommandOutput {
        self.commands.push(command.clone());
        let a = &command.args;
        if command.program == "ssh" {
            assert_eq!(a[0], "--");
            assert_eq!(a[1], "nas.example");
            match a[2].as_str() {
                "mkdir" if a[3] == "-p" => {
                    mkdirs(&mut self.tree, &a[4]);
                    ok(b"")
                },
                "mkdir" => {
                    if self.tree.contains_key(&a[3]) {
                        output(false, 1, b"", b"mkdir: File exists\n")
                    } else {
                        self.tree.insert(a[3].clone(), None);
                        ok(b"")
                    }
                },
                "rm" => {
                    assert_eq!(a[3], "-rf");
                    remove_tree(&mut self.tree, &a[4]);
                    ok(b"")
                },
                "test" => {
                    assert_eq!(a[3], "-d");
                    if self.tree.get(&a[4]) == Some(&None) {
                        ok(b"")
                    } else {
                        output(false, 1, b"", b"")
                    }
                },
                "cat" => match self.tree.get(&a[3]) {
                    Some(Some(bytes)) => ok(&bytes.clone()),
                    _ => output(false, 1, b"", b"cat: No such file or directory\n"),
                },
                "find" => {
                    let dir = a[3].clone();
                    let listing: String =
                        children(&self.tree, &dir, true).iter().map(|name| format!("{dir}/{name}\n")).collect();
                    ok(listing.as_bytes())
                },
                "install" => {
                    assert_eq!(&a[3..6], ["-m", "600", "/dev/stdin"]);
                    if self.fail_install {
                        return output(false, 1, b"", b"install: disk full\n");
                    }
                    let contents = command.stdin.clone().expect("install reads standard input");
                    write_file(&mut self.tree, &a[6], &contents);
                    ok(b"")
                },
                "rsync" => {
                    let snapshot = self.tree.clone();
                    sync(&snapshot, &a[4], &mut self.tree, &a[5], false);
                    ok(b"")
                },
                other => panic!("unexpected remote command {other}"),
            }
        } else {
            assert_eq!(command.program, "rsync");
            let n = a.len();
            let (source, destination) = (&a[n - 2], &a[n - 1]);
            let delete = a.contains(&"--delete".to_string());
            if let Some(remote) = source.strip_prefix("nas.example:") {
                if self.fail_download {
                    write_file(&mut machine.disk, &format!("{destination}/partial"), b"x");
                    return output(false, 23, b"", b"rsync: partial transfer\n");
                }
                sync(&self.tree, remote, &mut machine.disk, destination, delete);
                ok(b"")
            } else {
                let remote = destination.strip_prefix("nas.example:").expect("an upload");
                if a.contains(&"--dry-run".to_string()) {
                    ok(&self.differences.clone())
                } else {
                    sync(&machine.disk, source, &mut self.tree, remote, delete);
                    ok(b"")
                }
            }
        }
    }

    fn perform(&mut self, machine: &mut Machine, effect: &Effect) -> Event {
        match effect {
            Effect::CheckWorkspace { .. } => Event::Workspace(Ok(())),
            Effect::InspectPath { path } => Event::Path(match machine.disk.get(path) {
                None => PathKind::Missing,
                Some(None) => PathKind::Directory,
                Some(Some(_)) => PathKind::Other,
            }),
            Effect::Run { command } => Event::Ran(Ok(self.run(machine, command))),
            Effect::ReadLocalLease { project } => Event::LocalLease(
                machine
                    .records
                    .get(project.as_str())
                    .cloned()
                    .ok_or(BusyNasError::LocalLeaseMissing(project.as_str().to_string())),
            ),
            Effect::WriteLocalLease { project, lease } => {
                machine.records.insert(project.as_str().to_string(), lease.clone());
                Event::Done(Ok(()))
            },
            Effect::RemoveLocalLease { project } => {
                machine.records.remove(project.as_str());
                Event::Done(Ok(()))
            },
            Effect::RemoveTree { path, missing_ok } => {
                if remove_tree(&mut machine.disk, path) || *missing_ok {
                    Event::Done(Ok(()))
                } else {
                    Event::Done(Err(BusyNasError::ConfigRead("No such file or directory".to_string())))
                }
            },
            Effect::ParseLease { text } => Event::Parsed(decode(text)),
            Effect::SerializeLease { lease } => Event::Serialized(Ok(encode(lease))),
            Effect::ListLocalFiles { dir } => Event::LocalFiles(Ok(children(&machine.disk, dir, false))),
            Effect::Finish { .. } | Effect::FinishStatus { .. } => panic!("the command is over"),
        }
    }

    /// Performs each effect and hands back what happened, until the command ends.
    fn drive(&mut self, machine: &mut Machine, service: &mut Service, first: Action, reports: &mut Vec<String>) -> Outcome {
        let mut action = first;
        loop {
            if let Some(report) = &action.report {
                reports.push(report.render(false));
            }
            match action.effect {
                Effect::Finish { result } => {
                    assert!(service.is_idle());
                    return Outcome::Done(result);
                },
                Effect::FinishStatus { outcome } => {
                    assert!(service.is_idle());
                    return Outcome::Status(outcome);
                },
                effect => {
                    let event = self.perform(machine, &effect);
                    assert!(effect.answered_by(&event));
                    action = service.resume(event);
                },
            }
        }
    }
}

fn config(retention: usize) -> Config {
    Config::from_settings(
        "nas.example".to_string(),
        None,
        Some("/srv/developer".to_string()),
        "/work".to_string(),
        Some(retention),
    )
    .unwrap()
}

fn service(retention: usize) -> Service {
    let paths = AppPaths { config_file: "/cfg/config.toml".to_string(), state_dir: "/state".to_string() };
    Service::new(config(retention), paths, ProgramPaths::system(), false)
}

fn demo() -> ProjectName {
    ProjectName::parse("demo").unwrap()
}

fn machine() -> Machine {
    let mut m = Machine::default();
    mkdirs(&mut m.disk, "/work");
    m
}

fn nas_with_demo(files: &[(&str, &[u8])]) -> Nas {
    let mut nas = Nas::default();
    mkdirs(&mut nas.tree, "/srv/developer/demo");
    for (path, contents) in files {
        write_file(&mut nas.tree, &format!("/srv/developer/demo/{path}"), contents);
    }
    nas
}

fn done(outcome: Outcome) -> Result<(), BusyNasError> {
    match outcome {
        Outcome::Done(result) => result,
        Outcome::Status(_) => panic!("a command, not status"),
    }
}

fn get(nas: &mut Nas, m: &mut Machine, s: &mut Service) -> Result<(), BusyNasError> {
    let first = s.get(&demo());
    done(nas.drive(m, s, first, &mut Vec::new()))
}

fn put(nas: &mut Nas, m: &mut Machine, s: &mut Service) -> Result<(), BusyNasError> {
    let first = s.put(&demo());
    done(nas.drive(m, s, first, &mut Vec::new()))
}

fn file(tree: &Tree, path: &str) -> Option<Vec<u8>> {
    tree.get(path).cloned().flatten()
}

const LEASE_DIR: &str = "/srv/developer/.busy-nas/leases/demo";
const LEASE_FILE: &str = "/srv/developer/.busy-nas/leases/demo/lease.toml";
const SNAPSHOTS: &str = "/srv/developer/.busy-nas/snapshots/demo";

#[test]
fn upload_rsync_uses_delete_filters_and_separate_arguments() {
    let paths = AppPaths { config_file: "/tmp/config.toml".to_string(), state_dir: "/tmp/state".to_string() };
    let config = Config::from_settings(
        "nas.example".to_string(),
        None,
        Some("/srv/developer".to_string()),
        "/tmp/busy-nas-workspace".to_string(),
        Some(20),
    )
    .unwrap();
    let service = Service::new(config, paths, ProgramPaths::system(), false);
    let spec = service.context.rsync_spec(
        "/tmp/busy-nas-workspace/demo/".to_string(),
        "nas.example:/srv/developer/demo/".to_string(),
        true,
        false,
        false,
    );
    assert_eq!(spec.program, "rsync");
    assert!(spec.args.contains(&"--delete".to_string()));
    assert!(spec.args.windows(2).any(|pair| pair == ["--exclude", "node_modules/"]));
    assert_eq!(spec.args.last(), Some(&"nas.example:/srv/developer/demo/".to_string()));

    let progress_spec = service.context.rsync_spec(
        "/tmp/busy-nas-workspace/demo/".to_string(),
        "nas.example:/srv/developer/demo/".to_string(),
        false,
        false,
        true,
    );
    assert!(progress_spec.stream_output);
    assert!(progress_spec.args.contains(&"--info=progress2".to_string()));
}

#[test]
fn status_parses_find_paths_and_renders_project_state() {
    let paths = AppPaths { config_file: "/tmp/config.toml".to_string(), state_dir: "state".to_string() };
    let config = Config::from_settings(
        "nas.example".to_string(),
        None,
        None,
        "/tmp/busy-nas-workspace".to_string(),
        Some(20),
    )
    .unwrap();
    let mut service = Service::new(config, paths, ProgramPaths::system(), false);

    let mut action = service.status();
    let answers = vec![
        Event::Ran(Ok(ok(b""))),
        Event::Ran(Ok(ok(b"/srv/developer/bible\n/srv/developer/bloom\n"))),
        Event::Ran(Ok(output(false, 1, b"", b""))),
        Event::LocalFiles(Ok(Vec::new())),
        Event::LocalFiles(Ok(Vec::new())),
    ];
    for event in answers {
        assert!(matches!(action.effect, Effect::Run { .. } | Effect::ListLocalFiles { .. }));
        action = service.resume(event);
    }
    let status = match action.effect {
        Effect::FinishStatus { outcome } => outcome.unwrap(),
        other => panic!("unexpected {other:?}"),
    };
    assert_eq!(status.projects, ["bible", "bloom"]);
    let rendered = status.render_with_color(false);
    assert!(rendered.contains("project"));
    assert!(rendered.contains("lease"));
    assert!(rendered.contains("local"));
    assert!(rendered.contains("bible"));
    assert!(rendered.contains("bloom"));
    assert!(rendered.contains("2 projects · 0 active leases · 0 local leases"));
}

#[test]
fn get_then_put_transfers_source_and_releases_lease() {
    let mut nas = nas_with_demo(&[("hello.txt", b"from-nas"), (".git/index", b"git-data")]);
    let mut one = machine();
    let mut s = service(20);

    get(&mut nas, &mut one, &mut s).unwrap();
    assert_eq!(file(&one.disk, "/work/demo/hello.txt"), Some(b"from-nas".to_vec()));
    assert_eq!(file(&one.disk, "/work/demo/.git/index"), Some(b"git-data".to_vec()));
    let recorded = one.records.get("demo").cloned().unwrap();
    let on_nas = decode(&String::from_utf8(file(&nas.tree, LEASE_FILE).unwrap()).unwrap()).unwrap();
    assert_eq!(on_nas.token, recorded.token);

    write_file(&mut one.disk, "/work/demo/hello.txt", b"from-local");
    put(&mut nas, &mut one, &mut s).unwrap();
    assert_eq!(file(&nas.tree, "/srv/developer/demo/hello.txt"), Some(b"from-local".to_vec()));
    assert!(!one.disk.contains_key("/work/demo"));
    assert!(!nas.tree.contains_key(LEASE_DIR));
    assert!(one.records.is_empty());
    let snapshots = children(&nas.tree, SNAPSHOTS, true);
    assert_eq!(snapshots.len(), 1);
    let saved = format!("{SNAPSHOTS}/{}/hello.txt", snapshots[0]);
    assert_eq!(file(&nas.tree, &saved), Some(b"from-nas".to_vec()));
}

#[test]
fn failed_get_removes_partial_checkout_and_new_lease() {
    let mut nas = nas_with_demo(&[("hello.txt", b"from-nas")]);
    nas.fail_download = true;
    let mut one = machine();
    let mut s = service(20);

    let error = get(&mut nas, &mut one, &mut s).unwrap_err();
    assert_eq!(error.message(), "`rsync` failed with status 23: rsync: partial transfer");
    assert!(!one.disk.contains_key("/work/demo"));
    assert!(!nas.tree.contains_key(LEASE_DIR));
    assert!(one.records.is_empty());
}

#[test]
fn a_second_machine_cannot_acquire_an_active_lease() {
    let mut nas = nas_with_demo(&[("hello.txt", b"source")]);
    let mut first = machine();
    let mut second = machine();
    get(&mut nas, &mut first, &mut service(20)).unwrap();
    let before = file(&nas.tree, LEASE_FILE);

    let error = get(&mut nas, &mut second, &mut service(20)).unwrap_err();
    assert_eq!(
        error.message(),
        "the NAS lease for `demo` is held by another machine or cannot be acquired"
    );
    assert!(!second.disk.contains_key("/work/demo"));
    assert!(second.records.is_empty());
    assert_eq!(file(&nas.tree, LEASE_FILE), before);
}

#[test]
fn put_snapshots_before_sync_propagates_deletions_and_preserves_exclusions() {
    let mut nas = nas_with_demo(&[
        ("hello.txt", b"before"),
        ("remove-me.txt", b"remove me"),
        ("target/cache", b"machine-build"),
    ]);
    let mut one = machine();
    let mut s = service(20);
    get(&mut nas, &mut one, &mut s).unwrap();
    assert!(!one.disk.contains_key("/work/demo/target"));

    write_file(&mut one.disk, "/work/demo/hello.txt", b"after");
    remove_tree(&mut one.disk, "/work/demo/remove-me.txt");
    nas.commands.clear();
    put(&mut nas, &mut one, &mut s).unwrap();

    assert_eq!(file(&nas.tree, "/srv/developer/demo/hello.txt"), Some(b"after".to_vec()));
    assert!(!nas.tree.contains_key("/srv/developer/demo/remove-me.txt"));
    assert_eq!(file(&nas.tree, "/srv/developer/demo/target/cache"), Some(b"machine-build".to_vec()));
    let snapshots = children(&nas.tree, SNAPSHOTS, true);
    assert_eq!(snapshots.len(), 1);
    let saved = format!("{SNAPSHOTS}/{}/hello.txt", snapshots[0]);
    assert_eq!(file(&nas.tree, &saved), Some(b"before".to_vec()));

    let snapshot_copy = nas
        .commands
        .iter()
        .position(|c| c.program == "ssh" && c.args[2] == "rsync")
        .unwrap();
    let upload = nas
        .commands
        .iter()
        .position(|c| c.program == "rsync" && !c.args.contains(&"--dry-run".to_string()))
        .unwrap();
    let verify = nas.commands.iter().position(|c| c.args.contains(&"--dry-run".to_string())).unwrap();
    assert!(snapshot_copy < upload && upload < verify);
    let upload_args = &nas.commands[upload].args;
    assert!(upload_args.contains(&"--delete".to_string()));
}

#[test]
fn forced_reclaim_replaces_a_stale_lease_and_get_resumes_it() {
    let mut nas = nas_with_demo(&[("hello.txt", b"source")]);
    write_file(&mut nas.tree, &format!("{LEASE_DIR}/token"), b"lost-machine-token\n");
    let mut one = machine();
    let mut s = service(20);

    let refused = s.reclaim(&demo(), false);
    match refused.effect {
        Effect::Finish { result } => {
            assert_eq!(result.unwrap_err().message(), "`reclaim` requires --force")
        },
        other => panic!("unexpected {other:?}"),
    }
    assert!(s.is_idle());
    assert!(nas.tree.contains_key(&format!("{LEASE_DIR}/token")));

    let first = s.reclaim(&demo(), true);
    done(nas.drive(&mut one, &mut s, first, &mut Vec::new())).unwrap();
    assert!(!nas.tree.contains_key(&format!("{LEASE_DIR}/token")));
    let new_lease = decode(&String::from_utf8(file(&nas.tree, LEASE_FILE).unwrap()).unwrap()).unwrap();
    assert_ne!(new_lease.token, "lost-machine-token");
    assert_eq!(one.records.get("demo").unwrap().token, new_lease.token);

    nas.commands.clear();
    get(&mut nas, &mut one, &mut s).unwrap();
    assert_eq!(file(&one.disk, "/work/demo/hello.txt"), Some(b"source".to_vec()));
    assert!(!nas.commands.iter().any(|c| c.args.get(2).map(String::as_str) == Some("mkdir") && c.args.get(3).map(String::as_str) == Some(LEASE_DIR)));
    let still = decode(&String::from_utf8(file(&nas.tree, LEASE_FILE).unwrap()).unwrap()).unwrap();
    assert_eq!(still.token, new_lease.token);
}

#[test]
fn a_resumed_lease_survives_a_failed_get() {
    let mut nas = nas_with_demo(&[("hello.txt", b"source")]);
    let mut one = machine();
    let mut s = service(20);
    get(&mut nas, &mut one, &mut s).unwrap();
    remove_tree(&mut one.disk, "/work/demo");

    nas.fail_download = true;
    assert!(get(&mut nas, &mut one, &mut s).is_err());
    assert!(nas.tree.contains_key(LEASE_FILE));
    assert!(one.records.contains_key("demo"));
    assert!(!one.disk.contains_key("/work/demo"));
}

#[test]
fn legacy_token_files_still_prove_ownership() {
    let mut nas = nas_with_demo(&[("hello.txt", b"source")]);
    write_file(&mut nas.tree, &format!("{LEASE_DIR}/token"), b"old-token\n");
    let mut one = machine();
    one.records.insert(
        "demo".to_string(),
        Lease {
            format_version: 1,
            project: "demo".to_string(),
            token: "old-token".to_string(),
            created_at: UtcTime { secs: 0, nanos: 0 },
        },
    );
    let mut s = service(20);
    get(&mut nas, &mut one, &mut s).unwrap();
    put(&mut nas, &mut one, &mut s).unwrap();
    assert!(!nas.tree.contains_key(LEASE_DIR));
    assert!(one.records.is_empty());
}

#[test]
fn put_with_another_machines_token_is_a_mismatch() {
    let mut nas = nas_with_demo(&[("hello.txt", b"source")]);
    let mut one = machine();
    let mut s = service(20);
    get(&mut nas, &mut one, &mut s).unwrap();
    one.records.get_mut("demo").unwrap().token = "stolen".to_string();

    let error = put(&mut nas, &mut one, &mut s).unwrap_err();
    assert_eq!(error.message(), "the NAS lease for `demo` does not match this machine's token");
    assert_eq!(file(&nas.tree, "/srv/developer/demo/hello.txt"), Some(b"source".to_vec()));
    assert!(one.disk.contains_key("/work/demo"));
    assert!(!nas.tree.contains_key(SNAPSHOTS));
}

#[test]
fn discard_releases_the_lease_and_leaves_the_source() {
    let mut nas = nas_with_demo(&[("hello.txt", b"source")]);
    let mut one = machine();
    let mut s = service(20);
    get(&mut nas, &mut one, &mut s).unwrap();
    write_file(&mut one.disk, "/work/demo/hello.txt", b"local edit");

    let first = s.discard(&demo());
    let mut reports = Vec::new();
    done(nas.drive(&mut one, &mut s, first, &mut reports)).unwrap();
    assert_eq!(file(&nas.tree, "/srv/developer/demo/hello.txt"), Some(b"source".to_vec()));
    assert!(!one.disk.contains_key("/work/demo"));
    assert!(!nas.tree.contains_key(LEASE_DIR));
    assert!(one.records.is_empty());
    assert_eq!(reports.first().unwrap(), "busy-nas  discard demo");
    assert_eq!(reports.last().unwrap(), "  done       checkout discarded");
}

#[test]
fn put_keeps_only_the_newest_snapshots() {
    let mut nas = nas_with_demo(&[("hello.txt", b"source")]);
    for old in ["20200101T000000.000Z-aaaaaaaa", "20210101T000000.000Z-bbbbbbbb", "20220101T000000.000Z-cccccccc"] {
        mkdirs(&mut nas.tree, &format!("{SNAPSHOTS}/{old}"));
    }
    let mut one = machine();
    let mut s = service(2);
    get(&mut nas, &mut one, &mut s).unwrap();
    put(&mut nas, &mut one, &mut s).unwrap();

    let kept = children(&nas.tree, SNAPSHOTS, true);
    assert_eq!(kept.len(), 2);
    assert_eq!(kept[0], "20220101T000000.000Z-cccccccc");
    assert!(kept[1].as_str() > "20220101T000000.000Z-cccccccc");
    assert_eq!(kept[1].len(), "20260905T120000.000Z-".len() + 8);
    let suffix = &kept[1][kept[1].len() - 8..];
    assert!(suffix.chars().all(|c| c.is_ascii_digit() || ('a'..='f').contains(&c)));
    assert_eq!(&kept[1][8..9], "T");
    assert_eq!(&kept[1][19..21], "Z-");
}

#[test]
fn get_refuses_an_existing_checkout() {
    let mut nas = nas_with_demo(&[("hello.txt", b"source")]);
    let mut one = machine();
    mkdirs(&mut one.disk, "/work/demo");
    let error = get(&mut nas, &mut one, &mut service(20)).unwrap_err();
    assert_eq!(error.message(), "a local checkout already exists: /work/demo");
    assert!(!nas.tree.contains_key(LEASE_DIR));
}

#[test]
fn get_of_a_missing_project_gives_the_new_lease_back() {
    let mut nas = Nas::default();
    mkdirs(&mut nas.tree, "/srv/developer");
    let mut one = machine();
    let error = get(&mut nas, &mut one, &mut service(20)).unwrap_err();
    assert_eq!(error.message(), "NAS source project does not exist: demo");
    assert!(!nas.tree.contains_key(LEASE_DIR));
    assert!(one.records.is_empty());
}

#[test]
fn put_without_a_checkout_or_a_record_is_refused() {
    let mut nas = nas_with_demo(&[("hello.txt", b"source")]);
    let mut one = machine();
    let error = put(&mut nas, &mut one, &mut service(20)).unwrap_err();
    assert_eq!(error.message(), "local checkout does not exist: /work/demo");

    mkdirs(&mut one.disk, "/work/demo");
    let error = put(&mut nas, &mut one, &mut service(20)).unwrap_err();
    assert_eq!(error.message(), "no local lease state exists for project `demo`");
}

#[test]
fn get_reports_its_phases() {
    let mut nas = nas_with_demo(&[("hello.txt", b"source")]);
    let mut one = machine();
    let mut s = service(20);
    let first = s.get(&demo());
    let mut reports = Vec::new();
    done(nas.drive(&mut one, &mut s, first, &mut reports)).unwrap();
    assert_eq!(
        reports,
        [
            "busy-nas  get demo",
            "  lease      acquiring",
            "  transfer   copying NAS to local checkout",
            "  done       ready at /work/demo",
        ]
    );
}

#[test]
fn status_reads_the_nas_and_the_local_records() {
    let mut nas = nas_with_demo(&[("hello.txt", b"source")]);
    mkdirs(&mut nas.tree, "/srv/developer/other");
    let mut one = machine();
    let mut s = service(20);
    get(&mut nas, &mut one, &mut s).unwrap();
    write_file(&mut one.disk, "/state/leases/demo.toml", b"x");
    write_file(&mut one.disk, "/state/checkouts/old.toml", b"x");

    let first = s.status();
    let status = match nas.drive(&mut one, &mut s, first, &mut Vec::new()) {
        Outcome::Status(outcome) => outcome.unwrap(),
        Outcome::Done(_) => panic!("status"),
    };
    assert_eq!(status.projects, ["demo", "other"]);
    assert_eq!(status.nas_leases, ["demo"]);
    assert_eq!(status.local_leases, ["demo", "old"]);
    assert_eq!(status.remote, "nas.example");
    assert_eq!(status.remote_root, "/srv/developer");
    assert_eq!(status.workspace_root, "/work");
}

#[test]
fn effects_name_the_answer_they_wait_for() {
    let mut s = service(20);
    let first = s.get(&demo());
    assert!(first.effect.answered_by(&Event::Workspace(Ok(()))));
    assert!(!first.effect.answered_by(&Event::Path(PathKind::Missing)));
    let next = s.resume(Event::Workspace(Ok(())));
    assert!(next.effect.answered_by(&Event::Path(PathKind::Missing)));
    assert!(!next.effect.answered_by(&Event::Done(Ok(()))));
    let finish = Effect::Finish { result: Ok(()) };
    assert!(!finish.answered_by(&Event::Done(Ok(()))));
}

#[test]
fn an_unsafe_workspace_ends_the_command_at_once() {
    let mut s = service(20);
    let _ = s.put(&demo());
    let action = s.resume(Event::Workspace(Err(BusyNasError::UnsafeWorkspace("/work is a symlink".to_string()))));
    match action.effect {
        Effect::Finish { result } => {
            assert_eq!(result.unwrap_err().message(), "workspace root is unsafe: /work is a symlink")
        },
        other => panic!("unexpected {other:?}"),
    }
    assert!(s.is_idle());
}

#[test]
fn snapshot_names_are_a_time_and_eight_digits_of_a_uuid() {
    assert_eq!(
        snapshot_name_from("20260905T120000.000Z".to_string(), 0x0123456789abcdef0123456789abcdef),
        "20260905T120000.000Z-01234567"
    );
    assert_eq!(snapshot_name_from("x".to_string(), 0xabc), "x-00000000");
}

#[test]
fn a_lease_that_cannot_be_installed_is_taken_back() {
    let mut nas = nas_with_demo(&[("hello.txt", b"source")]);
    nas.fail_install = true;
    let mut one = machine();
    let error = get(&mut nas, &mut one, &mut service(20)).unwrap_err();
    assert_eq!(error.message(), "`ssh install` failed with status 1: install: disk full");
    assert!(!nas.tree.contains_key(LEASE_DIR));
    assert!(one.records.is_empty());
    assert!(!one.disk.contains_key("/work/demo"));
}

#[test]
fn remaining_differences_keep_the_checkout_and_the_lease() {
    let mut nas = nas_with_demo(&[("hello.txt", b"source")]);
    let mut one = machine();
    let mut s = service(20);
    get(&mut nas, &mut one, &mut s).unwrap();
    nas.differences = b">f.st...... hello.txt\n".to_vec();
    let error = put(&mut nas, &mut one, &mut s).unwrap_err();
    assert_eq!(
        error.message(),
        "rsync verification found remaining differences: >f.st...... hello.txt\n"
    );
    assert!(one.disk.contains_key("/work/demo"));
    assert!(nas.tree.contains_key(LEASE_FILE));
    assert!(one.records.contains_key("demo"));

    nas.differences = b"  \n".to_vec();
    put(&mut nas, &mut one, &mut s).unwrap();
    assert!(!one.disk.contains_key("/work/demo"));
}

use busy_nas::paths::AppPaths;
use busy_nas::process::{require_success, CommandOutput, CommandSpec, ProcessRunner};
use busy_nas::project::ProjectName;

fn strings(values: &[&str]) -> Vec<String> {
    values.iter().map(|v| v.to_string()).collect()
}

#[test]
fn command_specs_keep_arguments_separate() {
    let spec = CommandSpec::new(
        "ssh".to_string(),
        strings(&["--", "nas.example", "mkdir", "/srv/developer/a-b"]),
    );
    assert_eq!(spec.program, "ssh");
    assert_eq!(spec.args, strings(&["--", "nas.example", "mkdir", "/srv/developer/a-b"]));
    assert_eq!(spec.stdin, None);
    let with_input = spec.with_stdin(b"data".to_vec());
    assert_eq!(with_input.stdin, Some(b"data".to_vec()));
}

#[test]
fn output_text_is_decoded_and_error_text_trimmed() {
    let output = CommandOutput {
        success: false,
        status: 23,
        stdout: b"line\n".to_vec(),
        stderr: b"  rsync: broken pipe\n".to_vec(),
    };
    assert_eq!(output.stdout_text(), "line\n");
    assert_eq!(output.stderr_text(), "rsync: broken pipe");
    let invalid = CommandOutput {
        success: true,
        status: 0,
        stdout: vec![b'a', 0xff, b'b'],
        stderr: Vec::new(),
    };
    assert_eq!(invalid.stdout_text(), "a\u{fffd}b");
}

#[test]
fn failed_commands_become_process_errors() {
    let spec = CommandSpec::new("rsync".to_string(), strings(&["-a"]));
    let failed = CommandOutput {
        success: false,
        status: 23,
        stdout: Vec::new(),
        stderr: b"partial transfer\n".to_vec(),
    };
    let error = require_success(&spec, failed).unwrap_err();
    assert_eq!(error.message(), "`rsync` failed with status 23: partial transfer");
    let negative = CommandOutput { success: false, status: -1, stdout: Vec::new(), stderr: Vec::new() };
    assert_eq!(
        require_success(&spec, negative).unwrap_err().message(),
        "`rsync` failed with status -1: "
    );
    let fine = CommandOutput { success: true, status: 0, stdout: b"ok".to_vec(), stderr: Vec::new() };
    assert_eq!(require_success(&spec, fine).unwrap().stdout, b"ok".to_vec());
}

#[test]
fn runners_name_their_programs() {
    let system = ProcessRunner::system();
    assert_eq!(system.ssh_program, "ssh");
    assert_eq!(system.rsync_program, "rsync");
    let custom = ProcessRunner::with_programs("/opt/ssh".to_string(), "/opt/rsync".to_string());
    assert_eq!(custom.ssh_program, "/opt/ssh");
    assert_eq!(custom.rsync_program, "/opt/rsync");
}

#[test]
fn lease_records_live_under_the_state_directory() {
    let paths = AppPaths { config_file: "unused.toml".to_string(), state_dir: "/tmp/state".to_string() };
    let project = ProjectName::parse("demo").unwrap();
    assert_eq!(paths.lease_state_dir(), "/tmp/state/leases");
    assert_eq!(paths.lease_state_file(&project), "/tmp/state/leases/demo.toml");
    assert_eq!(paths.legacy_lease_state_dir(), "/tmp/state/checkouts");
    assert_eq!(paths.legacy_lease_state_file(&project), "/tmp/state/checkouts/demo.toml");
}

//! The handoff protocol. Each command (`get`, `put`, `discard`, `reclaim`, `status`)
//! is a state machine: the service asks for one effect at a time (a check of the
//! local disk, a command on the NAS, a lease record to read or write), the caller
//! performs it and hands back what happened, and the service decides the next step.

use vstd::prelude::*;
use vstd::pervasive::unreached;
use vstd::string::*;

use crate::clock::{format_utc, utc_format_text, utc_now, snapshot_pattern, UtcTime, in_chrono_range};
use crate::config::{remote_target_of, Config};
use crate::error::{BusyNasError, ErrorView, Result};
use crate::filters::{exclude_patterns, filter_args, rsync_filter_args};
use crate::lease::{lease_from_parsed, parsed_view, Lease, LeaseView};
use crate::order::{in_order, sort_strings, sort_unique, sorted, string_eq};
use crate::pathname::{join, path_join, with_trailing_slash};
use crate::paths::{lease_state_dir_of, legacy_lease_state_dir_of, AppPaths};
use crate::process::{failure, failure_error, lossy_text, CommandOutput, CommandSpec, CommandView, OutputView, ProcessRunner};
use crate::project::ProjectName;
use crate::remote::{cat, copy_tree, find_dirs, install, listed_names, mkdir, mkdir_p, rm_rf, test_dir, Remote};
use crate::status::{pad_text, paint_text, Status, StatusView};
use crate::text::{all_ws, chars_of, is_blank, lines, owned, push_char, push_str, strs, trim, trim_str};
use crate::uuids::{new_v4, simple, uuid_simple_text};

verus! {

/// The programs that the service runs: ssh for the NAS, rsync for transfers.
#[derive(Clone, Debug)]
pub struct ProgramPaths {
    pub ssh: String,
    pub rsync: String,
}

impl ProgramPaths {
    pub fn system() -> (p: ProgramPaths)
        ensures
            p.ssh@ == "ssh"@,
            p.rsync@ == "rsync"@,
    {
        ProgramPaths { ssh: owned("ssh"), rsync: owned("rsync") }
    }

    pub fn from_process_runner(runner: &ProcessRunner) -> (p: ProgramPaths)
        ensures
            p.ssh@ == runner.ssh_program@,
            p.rsync@ == runner.rsync_program@,
    {
        ProgramPaths { ssh: owned(runner.ssh_program.as_str()), rsync: owned(runner.rsync_program.as_str()) }
    }
}

// ---------------------------------------------------------------------------
// Effects, events and reports
// ---------------------------------------------------------------------------

/// What is at a local path (following symbolic links).
#[derive(Clone, Copy, Debug, PartialEq, Eq, Structural)]
pub enum PathKind {
    Missing,
    Directory,
    Other,
}

#[derive(Clone, Copy, Debug, PartialEq, Eq, Structural)]
pub enum ReportKind {
    /// `busy-nas  <action> <project>`
    Start,
    /// `  <phase>  <detail>`
    Phase,
    /// `  done  <detail>`
    Done,
}

/// A progress line for a terminal.
#[derive(Debug)]
pub struct ReportLine {
    pub kind: ReportKind,
    pub phase: String,
    pub detail: String,
}

pub struct ReportView {
    pub kind: ReportKind,
    pub phase: Seq<char>,
    pub detail: Seq<char>,
}

impl View for ReportLine {
    type V = ReportView;

    open spec fn view(&self) -> ReportView {
        ReportView { kind: self.kind, phase: self.phase@, detail: self.detail@ }
    }
}

/// The text of a progress line (without its line break).
pub open spec fn report_text(r: ReportView, color: bool) -> Seq<char> {
    match r.kind {
        ReportKind::Start => paint_text(color, "1;36"@, "busy-nas"@) + "  "@ + r.phase + " "@
            + r.detail,
        ReportKind::Phase => "  "@ + paint_text(color, "2"@, pad_text(r.phase, 9)) + "  "@
            + r.detail,
        ReportKind::Done => "  "@ + paint_text(color, "32"@, pad_text("done"@, 9)) + "  "@
            + r.detail,
    }
}

impl ReportLine {
    /// The line as a terminal shows it; `color` turns on ANSI styles.
    pub fn render(&self, color: bool) -> (out: String)
        ensures
            out@ == report_text(self@, color),
    {
        match self.kind {
            ReportKind::Start => {
                let mut out = crate::status::paint(color, "1;36", "busy-nas");
                push_str(&mut out, "  ");
                push_str(&mut out, self.phase.as_str());
                push_str(&mut out, " ");
                push_str(&mut out, self.detail.as_str());
                out
            },
            ReportKind::Phase => {
                let mut out = owned("  ");
                let cell = crate::status::paint_cell(color, "2", self.phase.as_str(), 9);
                push_str(&mut out, cell.as_str());
                push_str(&mut out, "  ");
                push_str(&mut out, self.detail.as_str());
                out
            },
            ReportKind::Done => {
                let mut out = owned("  ");
                let cell = crate::status::paint_cell(color, "32", "done", 9);
                push_str(&mut out, cell.as_str());
                push_str(&mut out, "  ");
                push_str(&mut out, self.detail.as_str());
                out
            },
        }
    }
}

/// One piece of outside work, for the caller to perform.
#[derive(Debug)]
pub enum Effect {
    /// Check that the workspace root is a local directory (answer: `Event::Workspace`).
    CheckWorkspace { root: String },
    /// What is at a local path (answer: `Event::Path`).
    InspectPath { path: String },
    /// Run a command (answer: `Event::Ran`).
    Run { command: CommandSpec },
    /// Read this machine's lease record (answer: `Event::LocalLease`).
    ReadLocalLease { project: ProjectName },
    /// Record a lease on this machine (answer: `Event::Done`).
    WriteLocalLease { project: ProjectName, lease: Lease },
    /// Forget this machine's lease record, if any (answer: `Event::Done`).
    RemoveLocalLease { project: ProjectName },
    /// Remove a local tree; a missing tree is fine when `missing_ok` (answer: `Event::Done`).
    RemoveTree { path: String, missing_ok: bool },
    /// Decode a lease document (answer: `Event::Parsed`).
    ParseLease { text: String },
    /// Encode a lease as a document (answer: `Event::Serialized`).
    SerializeLease { lease: Lease },
    /// The names of the regular files in a local directory, none if it is not a
    /// directory (answer: `Event::LocalFiles`).
    ListLocalFiles { dir: String },
    /// The command is over.
    Finish { result: Result<()> },
    /// `status` is over.
    FinishStatus { outcome: Result<Status> },
}

/// The next step: an optional progress line to show first, then the effect.
#[derive(Debug)]
pub struct Action {
    pub report: Option<ReportLine>,
    pub effect: Effect,
}

/// What happened when the caller performed an effect.
#[derive(Debug)]
pub enum Event {
    Workspace(Result<()>),
    Path(PathKind),
    Ran(Result<CommandOutput>),
    LocalLease(Result<Lease>),
    Done(Result<()>),
    Parsed(core::result::Result<Lease, String>),
    Serialized(core::result::Result<String, String>),
    LocalFiles(Result<Vec<String>>),
}

pub enum EffectView {
    CheckWorkspace(Seq<char>),
    InspectPath(Seq<char>),
    Run(CommandView),
    ReadLocalLease(Seq<char>),
    WriteLocalLease(Seq<char>, LeaseView),
    RemoveLocalLease(Seq<char>),
    RemoveTree(Seq<char>, bool),
    ParseLease(Seq<char>),
    SerializeLease(LeaseView),
    ListLocalFiles(Seq<char>),
    Finish(core::result::Result<(), ErrorView>),
    FinishStatus(core::result::Result<StatusView, ErrorView>),
}

pub struct ActionView {
    pub report: Option<ReportView>,
    pub effect: EffectView,
}

pub enum EventView {
    Workspace(core::result::Result<(), ErrorView>),
    Path(PathKind),
    Ran(core::result::Result<OutputView, ErrorView>),
    LocalLease(core::result::Result<LeaseView, ErrorView>),
    Done(core::result::Result<(), ErrorView>),
    Parsed(core::result::Result<LeaseView, Seq<char>>),
    Serialized(core::result::Result<Seq<char>, Seq<char>>),
    LocalFiles(core::result::Result<Seq<Seq<char>>, ErrorView>),
}

/// Whether `e` is the kind of answer that the effect `effect` asks for; the end of
/// a command asks for none.
pub open spec fn answered_by(effect: EffectView, e: EventView) -> bool {
    match effect {
        EffectView::CheckWorkspace(_) => e is Workspace,
        EffectView::InspectPath(_) => e is Path,
        EffectView::Run(_) => e is Ran,
        EffectView::ReadLocalLease(_) => e is LocalLease,
        EffectView::WriteLocalLease(..) => e is Done,
        EffectView::RemoveLocalLease(_) => e is Done,
        EffectView::RemoveTree(..) => e is Done,
        EffectView::ParseLease(_) => e is Parsed,
        EffectView::SerializeLease(_) => e is Serialized,
        EffectView::ListLocalFiles(_) => e is LocalFiles,
        EffectView::Finish(_) => false,
        EffectView::FinishStatus(_) => false,
    }
}

impl Effect {
    /// Whether `event` is the kind of answer that this effect asks for.
    pub fn answered_by(&self, event: &Event) -> (b: bool)
        ensures
            b == answered_by(self@, event@),
    {
        match self {
            Effect::CheckWorkspace { .. } => matches!(event, Event::Workspace(_)),
            Effect::InspectPath { .. } => matches!(event, Event::Path(_)),
            Effect::Run { .. } => matches!(event, Event::Ran(_)),
            Effect::ReadLocalLease { .. } => matches!(event, Event::LocalLease(_)),
            Effect::WriteLocalLease { .. } => matches!(event, Event::Done(_)),
            Effect::RemoveLocalLease { .. } => matches!(event, Event::Done(_)),
            Effect::RemoveTree { .. } => matches!(event, Event::Done(_)),
            Effect::ParseLease { .. } => matches!(event, Event::Parsed(_)),
            Effect::SerializeLease { .. } => matches!(event, Event::Serialized(_)),
            Effect::ListLocalFiles { .. } => matches!(event, Event::LocalFiles(_)),
            Effect::Finish { .. } => false,
            Effect::FinishStatus { .. } => false,
        }
    }
}

pub open spec fn unit_view(r: Result<()>) -> core::result::Result<(), ErrorView> {
    match r {
        Ok(()) => Ok(()),
        Err(e) => Err(e@),
    }
}

impl View for Effect {
    type V = EffectView;

    open spec fn view(&self) -> EffectView {
        match self {
            Effect::CheckWorkspace { root } => EffectView::CheckWorkspace(root@),
            Effect::InspectPath { path } => EffectView::InspectPath(path@),
            Effect::Run { command } => EffectView::Run(command@),
            Effect::ReadLocalLease { project } => EffectView::ReadLocalLease(project@),
            Effect::WriteLocalLease { project, lease } => EffectView::WriteLocalLease(
                project@,
                lease@,
            ),
            Effect::RemoveLocalLease { project } => EffectView::RemoveLocalLease(project@),
            Effect::RemoveTree { path, missing_ok } => EffectView::RemoveTree(path@, *missing_ok),
            Effect::ParseLease { text } => EffectView::ParseLease(text@),
            Effect::SerializeLease { lease } => EffectView::SerializeLease(lease@),
            Effect::ListLocalFiles { dir } => EffectView::ListLocalFiles(dir@),
            Effect::Finish { result } => EffectView::Finish(unit_view(*result)),
            Effect::FinishStatus { outcome } => EffectView::FinishStatus(
                match outcome {
                    Ok(s) => Ok(s@),
                    Err(e) => Err(e@),
                },
            ),
        }
    }
}

impl View for Action {
    type V = ActionView;

    open spec fn view(&self) -> ActionView {
        ActionView {
            report: match self.report {
                Some(r) => Some(r@),
                None => None,
            },
            effect: self.effect@,
        }
    }
}

impl View for Event {
    type V = EventView;

    open spec fn view(&self) -> EventView {
        match self {
            Event::Workspace(r) => EventView::Workspace(unit_view(*r)),
            Event::Path(k) => EventView::Path(*k),
            Event::Ran(r) => EventView::Ran(
                match r {
                    Ok(o) => Ok(o@),
                    Err(e) => Err(e@),
                },
            ),
            Event::LocalLease(r) => EventView::LocalLease(
                match r {
                    Ok(l) => Ok(l@),
                    Err(e) => Err(e@),
                },
            ),
            Event::Done(r) => EventView::Done(unit_view(*r)),
            Event::Parsed(r) => EventView::Parsed(parsed_view(*r)),
            Event::Serialized(r) => EventView::Serialized(
                match r {
                    Ok(t) => Ok(t@),
                    Err(m) => Err(m@),
                },
            ),
            Event::LocalFiles(r) => EventView::LocalFiles(
                match r {
                    Ok(v) => Ok(strs(v@)),
                    Err(e) => Err(e@),
                },
            ),
        }
    }
}

// ---------------------------------------------------------------------------
// The fixed part: configuration, local paths, programs
// ---------------------------------------------------------------------------

/// What does not change while a command runs.
pub struct Context {
    pub config: Config,
    pub paths: AppPaths,
    pub programs: ProgramPaths,
    /// Whether transfers show rsync's progress (on when standard output is a terminal).
    pub show_progress: bool,
}

pub open spec fn checkout_path(c: Context, p: Seq<char>) -> Seq<char> {
    path_join(c.config.workspace_root@, p)
}

pub open spec fn remote_project_path(c: Context, p: Seq<char>) -> Seq<char> {
    path_join(c.config.nas.root@, p)
}

pub open spec fn control_root(c: Context) -> Seq<char> {
    path_join(c.config.nas.root@, ".busy-nas"@)
}

pub open spec fn leases_root(c: Context) -> Seq<char> {
    path_join(control_root(c), "leases"@)
}

pub open spec fn snapshots_base(c: Context) -> Seq<char> {
    path_join(control_root(c), "snapshots"@)
}

pub open spec fn lease_path(c: Context, p: Seq<char>) -> Seq<char> {
    path_join(leases_root(c), p)
}

pub open spec fn lease_metadata_path(c: Context, p: Seq<char>) -> Seq<char> {
    path_join(lease_path(c, p), "lease.toml"@)
}

pub open spec fn legacy_token_path(c: Context, p: Seq<char>) -> Seq<char> {
    path_join(lease_path(c, p), "token"@)
}

pub open spec fn snapshots_root(c: Context, p: Seq<char>) -> Seq<char> {
    path_join(snapshots_base(c), p)
}

pub open spec fn target(c: Context) -> Seq<char> {
    remote_target_of(c.config@)
}

pub open spec fn ssh(c: Context) -> Seq<char> {
    c.programs.ssh@
}

/// `<target>:<path>`, with a final `/` when asked.
pub open spec fn remote_endpoint(c: Context, path: Seq<char>, trailing_slash: bool) -> Seq<char> {
    let base = target(c) + ":"@ + path;
    if trailing_slash {
        base.push('/')
    } else {
        base
    }
}

/// The rsync command: archive mode, arguments protected from the remote shell, the
/// excluded patterns left alone, then the options asked for, ssh as the transport.
pub open spec fn rsync_command(
    c: Context,
    source: Seq<char>,
    destination: Seq<char>,
    delete: bool,
    dry_run: bool,
    show_progress: bool,
) -> CommandView {
    CommandView {
        program: c.programs.rsync@,
        args: seq!["-a"@, "--protect-args"@] + filter_args(exclude_patterns()) + (if delete {
            seq!["--delete"@]
        } else {
            Seq::empty()
        }) + (if dry_run {
            seq!["--dry-run"@, "--itemize-changes"@]
        } else {
            Seq::empty()
        }) + (if show_progress {
            seq!["--info=progress2"@]
        } else {
            Seq::empty()
        }) + seq!["-e"@, c.programs.ssh@, source, destination],
        stdin: None,
        stream_output: show_progress,
    }
}

/// NAS to checkout.
pub open spec fn download_command(c: Context, p: Seq<char>) -> CommandView {
    rsync_command(
        c,
        remote_endpoint(c, remote_project_path(c, p), true),
        checkout_path(c, p),
        false,
        false,
        c.show_progress,
    )
}

/// Checkout to NAS, deleting what the checkout no longer has.
pub open spec fn upload_command(c: Context, p: Seq<char>) -> CommandView {
    rsync_command(
        c,
        checkout_path(c, p).push('/'),
        remote_endpoint(c, remote_project_path(c, p), true),
        true,
        false,
        c.show_progress,
    )
}

/// The same transfer as a dry run that lists what would still change.
pub open spec fn verify_command(c: Context, p: Seq<char>) -> CommandView {
    rsync_command(
        c,
        checkout_path(c, p).push('/'),
        remote_endpoint(c, remote_project_path(c, p), true),
        true,
        true,
        false,
    )
}

/// A command outcome, checked: a failure to run, or a failure reported by the
/// command (as `failure` of `program`), or the output of a success.
pub open spec fn checked(program: Seq<char>, r: core::result::Result<OutputView, ErrorView>) -> core::result::Result<OutputView, ErrorView> {
    match r {
        Err(e) => Err(e),
        Ok(o) => if o.success {
            Ok(o)
        } else {
            Err(failure(program, o))
        },
    }
}

/// The same for a command run on the NAS.
pub open spec fn remote_checked(c: Context, command: Seq<char>, r: core::result::Result<OutputView, ErrorView>) -> core::result::Result<OutputView, ErrorView> {
    checked(ssh(c) + " "@ + command, r)
}

impl Context {
    fn remote(&self) -> (r: Remote)
        ensures
            r.ssh@ == ssh(*self),
            r.target@ == target(*self),
    {
        Remote { ssh: owned(self.programs.ssh.as_str()), target: self.config.remote_target() }
    }

    pub fn checkout_path(&self, project: &ProjectName) -> (p: String)
        ensures
            p@ == checkout_path(*self, project@),
    {
        join(self.config.workspace_root.as_str(), project.as_str())
    }

    pub fn remote_project_path(&self, project: &ProjectName) -> (p: String)
        ensures
            p@ == remote_project_path(*self, project@),
    {
        join(self.config.nas.root.as_str(), project.as_str())
    }

    pub fn control_root(&self) -> (p: String)
        ensures
            p@ == control_root(*self),
    {
        join(self.config.nas.root.as_str(), ".busy-nas")
    }

    pub fn leases_root(&self) -> (p: String)
        ensures
            p@ == leases_root(*self),
    {
        join(self.control_root().as_str(), "leases")
    }

    pub fn lease_path(&self, project: &ProjectName) -> (p: String)
        ensures
            p@ == lease_path(*self, project@),
    {
        join(self.leases_root().as_str(), project.as_str())
    }

    pub fn lease_metadata_path(&self, project: &ProjectName) -> (p: String)
        ensures
            p@ == lease_metadata_path(*self, project@),
    {
        join(self.lease_path(project).as_str(), "lease.toml")
    }

    pub fn legacy_lease_token_path(&self, project: &ProjectName) -> (p: String)
        ensures
            p@ == legacy_token_path(*self, project@),
    {
        join(self.lease_path(project).as_str(), "token")
    }

    pub fn snapshots_root(&self, project: &ProjectName) -> (p: String)
        ensures
            p@ == snapshots_root(*self, project@),
    {
        let base = join(self.control_root().as_str(), "snapshots");
        join(base.as_str(), project.as_str())
    }

    pub fn remote_endpoint(&self, path: &str, trailing_slash: bool) -> (s: String)
        ensures
            s@ == remote_endpoint(*self, path@, trailing_slash),
    {
        let mut out = self.config.remote_target();
        push_str(&mut out, ":");
        push_str(&mut out, path);
        if trailing_slash {
            push_char(&mut out, '/');
        }
        out
    }

    /// The rsync command for a transfer.
    pub fn rsync_spec(
        &self,
        source: String,
        destination: String,
        delete: bool,
        dry_run: bool,
        show_progress: bool,
    ) -> (c: CommandSpec)
        ensures
            c@ == rsync_command(*self, source@, destination@, delete, dry_run, show_progress),
    {
        let mut args: Vec<String> = Vec::new();
        args.push(owned("-a"));
        args.push(owned("--protect-args"));
        let ghost a0 = strs(args@);
        assert(a0 =~= seq!["-a"@, "--protect-args"@]);
        let filters = rsync_filter_args();
        let mut i: usize = 0;
        while i < filters.len()
            invariant
                i <= filters.len(),
                strs(args@) == a0 + strs(filters@).take(i as int),
            decreases filters.len() - i,
        {
            let ghost before = strs(args@);
            args.push(filters[i].clone());
            assert(strs(args@) =~= before.push(filters@[i as int]@));
            assert(strs(filters@).take(i + 1) =~= strs(filters@).take(i as int).push(
                filters@[i as int]@,
            ));
            i = i + 1;
        }
        assert(strs(filters@).take(filters.len() as int) =~= strs(filters@));
        let ghost a1 = strs(args@);
        if delete {
            args.push(owned("--delete"));
        }
        let ghost a2 = strs(args@);
        assert(a2 =~= a1 + (if delete {
            seq!["--delete"@]
        } else {
            Seq::empty()
        }));
        if dry_run {
            args.push(owned("--dry-run"));
            args.push(owned("--itemize-changes"));
        }
        let ghost a3 = strs(args@);
        assert(a3 =~= a2 + (if dry_run {
            seq!["--dry-run"@, "--itemize-changes"@]
        } else {
            Seq::empty()
        }));
        if show_progress {
            args.push(owned("--info=progress2"));
        }
        let ghost a4 = strs(args@);
        assert(a4 =~= a3 + (if show_progress {
            seq!["--info=progress2"@]
        } else {
            Seq::empty()
        }));
        args.push(owned("-e"));
        args.push(owned(self.programs.ssh.as_str()));
        args.push(source);
        args.push(destination);
        assert(strs(args@) =~= a4 + seq!["-e"@, self.programs.ssh@, source@, destination@]);
        CommandSpec {
            program: owned(self.programs.rsync.as_str()),
            args,
            stdin: None,
            stream_output: show_progress,
        }
    }
}


// ---------------------------------------------------------------------------
// Checking that the NAS lease carries our token
// ---------------------------------------------------------------------------

#[derive(Clone, Copy, Debug, PartialEq, Eq, Structural)]
pub enum Check {
    /// Reading the lease document on the NAS.
    Metadata,
    /// Decoding it.
    Parsing,
    /// Reading the first release's token file instead.
    Legacy,
}

pub enum CheckOutcome {
    Continue(Check, Effect),
    Matched,
    Failed(BusyNasError),
}

pub enum CheckOutcomeView {
    Continue(Check, EffectView),
    Matched,
    Failed(ErrorView),
}

impl View for CheckOutcome {
    type V = CheckOutcomeView;

    open spec fn view(&self) -> CheckOutcomeView {
        match self {
            CheckOutcome::Continue(s, e) => CheckOutcomeView::Continue(*s, e@),
            CheckOutcome::Matched => CheckOutcomeView::Matched,
            CheckOutcome::Failed(e) => CheckOutcomeView::Failed(e@),
        }
    }
}

pub open spec fn run_effect(c: CommandView) -> EffectView {
    EffectView::Run(c)
}

pub open spec fn check_begin(c: Context, p: Seq<char>) -> EffectView {
    run_effect(cat(ssh(c), target(c), lease_metadata_path(c, p)))
}

/// The NAS holds `remote_token`: a match, or a mismatch for `p`.
pub open spec fn token_verdict(p: Seq<char>, remote_token: Seq<char>, expected: Seq<char>) -> CheckOutcomeView {
    if remote_token == expected {
        CheckOutcomeView::Matched
    } else {
        CheckOutcomeView::Failed(ErrorView::LeaseMismatch { project: p })
    }
}

/// Which events answer each step.
pub open spec fn check_answers(s: Check, e: EventView) -> bool {
    match s {
        Check::Parsing => e is Parsed,
        _ => e is Ran,
    }
}

pub open spec fn check_next(c: Context, p: Seq<char>, expected: Seq<char>, s: Check, e: EventView) -> CheckOutcomeView {
    match (s, e) {
        (Check::Metadata, EventView::Ran(Err(err))) => CheckOutcomeView::Failed(err),
        (Check::Metadata, EventView::Ran(Ok(o))) => if o.success {
            CheckOutcomeView::Continue(Check::Parsing, EffectView::ParseLease(lossy_text(o.stdout)))
        } else {
            CheckOutcomeView::Continue(
                Check::Legacy,
                run_effect(cat(ssh(c), target(c), legacy_token_path(c, p))),
            )
        },
        (Check::Parsing, EventView::Parsed(parsed)) => match lease_from_parsed(parsed, p) {
            Err(err) => CheckOutcomeView::Failed(err),
            Ok(l) => token_verdict(p, l.token, expected),
        },
        (Check::Legacy, EventView::Ran(Err(err))) => CheckOutcomeView::Failed(err),
        (Check::Legacy, EventView::Ran(Ok(o))) => if o.success {
            token_verdict(p, trim(lossy_text(o.stdout)), expected)
        } else {
            CheckOutcomeView::Failed(ErrorView::LeaseMismatch { project: p })
        },
        _ => arbitrary(),
    }
}

fn mismatch(project: &ProjectName) -> (e: BusyNasError)
    ensures
        e@ == (ErrorView::LeaseMismatch { project: project@ }),
{
    BusyNasError::LeaseMismatch { project: owned(project.as_str()) }
}

fn verdict(project: &ProjectName, remote_token: &String, expected: &String) -> (r: CheckOutcome)
    ensures
        r@ == token_verdict(project@, remote_token@, expected@),
{
    if string_eq(remote_token, expected) {
        CheckOutcome::Matched
    } else {
        CheckOutcome::Failed(mismatch(project))
    }
}

fn run(command: CommandSpec) -> (e: Effect)
    ensures
        e@ == run_effect(command@),
{
    Effect::Run { command }
}

impl Context {
    fn check_begin(&self, project: &ProjectName) -> (e: Effect)
        ensures
            e@ == check_begin(*self, project@),
    {
        run(self.remote().read_file(self.lease_metadata_path(project).as_str()))
    }

    fn check_step(&self, project: &ProjectName, expected: &String, s: Check, event: Event) -> (r:
        CheckOutcome)
        requires
            check_answers(s, event@),
        ensures
            r@ == check_next(*self, project@, expected@, s, event@),
    {
        match (s, event) {
            (Check::Metadata, Event::Ran(Err(err))) => CheckOutcome::Failed(err),
            (Check::Metadata, Event::Ran(Ok(o))) => {
                if o.success {
                    CheckOutcome::Continue(Check::Parsing, Effect::ParseLease { text: o.stdout_text() })
                } else {
                    let path = self.legacy_lease_token_path(project);
                    CheckOutcome::Continue(Check::Legacy, run(self.remote().read_file(path.as_str())))
                }
            },
            (Check::Parsing, Event::Parsed(parsed)) => match Lease::from_parsed(parsed, project) {
                Err(err) => CheckOutcome::Failed(err),
                Ok(l) => verdict(project, &l.token, expected),
            },
            (Check::Legacy, Event::Ran(Err(err))) => CheckOutcome::Failed(err),
            (Check::Legacy, Event::Ran(Ok(o))) => {
                if o.success {
                    let token = trim_str(o.stdout_text().as_str());
                    verdict(project, &token, expected)
                } else {
                    CheckOutcome::Failed(mismatch(project))
                }
            },
            _ => unreached(),
        }
    }
}


// ---------------------------------------------------------------------------
// Taking a lease, or resuming ours
// ---------------------------------------------------------------------------

pub enum Acquire {
    /// Reading this machine's lease record.
    ReadLocal,
    /// Checking that the NAS still holds our recorded lease.
    Resume { lease: Lease, check: Check },
    /// Creating the control directories, one per step.
    EnsureControl,
    EnsureLeases,
    EnsureSnapshots,
    /// Creating the lease directory: the step that only one machine can win.
    Claim,
    /// Encoding the new lease.
    Serialize { lease: Lease },
    /// Writing it to the NAS.
    Install { lease: Lease },
    /// Recording it here.
    WriteLocal { lease: Lease },
    /// Removing the lease directory again after `error`.
    Undo { error: BusyNasError },
}

pub enum AcquireView {
    ReadLocal,
    Resume { lease: LeaseView, check: Check },
    EnsureControl,
    EnsureLeases,
    EnsureSnapshots,
    Claim,
    Serialize { lease: LeaseView },
    Install { lease: LeaseView },
    WriteLocal { lease: LeaseView },
    Undo { error: ErrorView },
}

impl View for Acquire {
    type V = AcquireView;

    open spec fn view(&self) -> AcquireView {
        match self {
            Acquire::ReadLocal => AcquireView::ReadLocal,
            Acquire::Resume { lease, check } => AcquireView::Resume { lease: lease@, check: *check },
            Acquire::EnsureControl => AcquireView::EnsureControl,
            Acquire::EnsureLeases => AcquireView::EnsureLeases,
            Acquire::EnsureSnapshots => AcquireView::EnsureSnapshots,
            Acquire::Claim => AcquireView::Claim,
            Acquire::Serialize { lease } => AcquireView::Serialize { lease: lease@ },
            Acquire::Install { lease } => AcquireView::Install { lease: lease@ },
            Acquire::WriteLocal { lease } => AcquireView::WriteLocal { lease: lease@ },
            Acquire::Undo { error } => AcquireView::Undo { error: error@ },
        }
    }
}

pub enum AcquireOutcome {
    Continue(Acquire, Effect),
    /// The lease, and whether this command created it.
    Acquired(Lease, bool),
    Failed(BusyNasError),
}

pub enum AcquireOutcomeView {
    Continue(AcquireView, EffectView),
    Acquired(LeaseView, bool),
    Failed(ErrorView),
}

impl View for AcquireOutcome {
    type V = AcquireOutcomeView;

    open spec fn view(&self) -> AcquireOutcomeView {
        match self {
            AcquireOutcome::Continue(s, e) => AcquireOutcomeView::Continue(s@, e@),
            AcquireOutcome::Acquired(l, n) => AcquireOutcomeView::Acquired(l@, *n),
            AcquireOutcome::Failed(e) => AcquireOutcomeView::Failed(e@),
        }
    }
}

/// A lease as `Lease::new` makes it for `p`: this format version, a version 4 UUID
/// as token, and an instant that chrono can hold.
pub open spec fn fresh_lease(p: Seq<char>, l: LeaseView) -> bool {
    &&& l.format_version == crate::lease::FORMAT_VERSION
    &&& l.project == p
    &&& exists|v: u128| crate::uuids::is_v4(v) && l.token == crate::uuids::uuid_hyphenated_text(v)
    &&& in_chrono_range(l.created_at)
}

/// A lease that satisfies `fresh_lease`, for proofs that do not use it.
pub proof fn lemma_fresh_lease_exists(p: Seq<char>) -> (l: LeaseView)
    ensures
        fresh_lease(p, l),
{
    let v: u128 = 0x40008000000000000000u128;
    assert(crate::uuids::is_v4(v)) by (bit_vector)
        requires
            v == 0x40008000000000000000u128,
    ;
    LeaseView {
        format_version: crate::lease::FORMAT_VERSION as nat,
        project: p,
        token: crate::uuids::uuid_hyphenated_text(v),
        created_at: UtcTime { secs: 0, nanos: 0 },
    }
}

pub open spec fn acquire_answers(s: AcquireView, e: EventView) -> bool {
    match s {
        AcquireView::ReadLocal => e is LocalLease,
        AcquireView::Resume { check, .. } => check_answers(check, e),
        AcquireView::Serialize { .. } => e is Serialized,
        AcquireView::WriteLocal { .. } => e is Done,
        _ => e is Ran,
    }
}

/// After a failure past the claim: remove the lease directory, then report `error`.
pub open spec fn undo(c: Context, p: Seq<char>, error: ErrorView) -> AcquireOutcomeView {
    AcquireOutcomeView::Continue(
        AcquireView::Undo { error },
        run_effect(rm_rf(ssh(c), target(c), lease_path(c, p))),
    )
}

pub open spec fn acquire_begin(p: Seq<char>) -> EffectView {
    EffectView::ReadLocalLease(p)
}

/// One step of taking or resuming a lease on `p`; `fresh` is the lease that
/// `Lease::new` makes when the claim succeeds.
pub open spec fn acquire_next(c: Context, p: Seq<char>, s: AcquireView, e: EventView, fresh: LeaseView) -> AcquireOutcomeView {
    match (s, e) {
        (AcquireView::ReadLocal, EventView::LocalLease(Ok(l))) => AcquireOutcomeView::Continue(
            AcquireView::Resume { lease: l, check: Check::Metadata },
            check_begin(c, p),
        ),
        (AcquireView::ReadLocal, EventView::LocalLease(Err(err))) => match err {
            ErrorView::LocalLeaseMissing(_) => AcquireOutcomeView::Continue(
                AcquireView::EnsureControl,
                run_effect(mkdir_p(ssh(c), target(c), control_root(c))),
            ),
            _ => AcquireOutcomeView::Failed(err),
        },
        (AcquireView::Resume { lease, check }, _) => match check_next(c, p, lease.token, check, e) {
            CheckOutcomeView::Continue(next, eff) => AcquireOutcomeView::Continue(
                AcquireView::Resume { lease, check: next },
                eff,
            ),
            CheckOutcomeView::Matched => AcquireOutcomeView::Acquired(lease, false),
            CheckOutcomeView::Failed(err) => AcquireOutcomeView::Failed(err),
        },
        (AcquireView::EnsureControl, EventView::Ran(r)) => match remote_checked(c, "mkdir"@, r) {
            Err(err) => AcquireOutcomeView::Failed(err),
            Ok(_) => AcquireOutcomeView::Continue(
                AcquireView::EnsureLeases,
                run_effect(mkdir_p(ssh(c), target(c), leases_root(c))),
            ),
        },
        (AcquireView::EnsureLeases, EventView::Ran(r)) => match remote_checked(c, "mkdir"@, r) {
            Err(err) => AcquireOutcomeView::Failed(err),
            Ok(_) => AcquireOutcomeView::Continue(
                AcquireView::EnsureSnapshots,
                run_effect(mkdir_p(ssh(c), target(c), snapshots_base(c))),
            ),
        },
        (AcquireView::EnsureSnapshots, EventView::Ran(r)) => match remote_checked(c, "mkdir"@, r) {
            Err(err) => AcquireOutcomeView::Failed(err),
            Ok(_) => AcquireOutcomeView::Continue(
                AcquireView::Claim,
                run_effect(mkdir(ssh(c), target(c), lease_path(c, p))),
            ),
        },
        (AcquireView::Claim, EventView::Ran(Err(err))) => AcquireOutcomeView::Failed(err),
        (AcquireView::Claim, EventView::Ran(Ok(o))) => if o.success {
            AcquireOutcomeView::Continue(
                AcquireView::Serialize { lease: fresh },
                EffectView::SerializeLease(fresh),
            )
        } else {
            AcquireOutcomeView::Failed(ErrorView::LeaseHeld(p))
        },
        (AcquireView::Serialize { lease }, EventView::Serialized(Err(m))) => AcquireOutcomeView::Failed(
            ErrorView::LeaseSerialize(m),
        ),
        (AcquireView::Serialize { lease }, EventView::Serialized(Ok(text))) => AcquireOutcomeView::Continue(
            AcquireView::Install { lease },
            run_effect(
                install(
                    ssh(c),
                    target(c),
                    lease_metadata_path(c, p),
                    vstd::utf8::encode_utf8(text),
                ),
            ),
        ),
        (AcquireView::Install { lease }, EventView::Ran(r)) => match remote_checked(c, "install"@, r) {
            Err(err) => undo(c, p, err),
            Ok(_) => AcquireOutcomeView::Continue(
                AcquireView::WriteLocal { lease },
                EffectView::WriteLocalLease(p, lease),
            ),
        },
        (AcquireView::WriteLocal { lease }, EventView::Done(Err(err))) => undo(c, p, err),
        (AcquireView::WriteLocal { lease }, EventView::Done(Ok(()))) => AcquireOutcomeView::Acquired(
            lease,
            true,
        ),
        (AcquireView::Undo { error }, EventView::Ran(r)) => match remote_checked(c, "rm"@, r) {
            Err(err) => AcquireOutcomeView::Failed(err),
            Ok(_) => AcquireOutcomeView::Failed(error),
        },
        _ => arbitrary(),
    }
}

/// A command outcome checked as `remote_checked` says.
fn remote_checked_exec(remote: &Remote, command: &str, r: Result<CommandOutput>) -> (out: Result<CommandOutput>)
    ensures
        match out {
            Ok(o) => Ok::<OutputView, ErrorView>(o@),
            Err(e) => Err(e@),
        } == checked(
            remote.ssh@ + " "@ + command@,
            match r {
                Ok(o) => Ok(o@),
                Err(e) => Err(e@),
            },
        ),
{
    match r {
        Err(e) => Err(e),
        Ok(o) => {
            if o.success {
                Ok(o)
            } else {
                Err(remote.failure(command, &o))
            }
        },
    }
}

fn copy_lease(l: &Lease) -> (r: Lease)
    ensures
        r@ == l@,
{
    Lease {
        format_version: l.format_version,
        project: l.project.clone(),
        token: l.token.clone(),
        created_at: l.created_at,
    }
}

impl Context {
    fn acquire_begin(&self, project: &ProjectName) -> (e: Effect)
        ensures
            e@ == acquire_begin(project@),
    {
        Effect::ReadLocalLease { project: project.duplicate() }
    }

    fn undo(&self, project: &ProjectName, error: BusyNasError) -> (r: AcquireOutcome)
        ensures
            r@ == undo(*self, project@, error@),
    {
        let path = self.lease_path(project);
        AcquireOutcome::Continue(Acquire::Undo { error }, run(self.remote().remove_dir_all(path.as_str())))
    }

    fn acquire_step(&self, project: &ProjectName, s: Acquire, event: Event) -> (r: AcquireOutcome)
        requires
            acquire_answers(s@, event@),
        ensures
            exists|fresh: LeaseView| fresh_lease(project@, fresh) && r@ == acquire_next(*self, project@, s@, event@, fresh),
    {
        let ghost some_fresh = lemma_fresh_lease_exists(project@);
        let remote = self.remote();
        match s {
            Acquire::ReadLocal => match event {
                Event::LocalLease(Ok(l)) => AcquireOutcome::Continue(
                    Acquire::Resume { lease: l, check: Check::Metadata },
                    self.check_begin(project),
                ),
                Event::LocalLease(Err(err)) => match err {
                    BusyNasError::LocalLeaseMissing(_) => AcquireOutcome::Continue(
                        Acquire::EnsureControl,
                        run(remote.ensure_directory(self.control_root().as_str())),
                    ),
                    _ => AcquireOutcome::Failed(err),
                },
                _ => unreached(),
            },
            Acquire::Resume { lease, check } => match self.check_step(project, &lease.token, check, event) {
                CheckOutcome::Continue(next, eff) => AcquireOutcome::Continue(
                    Acquire::Resume { lease, check: next },
                    eff,
                ),
                CheckOutcome::Matched => AcquireOutcome::Acquired(lease, false),
                CheckOutcome::Failed(err) => AcquireOutcome::Failed(err),
            },
            Acquire::EnsureControl => match event {
                Event::Ran(r) => match remote_checked_exec(&remote, "mkdir", r) {
                    Err(err) => AcquireOutcome::Failed(err),
                    Ok(_) => AcquireOutcome::Continue(
                        Acquire::EnsureLeases,
                        run(remote.ensure_directory(self.leases_root().as_str())),
                    ),
                },
                _ => unreached(),
            },
            Acquire::EnsureLeases => match event {
                Event::Ran(r) => match remote_checked_exec(&remote, "mkdir", r) {
                    Err(err) => AcquireOutcome::Failed(err),
                    Ok(_) => {
                        let base = join(self.control_root().as_str(), "snapshots");
                        AcquireOutcome::Continue(
                            Acquire::EnsureSnapshots,
                            run(remote.ensure_directory(base.as_str())),
                        )
                    },
                },
                _ => unreached(),
            },
            Acquire::EnsureSnapshots => match event {
                Event::Ran(r) => match remote_checked_exec(&remote, "mkdir", r) {
                    Err(err) => AcquireOutcome::Failed(err),
                    Ok(_) => AcquireOutcome::Continue(
                        Acquire::Claim,
                        run(remote.make_directory(self.lease_path(project).as_str())),
                    ),
                },
                _ => unreached(),
            },
            Acquire::Claim => match event {
                Event::Ran(Err(err)) => AcquireOutcome::Failed(err),
                Event::Ran(Ok(o)) => {
                    if o.success {
                        let lease = Lease::new(project);
                        let copy = copy_lease(&lease);
                        let r = AcquireOutcome::Continue(
                            Acquire::Serialize { lease },
                            Effect::SerializeLease { lease: copy },
                        );
                        assert(fresh_lease(project@, copy@));
                        assert(r@ == acquire_next(*self, project@, s@, event@, copy@));
                        return r;
                    } else {
                        AcquireOutcome::Failed(BusyNasError::LeaseHeld(owned(project.as_str())))
                    }
                },
                _ => unreached(),
            },
            Acquire::Serialize { lease } => match event {
                Event::Serialized(Err(m)) => AcquireOutcome::Failed(BusyNasError::LeaseSerialize(m)),
                Event::Serialized(Ok(text)) => {
                    let bytes = text.as_str().as_bytes_vec();
                    let path = self.lease_metadata_path(project);
                    AcquireOutcome::Continue(
                        Acquire::Install { lease },
                        run(remote.install_file(path.as_str(), bytes)),
                    )
                },
                _ => unreached(),
            },
            Acquire::Install { lease } => match event {
                Event::Ran(r) => match remote_checked_exec(&remote, "install", r) {
                    Err(err) => self.undo(project, err),
                    Ok(_) => {
                        let copy = copy_lease(&lease);
                        AcquireOutcome::Continue(
                            Acquire::WriteLocal { lease },
                            Effect::WriteLocalLease { project: project.duplicate(), lease: copy },
                        )
                    },
                },
                _ => unreached(),
            },
            Acquire::WriteLocal { lease } => match event {
                Event::Done(Err(err)) => self.undo(project, err),
                Event::Done(Ok(())) => AcquireOutcome::Acquired(lease, true),
                _ => unreached(),
            },
            Acquire::Undo { error } => match event {
                Event::Ran(r) => match remote_checked_exec(&remote, "rm", r) {
                    Err(err) => AcquireOutcome::Failed(err),
                    Ok(_) => AcquireOutcome::Failed(error),
                },
                _ => unreached(),
            },
        }
    }
}


// ---------------------------------------------------------------------------
// Giving the lease back
// ---------------------------------------------------------------------------

#[derive(Clone, Copy, Debug, PartialEq, Eq, Structural)]
pub enum Release {
    /// Checking that the NAS lease is still ours.
    Checking(Check),
    /// Removing the lease directory.
    Removing,
}

pub enum ReleaseOutcome {
    Continue(Release, Effect),
    Released,
    Failed(BusyNasError),
}

pub enum ReleaseOutcomeView {
    Continue(Release, EffectView),
    Released,
    Failed(ErrorView),
}

impl View for ReleaseOutcome {
    type V = ReleaseOutcomeView;

    open spec fn view(&self) -> ReleaseOutcomeView {
        match self {
            ReleaseOutcome::Continue(s, e) => ReleaseOutcomeView::Continue(*s, e@),
            ReleaseOutcome::Released => ReleaseOutcomeView::Released,
            ReleaseOutcome::Failed(e) => ReleaseOutcomeView::Failed(e@),
        }
    }
}

pub open spec fn release_answers(s: Release, e: EventView) -> bool {
    match s {
        Release::Checking(check) => check_answers(check, e),
        Release::Removing => e is Ran,
    }
}

/// One step of releasing the lease on `p` that carries `token`.
pub open spec fn release_next(c: Context, p: Seq<char>, token: Seq<char>, s: Release, e: EventView) -> ReleaseOutcomeView {
    match s {
        Release::Checking(check) => match check_next(c, p, token, check, e) {
            CheckOutcomeView::Continue(next, eff) => ReleaseOutcomeView::Continue(
                Release::Checking(next),
                eff,
            ),
            CheckOutcomeView::Matched => ReleaseOutcomeView::Continue(
                Release::Removing,
                run_effect(rm_rf(ssh(c), target(c), lease_path(c, p))),
            ),
            CheckOutcomeView::Failed(err) => ReleaseOutcomeView::Failed(err),
        },
        Release::Removing => match e {
            EventView::Ran(r) => match remote_checked(c, "rm"@, r) {
                Err(err) => ReleaseOutcomeView::Failed(err),
                Ok(_) => ReleaseOutcomeView::Released,
            },
            _ => arbitrary(),
        },
    }
}

// ---------------------------------------------------------------------------
// Listing directories on the NAS
// ---------------------------------------------------------------------------

#[derive(Clone, Copy, Debug, PartialEq, Eq, Structural)]
pub enum Listing {
    /// Whether the directory exists.
    Testing,
    /// `find` of its subdirectories.
    Finding,
}

pub enum ListingOutcome {
    Continue(Listing, Effect),
    /// The names, sorted.
    Listed(Vec<String>),
    Failed(BusyNasError),
}

pub enum ListingOutcomeView {
    Continue(Listing, EffectView),
    Listed(Seq<Seq<char>>),
    Failed(ErrorView),
}

impl View for ListingOutcome {
    type V = ListingOutcomeView;

    open spec fn view(&self) -> ListingOutcomeView {
        match self {
            ListingOutcome::Continue(s, e) => ListingOutcomeView::Continue(*s, e@),
            ListingOutcome::Listed(v) => ListingOutcomeView::Listed(strs(v@)),
            ListingOutcome::Failed(e) => ListingOutcomeView::Failed(e@),
        }
    }
}

/// The subdirectory names in `find`'s output, sorted.
pub open spec fn names_in(stdout: Seq<u8>) -> Seq<Seq<char>> {
    crate::order::in_sorted_order(listed_names(lines(lossy_text(stdout))))
}

pub open spec fn listing_begin(c: Context, path: Seq<char>) -> EffectView {
    run_effect(test_dir(ssh(c), target(c), path))
}

/// One step of listing the subdirectories of `path` on the NAS; a missing
/// directory has none.
pub open spec fn listing_next(c: Context, path: Seq<char>, s: Listing, e: EventView) -> ListingOutcomeView {
    match (s, e) {
        (Listing::Testing, EventView::Ran(Err(err))) => ListingOutcomeView::Failed(err),
        (Listing::Testing, EventView::Ran(Ok(o))) => if o.success {
            ListingOutcomeView::Continue(Listing::Finding, run_effect(find_dirs(ssh(c), target(c), path)))
        } else {
            ListingOutcomeView::Listed(Seq::empty())
        },
        (Listing::Finding, EventView::Ran(r)) => match remote_checked(c, "find"@, r) {
            Err(err) => ListingOutcomeView::Failed(err),
            Ok(o) => ListingOutcomeView::Listed(names_in(o.stdout)),
        },
        _ => arbitrary(),
    }
}

impl Context {
    fn release_step(&self, project: &ProjectName, token: &String, s: Release, event: Event) -> (r:
        ReleaseOutcome)
        requires
            release_answers(s, event@),
        ensures
            r@ == release_next(*self, project@, token@, s, event@),
    {
        match s {
            Release::Checking(check) => match self.check_step(project, token, check, event) {
                CheckOutcome::Continue(next, eff) => ReleaseOutcome::Continue(Release::Checking(next), eff),
                CheckOutcome::Matched => {
                    let path = self.lease_path(project);
                    ReleaseOutcome::Continue(Release::Removing, run(self.remote().remove_dir_all(path.as_str())))
                },
                CheckOutcome::Failed(err) => ReleaseOutcome::Failed(err),
            },
            Release::Removing => match event {
                Event::Ran(r) => match remote_checked_exec(&self.remote(), "rm", r) {
                    Err(err) => ReleaseOutcome::Failed(err),
                    Ok(_) => ReleaseOutcome::Released,
                },
                _ => unreached(),
            },
        }
    }

    fn listing_begin(&self, path: &str) -> (e: Effect)
        ensures
            e@ == listing_begin(*self, path@),
    {
        run(self.remote().is_directory(path))
    }

    fn listing_step(&self, path: &str, s: Listing, event: Event) -> (r: ListingOutcome)
        requires
            event@ is Ran,
        ensures
            r@ == listing_next(*self, path@, s, event@),
    {
        match (s, event) {
            (Listing::Testing, Event::Ran(Err(err))) => ListingOutcome::Failed(err),
            (Listing::Testing, Event::Ran(Ok(o))) => {
                if o.success {
                    ListingOutcome::Continue(Listing::Finding, run(self.remote().find_directories(path)))
                } else {
                    let v: Vec<String> = Vec::new();
                    assert(strs(v@) =~= Seq::<Seq<char>>::empty());
                    ListingOutcome::Listed(v)
                }
            },
            (Listing::Finding, Event::Ran(r)) => match remote_checked_exec(&self.remote(), "find", r) {
                Err(err) => ListingOutcome::Failed(err),
                Ok(o) => {
                    let names = crate::remote::directory_names(o.stdout_text().as_str());
                    proof {
                        crate::order::lemma_in_sorted_order(strs(names@), listed_names(lines(lossy_text(o.stdout@))));
                    }
                    ListingOutcome::Listed(names)
                },
            },
            _ => unreached(),
        }
    }
}


// ---------------------------------------------------------------------------
// Building actions
// ---------------------------------------------------------------------------

pub open spec fn plain(effect: EffectView) -> ActionView {
    ActionView { report: None, effect }
}

pub open spec fn reported(kind: ReportKind, phase: Seq<char>, detail: Seq<char>, effect: EffectView) -> ActionView {
    ActionView { report: Some(ReportView { kind, phase, detail }), effect }
}

/// The command ends with `r` and nothing more to show.
pub open spec fn finish(r: core::result::Result<(), ErrorView>) -> ActionView {
    plain(EffectView::Finish(r))
}

/// The command ends in success, with a last progress line.
pub open spec fn finish_done(detail: Seq<char>) -> ActionView {
    reported(ReportKind::Done, Seq::empty(), detail, EffectView::Finish(Ok(())))
}

fn plain_action(effect: Effect) -> (a: Action)
    ensures
        a@ == plain(effect@),
{
    Action { report: None, effect }
}

fn reported_action(kind: ReportKind, phase: &str, detail: String, effect: Effect) -> (a: Action)
    ensures
        a@ == reported(kind, phase@, detail@, effect@),
{
    Action { report: Some(ReportLine { kind, phase: owned(phase), detail }), effect }
}

fn finish_action(r: Result<()>) -> (a: Action)
    ensures
        a@ == finish(unit_view(r)),
{
    plain_action(Effect::Finish { result: r })
}

fn fail_action(e: BusyNasError) -> (a: Action)
    ensures
        a@ == finish(Err(e@)),
{
    finish_action(Err(e))
}

fn done_action(detail: String) -> (a: Action)
    ensures
        a@ == finish_done(detail@),
{
    let a = Action {
        report: Some(ReportLine { kind: ReportKind::Done, phase: String::new(), detail }),
        effect: Effect::Finish { result: Ok(()) },
    };
    assert(a@.report->0.phase =~= Seq::<char>::empty());
    a
}

// ---------------------------------------------------------------------------
// get: claim a project and copy it from the NAS
// ---------------------------------------------------------------------------

pub enum GetStep {
    Workspace,
    Inspect,
    Acquiring(Acquire),
    /// Whether the NAS has the project.
    CheckRemote { lease: Lease, newly: bool },
    /// Copying the NAS tree into the checkout.
    Transfer { lease: Lease, newly: bool },
    /// Removing the partial checkout after `error`.
    Cleanup { lease: Lease, newly: bool, error: BusyNasError },
    /// Giving back the lease that this command took.
    CleanupRelease { token: String, release: Release, error: BusyNasError },
    /// Forgetting the local record of it.
    CleanupForget { error: BusyNasError },
}

pub enum GetStepView {
    Workspace,
    Inspect,
    Acquiring(AcquireView),
    CheckRemote { lease: LeaseView, newly: bool },
    Transfer { lease: LeaseView, newly: bool },
    Cleanup { lease: LeaseView, newly: bool, error: ErrorView },
    CleanupRelease { token: Seq<char>, release: Release, error: ErrorView },
    CleanupForget { error: ErrorView },
}

impl View for GetStep {
    type V = GetStepView;

    open spec fn view(&self) -> GetStepView {
        match self {
            GetStep::Workspace => GetStepView::Workspace,
            GetStep::Inspect => GetStepView::Inspect,
            GetStep::Acquiring(a) => GetStepView::Acquiring(a@),
            GetStep::CheckRemote { lease, newly } => GetStepView::CheckRemote { lease: lease@, newly: *newly },
            GetStep::Transfer { lease, newly } => GetStepView::Transfer { lease: lease@, newly: *newly },
            GetStep::Cleanup { lease, newly, error } => GetStepView::Cleanup {
                lease: lease@,
                newly: *newly,
                error: error@,
            },
            GetStep::CleanupRelease { token, release, error } => GetStepView::CleanupRelease {
                token: token@,
                release: *release,
                error: error@,
            },
            GetStep::CleanupForget { error } => GetStepView::CleanupForget { error: error@ },
        }
    }
}

pub open spec fn get_answers(s: GetStepView, e: EventView) -> bool {
    match s {
        GetStepView::Workspace => e is Workspace,
        GetStepView::Inspect => e is Path,
        GetStepView::Acquiring(a) => acquire_answers(a, e),
        GetStepView::CheckRemote { .. } => e is Ran,
        GetStepView::Transfer { .. } => e is Ran,
        GetStepView::Cleanup { .. } => e is Done,
        GetStepView::CleanupRelease { release, .. } => release_answers(release, e),
        GetStepView::CleanupForget { .. } => e is Done,
    }
}

pub open spec fn get_begin(c: Context, p: Seq<char>) -> ActionView {
    reported(ReportKind::Start, "get"@, p, EffectView::CheckWorkspace(c.config.workspace_root@))
}

/// After `err` in the transfer: remove the partial checkout (a missing one is fine).
pub open spec fn get_cleanup(c: Context, p: Seq<char>, lease: LeaseView, newly: bool, err: ErrorView) -> (Option<GetStepView>, ActionView) {
    (
        Some(GetStepView::Cleanup { lease, newly, error: err }),
        reported(
            ReportKind::Phase,
            "cleanup"@,
            "removing partial checkout"@,
            EffectView::RemoveTree(checkout_path(c, p), true),
        ),
    )
}

/// One step of `get` on `p`: the next step (none when the command is over) and the
/// action to take.
pub open spec fn get_next(c: Context, p: Seq<char>, s: GetStepView, e: EventView, fresh: LeaseView) -> (Option<GetStepView>, ActionView) {
    match s {
        GetStepView::Workspace => match e {
            EventView::Workspace(Err(err)) => (None, finish(Err(err))),
            _ => (Some(GetStepView::Inspect), plain(EffectView::InspectPath(checkout_path(c, p)))),
        },
        GetStepView::Inspect => match e {
            EventView::Path(PathKind::Missing) => (
                Some(GetStepView::Acquiring(AcquireView::ReadLocal)),
                reported(ReportKind::Phase, "lease"@, "acquiring"@, acquire_begin(p)),
            ),
            _ => (None, finish(Err(ErrorView::CheckoutExists(checkout_path(c, p))))),
        },
        GetStepView::Acquiring(a) => match acquire_next(c, p, a, e, fresh) {
            AcquireOutcomeView::Continue(next, eff) => (Some(GetStepView::Acquiring(next)), plain(eff)),
            AcquireOutcomeView::Failed(err) => (None, finish(Err(err))),
            AcquireOutcomeView::Acquired(lease, newly) => (
                Some(GetStepView::CheckRemote { lease, newly }),
                plain(run_effect(test_dir(ssh(c), target(c), remote_project_path(c, p)))),
            ),
        },
        GetStepView::CheckRemote { lease, newly } => match e {
            EventView::Ran(Err(err)) => get_cleanup(c, p, lease, newly, err),
            EventView::Ran(Ok(o)) => if o.success {
                (
                    Some(GetStepView::Transfer { lease, newly }),
                    reported(
                        ReportKind::Phase,
                        "transfer"@,
                        "copying NAS to local checkout"@,
                        run_effect(download_command(c, p)),
                    ),
                )
            } else {
                get_cleanup(c, p, lease, newly, ErrorView::RemoteProjectMissing(p))
            },
            _ => arbitrary(),
        },
        GetStepView::Transfer { lease, newly } => match e {
            EventView::Ran(r) => match checked(c.programs.rsync@, r) {
                Err(err) => get_cleanup(c, p, lease, newly, err),
                Ok(_) => (None, finish_done("ready at "@ + checkout_path(c, p))),
            },
            _ => arbitrary(),
        },
        GetStepView::Cleanup { lease, newly, error } => match e {
            EventView::Done(Err(err)) => (None, finish(Err(err))),
            _ => if newly {
                (
                    Some(GetStepView::CleanupRelease { token: lease.token, release: Release::Checking(Check::Metadata), error }),
                    plain(check_begin(c, p)),
                )
            } else {
                (None, finish(Err(error)))
            },
        },
        GetStepView::CleanupRelease { token, release, error } => match release_next(c, p, token, release, e) {
            ReleaseOutcomeView::Continue(next, eff) => (
                Some(GetStepView::CleanupRelease { token, release: next, error }),
                plain(eff),
            ),
            ReleaseOutcomeView::Failed(err) => (None, finish(Err(err))),
            ReleaseOutcomeView::Released => (
                Some(GetStepView::CleanupForget { error }),
                plain(EffectView::RemoveLocalLease(p)),
            ),
        },
        GetStepView::CleanupForget { error } => match e {
            EventView::Done(Err(err)) => (None, finish(Err(err))),
            _ => (None, finish(Err(error))),
        },
    }
}

pub open spec fn get_view(r: (Option<GetStep>, Action)) -> (Option<GetStepView>, ActionView) {
    (
        match r.0 {
            Some(s) => Some(s@),
            None => None,
        },
        r.1@,
    )
}

impl Context {
    fn get_begin(&self, project: &ProjectName) -> (a: Action)
        ensures
            a@ == get_begin(*self, project@),
    {
        reported_action(
            ReportKind::Start,
            "get",
            owned(project.as_str()),
            Effect::CheckWorkspace { root: owned(self.config.workspace_root.as_str()) },
        )
    }

    fn get_cleanup(&self, project: &ProjectName, lease: Lease, newly: bool, err: BusyNasError) -> (r: (
        Option<GetStep>,
        Action,
    ))
        ensures
            get_view(r) == get_cleanup(*self, project@, lease@, newly, err@),
    {
        (
            Some(GetStep::Cleanup { lease, newly, error: err }),
            reported_action(
                ReportKind::Phase,
                "cleanup",
                owned("removing partial checkout"),
                Effect::RemoveTree { path: self.checkout_path(project), missing_ok: true },
            ),
        )
    }

    fn get_step(&self, project: &ProjectName, s: GetStep, event: Event) -> (r: (Option<GetStep>, Action))
        requires
            get_answers(s@, event@),
        ensures
            exists|fresh: LeaseView| fresh_lease(project@, fresh) && get_view(r) == get_next(*self, project@, s@, event@, fresh),
    {
        let ghost some_fresh = lemma_fresh_lease_exists(project@);
        let ghost s_view = s@;
        let ghost e_view = event@;
        match s {
            GetStep::Workspace => match event {
                Event::Workspace(Err(err)) => (None, fail_action(err)),
                _ => (Some(GetStep::Inspect), plain_action(Effect::InspectPath { path: self.checkout_path(project) })),
            },
            GetStep::Inspect => match event {
                Event::Path(PathKind::Missing) => (
                    Some(GetStep::Acquiring(Acquire::ReadLocal)),
                    reported_action(ReportKind::Phase, "lease", owned("acquiring"), self.acquire_begin(project)),
                ),
                _ => {
                    let checkout = self.checkout_path(project);
                    (None, fail_action(BusyNasError::CheckoutExists(checkout)))
                },
            },
            GetStep::Acquiring(a) => {
                let outcome = self.acquire_step(project, a, event);
                let ghost f = choose|f: LeaseView| fresh_lease(project@, f) && outcome@ == acquire_next(*self, project@, s_view->Acquiring_0, e_view, f);
                let r = match outcome {
                    AcquireOutcome::Continue(next, eff) => (Some(GetStep::Acquiring(next)), plain_action(eff)),
                    AcquireOutcome::Failed(err) => (None, fail_action(err)),
                    AcquireOutcome::Acquired(lease, newly) => {
                        let path = self.remote_project_path(project);
                        (
                            Some(GetStep::CheckRemote { lease, newly }),
                            plain_action(run(self.remote().is_directory(path.as_str()))),
                        )
                    },
                };
                assert(get_view(r) == get_next(*self, project@, s_view, e_view, f));
                r
            },
            GetStep::CheckRemote { lease, newly } => match event {
                Event::Ran(Err(err)) => self.get_cleanup(project, lease, newly, err),
                Event::Ran(Ok(o)) => {
                    if o.success {
                        let source = self.remote_endpoint(self.remote_project_path(project).as_str(), true);
                        let spec = self.rsync_spec(source, self.checkout_path(project), false, false, self.show_progress);
                        (
                            Some(GetStep::Transfer { lease, newly }),
                            reported_action(ReportKind::Phase, "transfer", owned("copying NAS to local checkout"), run(spec)),
                        )
                    } else {
                        self.get_cleanup(project, lease, newly, BusyNasError::RemoteProjectMissing(owned(project.as_str())))
                    }
                },
                _ => unreached(),
            },
            GetStep::Transfer { lease, newly } => match event {
                Event::Ran(Err(err)) => self.get_cleanup(project, lease, newly, err),
                Event::Ran(Ok(o)) => {
                    if o.success {
                        let mut detail = owned("ready at ");
                        push_str(&mut detail, self.checkout_path(project).as_str());
                        (None, done_action(detail))
                    } else {
                        let err = failure_error(self.programs.rsync.as_str(), &o);
                        self.get_cleanup(project, lease, newly, err)
                    }
                },
                _ => unreached(),
            },
            GetStep::Cleanup { lease, newly, error } => match event {
                Event::Done(Err(err)) => (None, fail_action(err)),
                _ => {
                    if newly {
                        (
                            Some(GetStep::CleanupRelease { token: lease.token, release: Release::Checking(Check::Metadata), error }),
                            plain_action(self.check_begin(project)),
                        )
                    } else {
                        (None, fail_action(error))
                    }
                },
            },
            GetStep::CleanupRelease { token, release, error } => match self.release_step(project, &token, release, event) {
                ReleaseOutcome::Continue(next, eff) => (
                    Some(GetStep::CleanupRelease { token, release: next, error }),
                    plain_action(eff),
                ),
                ReleaseOutcome::Failed(err) => (None, fail_action(err)),
                ReleaseOutcome::Released => (
                    Some(GetStep::CleanupForget { error }),
                    plain_action(Effect::RemoveLocalLease { project: project.duplicate() }),
                ),
            },
            GetStep::CleanupForget { error } => match event {
                Event::Done(Err(err)) => (None, fail_action(err)),
                _ => (None, fail_action(error)),
            },
        }
    }
}


// ---------------------------------------------------------------------------
// put: snapshot the NAS tree, return the checkout, give the lease back
// ---------------------------------------------------------------------------

/// A snapshot name as `put` makes it: the current time in the snapshot pattern, a
/// hyphen, and the first eight hexadecimal digits of a version 4 UUID.
pub open spec fn fresh_snapshot_name(n: Seq<char>) -> bool {
    exists|t: UtcTime, v: u128|
        in_chrono_range(t) && crate::uuids::is_v4(v) && n == snapshot_name(
            utc_format_text(t.secs as int, t.nanos as int, snapshot_pattern()),
            v,
        )
}

/// `<stamp>-<first eight digits of the UUID>`.
pub open spec fn snapshot_name(stamp: Seq<char>, v: u128) -> Seq<char> {
    stamp + "-"@ + uuid_simple_text(v).take(8)
}

/// How many of `n` snapshots go so that `retention` stay (`saturating_sub`).
pub open spec fn excess(n: nat, retention: nat) -> nat {
    if n > retention {
        (n - retention) as nat
    } else {
        0
    }
}

pub enum PutStep {
    Workspace,
    Inspect,
    ReadLease,
    Checking { lease: Lease, check: Check },
    CheckRemote { lease: Lease },
    SnapshotRoot { lease: Lease, snapshot: String },
    SnapshotDir { lease: Lease, snapshot: String },
    SnapshotCopy { lease: Lease },
    Upload { lease: Lease },
    Verify { lease: Lease },
    Pruning { lease: Lease, listing: Listing },
    /// Removing the oldest snapshots: `names[next]` now.
    Removing { lease: Lease, names: Vec<String>, next: usize },
    RemoveCheckout { lease: Lease },
    Releasing { lease: Lease, release: Release },
    Forget,
}

pub enum PutStepView {
    Workspace,
    Inspect,
    ReadLease,
    Checking { lease: LeaseView, check: Check },
    CheckRemote { lease: LeaseView },
    SnapshotRoot { lease: LeaseView, snapshot: Seq<char> },
    SnapshotDir { lease: LeaseView, snapshot: Seq<char> },
    SnapshotCopy { lease: LeaseView },
    Upload { lease: LeaseView },
    Verify { lease: LeaseView },
    Pruning { lease: LeaseView, listing: Listing },
    Removing { lease: LeaseView, names: Seq<Seq<char>>, next: nat },
    RemoveCheckout { lease: LeaseView },
    Releasing { lease: LeaseView, release: Release },
    Forget,
}

impl View for PutStep {
    type V = PutStepView;

    open spec fn view(&self) -> PutStepView {
        match self {
            PutStep::Workspace => PutStepView::Workspace,
            PutStep::Inspect => PutStepView::Inspect,
            PutStep::ReadLease => PutStepView::ReadLease,
            PutStep::Checking { lease, check } => PutStepView::Checking { lease: lease@, check: *check },
            PutStep::CheckRemote { lease } => PutStepView::CheckRemote { lease: lease@ },
            PutStep::SnapshotRoot { lease, snapshot } => PutStepView::SnapshotRoot { lease: lease@, snapshot: snapshot@ },
            PutStep::SnapshotDir { lease, snapshot } => PutStepView::SnapshotDir { lease: lease@, snapshot: snapshot@ },
            PutStep::SnapshotCopy { lease } => PutStepView::SnapshotCopy { lease: lease@ },
            PutStep::Upload { lease } => PutStepView::Upload { lease: lease@ },
            PutStep::Verify { lease } => PutStepView::Verify { lease: lease@ },
            PutStep::Pruning { lease, listing } => PutStepView::Pruning { lease: lease@, listing: *listing },
            PutStep::Removing { lease, names, next } => PutStepView::Removing {
                lease: lease@,
                names: strs(names@),
                next: *next as nat,
            },
            PutStep::RemoveCheckout { lease } => PutStepView::RemoveCheckout { lease: lease@ },
            PutStep::Releasing { lease, release } => PutStepView::Releasing { lease: lease@, release: *release },
            PutStep::Forget => PutStepView::Forget,
        }
    }
}

pub open spec fn put_answers(s: PutStepView, e: EventView) -> bool {
    match s {
        PutStepView::Workspace => e is Workspace,
        PutStepView::Inspect => e is Path,
        PutStepView::ReadLease => e is LocalLease,
        PutStepView::Checking { check, .. } => check_answers(check, e),
        PutStepView::RemoveCheckout { .. } => e is Done,
        PutStepView::Releasing { release, .. } => release_answers(release, e),
        PutStepView::Forget => e is Done,
        _ => e is Ran,
    }
}

pub open spec fn put_begin(c: Context, p: Seq<char>) -> ActionView {
    reported(ReportKind::Start, "put"@, p, EffectView::CheckWorkspace(c.config.workspace_root@))
}

/// Remove `names[i]` if it is among the oldest to go, else go on to the checkout.
pub open spec fn prune_from(c: Context, p: Seq<char>, lease: LeaseView, names: Seq<Seq<char>>, i: nat) -> (Option<PutStepView>, ActionView) {
    if i < excess(names.len(), c.config.snapshot_retention as nat) {
        (
            Some(PutStepView::Removing { lease, names, next: i }),
            plain(run_effect(rm_rf(ssh(c), target(c), path_join(snapshots_root(c, p), names[i as int])))),
        )
    } else {
        (
            Some(PutStepView::RemoveCheckout { lease }),
            reported(
                ReportKind::Phase,
                "cleanup"@,
                "removing local checkout"@,
                EffectView::RemoveTree(checkout_path(c, p), false),
            ),
        )
    }
}

/// One step of `put` on `p`; `name` is the snapshot name that it makes.
pub open spec fn put_next(c: Context, p: Seq<char>, s: PutStepView, e: EventView, name: Seq<char>) -> (Option<PutStepView>, ActionView) {
    match s {
        PutStepView::Workspace => match e {
            EventView::Workspace(Err(err)) => (None, finish(Err(err))),
            _ => (Some(PutStepView::Inspect), plain(EffectView::InspectPath(checkout_path(c, p)))),
        },
        PutStepView::Inspect => match e {
            EventView::Path(PathKind::Directory) => (
                Some(PutStepView::ReadLease),
                plain(EffectView::ReadLocalLease(p)),
            ),
            _ => (None, finish(Err(ErrorView::CheckoutMissing(checkout_path(c, p))))),
        },
        PutStepView::ReadLease => match e {
            EventView::LocalLease(Ok(lease)) => (
                Some(PutStepView::Checking { lease, check: Check::Metadata }),
                reported(ReportKind::Phase, "lease"@, "checking"@, check_begin(c, p)),
            ),
            EventView::LocalLease(Err(err)) => (None, finish(Err(err))),
            _ => arbitrary(),
        },
        PutStepView::Checking { lease, check } => match check_next(c, p, lease.token, check, e) {
            CheckOutcomeView::Continue(next, eff) => (Some(PutStepView::Checking { lease, check: next }), plain(eff)),
            CheckOutcomeView::Failed(err) => (None, finish(Err(err))),
            CheckOutcomeView::Matched => (
                Some(PutStepView::CheckRemote { lease }),
                plain(run_effect(test_dir(ssh(c), target(c), remote_project_path(c, p)))),
            ),
        },
        PutStepView::CheckRemote { lease } => match e {
            EventView::Ran(Err(err)) => (None, finish(Err(err))),
            EventView::Ran(Ok(o)) => if o.success {
                (
                    Some(PutStepView::SnapshotRoot { lease, snapshot: path_join(snapshots_root(c, p), name) }),
                    reported(
                        ReportKind::Phase,
                        "snapshot"@,
                        "saving canonical source"@,
                        run_effect(mkdir_p(ssh(c), target(c), snapshots_root(c, p))),
                    ),
                )
            } else {
                (None, finish(Err(ErrorView::RemoteProjectMissing(p))))
            },
            _ => arbitrary(),
        },
        PutStepView::SnapshotRoot { lease, snapshot } => match e {
            EventView::Ran(r) => match remote_checked(c, "mkdir"@, r) {
                Err(err) => (None, finish(Err(err))),
                Ok(_) => (
                    Some(PutStepView::SnapshotDir { lease, snapshot }),
                    plain(run_effect(mkdir_p(ssh(c), target(c), snapshot))),
                ),
            },
            _ => arbitrary(),
        },
        PutStepView::SnapshotDir { lease, snapshot } => match e {
            EventView::Ran(r) => match remote_checked(c, "mkdir"@, r) {
                Err(err) => (None, finish(Err(err))),
                Ok(_) => (
                    Some(PutStepView::SnapshotCopy { lease }),
                    plain(run_effect(copy_tree(ssh(c), target(c), remote_project_path(c, p), snapshot))),
                ),
            },
            _ => arbitrary(),
        },
        PutStepView::SnapshotCopy { lease } => match e {
            EventView::Ran(r) => match remote_checked(c, "rsync"@, r) {
                Err(err) => (None, finish(Err(err))),
                Ok(_) => (
                    Some(PutStepView::Upload { lease }),
                    reported(
                        ReportKind::Phase,
                        "transfer"@,
                        "copying local changes to NAS"@,
                        run_effect(upload_command(c, p)),
                    ),
                ),
            },
            _ => arbitrary(),
        },
        PutStepView::Upload { lease } => match e {
            EventView::Ran(r) => match checked(c.programs.rsync@, r) {
                Err(err) => (None, finish(Err(err))),
                Ok(_) => (
                    Some(PutStepView::Verify { lease }),
                    reported(ReportKind::Phase, "verify"@, "checking transfer"@, run_effect(verify_command(c, p))),
                ),
            },
            _ => arbitrary(),
        },
        PutStepView::Verify { lease } => match e {
            EventView::Ran(r) => match checked(c.programs.rsync@, r) {
                Err(err) => (None, finish(Err(err))),
                Ok(o) => if all_ws(lossy_text(o.stdout)) {
                    (
                        Some(PutStepView::Pruning { lease, listing: Listing::Testing }),
                        plain(listing_begin(c, snapshots_root(c, p))),
                    )
                } else {
                    (None, finish(Err(ErrorView::TransferVerification(lossy_text(o.stdout)))))
                },
            },
            _ => arbitrary(),
        },
        PutStepView::Pruning { lease, listing } => match listing_next(c, snapshots_root(c, p), listing, e) {
            ListingOutcomeView::Continue(next, eff) => (Some(PutStepView::Pruning { lease, listing: next }), plain(eff)),
            ListingOutcomeView::Failed(err) => (None, finish(Err(err))),
            ListingOutcomeView::Listed(names) => prune_from(c, p, lease, names, 0),
        },
        PutStepView::Removing { lease, names, next } => match e {
            EventView::Ran(r) => match remote_checked(c, "rm"@, r) {
                Err(err) => (None, finish(Err(err))),
                Ok(_) => prune_from(c, p, lease, names, next + 1),
            },
            _ => arbitrary(),
        },
        PutStepView::RemoveCheckout { lease } => match e {
            EventView::Done(Err(err)) => (None, finish(Err(err))),
            _ => (
                Some(PutStepView::Releasing { lease, release: Release::Checking(Check::Metadata) }),
                plain(check_begin(c, p)),
            ),
        },
        PutStepView::Releasing { lease, release } => match release_next(c, p, lease.token, release, e) {
            ReleaseOutcomeView::Continue(next, eff) => (Some(PutStepView::Releasing { lease, release: next }), plain(eff)),
            ReleaseOutcomeView::Failed(err) => (None, finish(Err(err))),
            ReleaseOutcomeView::Released => (Some(PutStepView::Forget), plain(EffectView::RemoveLocalLease(p))),
        },
        PutStepView::Forget => match e {
            EventView::Done(Err(err)) => (None, finish(Err(err))),
            _ => (None, finish_done("NAS is canonical again"@)),
        },
    }
}

pub open spec fn put_view(r: (Option<PutStep>, Action)) -> (Option<PutStepView>, ActionView) {
    (
        match r.0 {
            Some(s) => Some(s@),
            None => None,
        },
        r.1@,
    )
}

/// A name that satisfies `fresh_snapshot_name`, for proofs that do not use it.
pub proof fn lemma_fresh_snapshot_name_exists() -> (n: Seq<char>)
    ensures
        fresh_snapshot_name(n),
{
    let v: u128 = 0x40008000000000000000u128;
    assert(crate::uuids::is_v4(v)) by (bit_vector)
        requires
            v == 0x40008000000000000000u128,
    ;
    let t = UtcTime { secs: 0, nanos: 0 };
    snapshot_name(utc_format_text(t.secs as int, t.nanos as int, snapshot_pattern()), v)
}

/// The snapshot name made of the time `stamp` and the UUID `v`: the stamp, a
/// hyphen, and the first eight hexadecimal digits of the UUID.
pub fn snapshot_name_from(stamp: String, v: u128) -> (n: String)
    ensures
        n@ == snapshot_name(stamp@, v),
{
    let id = chars_of(simple(v).as_str());
    assert(id@.len() == 32) by {
        lemma_hex_digits_len(v as nat, 32);
    }
    let mut n = stamp;
    push_str(&mut n, "-");
    crate::text::push_chars(&mut n, &id, 0, 8);
    assert(id@.subrange(0, 8) =~= uuid_simple_text(v).take(8));
    n
}

/// A name for a new snapshot, from the clock and a random UUID.
fn new_snapshot_name() -> (n: String)
    ensures
        fresh_snapshot_name(n@),
{
    let t = utc_now();
    let pattern = "%Y%m%dT%H%M%S%.3fZ";
    let stamp = format_utc(t, pattern);
    let v = new_v4();
    let n = snapshot_name_from(stamp, v);
    assert(in_chrono_range(t) && crate::uuids::is_v4(v) && n@ == snapshot_name(
        utc_format_text(t.secs as int, t.nanos as int, snapshot_pattern()),
        v,
    ));
    n
}

proof fn lemma_hex_digits_len(v: nat, n: nat)
    ensures
        crate::uuids::hex_digits(v, n).len() == n,
    decreases n,
{
    if n > 0 {
        lemma_hex_digits_len(v / 16, (n - 1) as nat);
    }
}

fn excess_count(n: usize, retention: usize) -> (k: usize)
    ensures
        k == excess(n as nat, retention as nat),
{
    if n > retention {
        n - retention
    } else {
        0
    }
}

impl Context {
    fn put_begin(&self, project: &ProjectName) -> (a: Action)
        ensures
            a@ == put_begin(*self, project@),
    {
        reported_action(
            ReportKind::Start,
            "put",
            owned(project.as_str()),
            Effect::CheckWorkspace { root: owned(self.config.workspace_root.as_str()) },
        )
    }

    fn prune_from(&self, project: &ProjectName, lease: Lease, names: Vec<String>, i: usize) -> (r: (
        Option<PutStep>,
        Action,
    ))
        ensures
            put_view(r) == prune_from(*self, project@, lease@, strs(names@), i as nat),
    {
        let k = excess_count(names.len(), self.config.snapshot_retention);
        if i < k {
            let path = join(self.snapshots_root(project).as_str(), names[i].as_str());
            (
                Some(PutStep::Removing { lease, names, next: i }),
                plain_action(run(self.remote().remove_dir_all(path.as_str()))),
            )
        } else {
            (
                Some(PutStep::RemoveCheckout { lease }),
                reported_action(
                    ReportKind::Phase,
                    "cleanup",
                    owned("removing local checkout"),
                    Effect::RemoveTree { path: self.checkout_path(project), missing_ok: false },
                ),
            )
        }
    }

    fn put_step(&self, project: &ProjectName, s: PutStep, event: Event) -> (r: (Option<PutStep>, Action))
        requires
            put_answers(s@, event@),
        ensures
            exists|name: Seq<char>| fresh_snapshot_name(name) && put_view(r) == put_next(*self, project@, s@, event@, name),
    {
        let ghost s_view = s@;
        let ghost e_view = event@;
        match s {
            PutStep::CheckRemote { lease } => match event {
                Event::Ran(Ok(o)) => {
                    if o.success {
                        let name = new_snapshot_name();
                        let snapshot = join(self.snapshots_root(project).as_str(), name.as_str());
                        let r = (
                            Some(PutStep::SnapshotRoot { lease, snapshot }),
                            reported_action(
                                ReportKind::Phase,
                                "snapshot",
                                owned("saving canonical source"),
                                run(self.remote().ensure_directory(self.snapshots_root(project).as_str())),
                            ),
                        );
                        assert(put_view(r) == put_next(*self, project@, s_view, e_view, name@));
                        r
                    } else {
                        let ghost name = lemma_fresh_snapshot_name_exists();
                        let r = (None, fail_action(BusyNasError::RemoteProjectMissing(owned(project.as_str()))));
                        assert(put_view(r) == put_next(*self, project@, s_view, e_view, name));
                        r
                    }
                },
                Event::Ran(Err(err)) => {
                    let ghost name = lemma_fresh_snapshot_name_exists();
                    let r = (None, fail_action(err));
                    assert(put_view(r) == put_next(*self, project@, s_view, e_view, name));
                    r
                },
                _ => unreached(),
            },
            _ => {
                let ghost name = lemma_fresh_snapshot_name_exists();
                let r = self.put_step_rest(project, s, event);
                assert(put_view(r) == put_next(*self, project@, s_view, e_view, name));
                r
            },
        }
    }

    /// The steps of `put` that make no snapshot name.
    fn put_step_rest(&self, project: &ProjectName, s: PutStep, event: Event) -> (r: (Option<PutStep>, Action))
        requires
            put_answers(s@, event@),
            !(s@ is CheckRemote),
        ensures
            forall|name: Seq<char>| put_view(r) == put_next(*self, project@, s@, event@, name),
    {
        let remote = self.remote();
        match s {
            PutStep::Workspace => match event {
                Event::Workspace(Err(err)) => (None, fail_action(err)),
                _ => (Some(PutStep::Inspect), plain_action(Effect::InspectPath { path: self.checkout_path(project) })),
            },
            PutStep::Inspect => match event {
                Event::Path(PathKind::Directory) => (Some(PutStep::ReadLease), plain_action(Effect::ReadLocalLease { project: project.duplicate() })),
                _ => (None, fail_action(BusyNasError::CheckoutMissing(self.checkout_path(project)))),
            },
            PutStep::ReadLease => match event {
                Event::LocalLease(Ok(lease)) => (
                    Some(PutStep::Checking { lease, check: Check::Metadata }),
                    reported_action(ReportKind::Phase, "lease", owned("checking"), self.check_begin(project)),
                ),
                Event::LocalLease(Err(err)) => (None, fail_action(err)),
                _ => unreached(),
            },
            PutStep::Checking { lease, check } => match self.check_step(project, &lease.token, check, event) {
                CheckOutcome::Continue(next, eff) => (Some(PutStep::Checking { lease, check: next }), plain_action(eff)),
                CheckOutcome::Failed(err) => (None, fail_action(err)),
                CheckOutcome::Matched => {
                    let path = self.remote_project_path(project);
                    (Some(PutStep::CheckRemote { lease }), plain_action(run(remote.is_directory(path.as_str()))))
                },
            },
            PutStep::SnapshotRoot { lease, snapshot } => match event {
                Event::Ran(r) => match remote_checked_exec(&remote, "mkdir", r) {
                    Err(err) => (None, fail_action(err)),
                    Ok(_) => {
                        let effect = run(remote.ensure_directory(snapshot.as_str()));
                        (Some(PutStep::SnapshotDir { lease, snapshot }), plain_action(effect))
                    },
                },
                _ => unreached(),
            },
            PutStep::SnapshotDir { lease, snapshot } => match event {
                Event::Ran(r) => match remote_checked_exec(&remote, "mkdir", r) {
                    Err(err) => (None, fail_action(err)),
                    Ok(_) => {
                        let source = self.remote_project_path(project);
                        let effect = run(remote.rsync_local_to_local(source.as_str(), snapshot.as_str()));
                        (Some(PutStep::SnapshotCopy { lease }), plain_action(effect))
                    },
                },
                _ => unreached(),
            },
            PutStep::SnapshotCopy { lease } => match event {
                Event::Ran(r) => match remote_checked_exec(&remote, "rsync", r) {
                    Err(err) => (None, fail_action(err)),
                    Ok(_) => {
                        let source = with_trailing_slash(self.checkout_path(project).as_str());
                        let destination = self.remote_endpoint(self.remote_project_path(project).as_str(), true);
                        let spec = self.rsync_spec(source, destination, true, false, self.show_progress);
                        (
                            Some(PutStep::Upload { lease }),
                            reported_action(ReportKind::Phase, "transfer", owned("copying local changes to NAS"), run(spec)),
                        )
                    },
                },
                _ => unreached(),
            },
            PutStep::Upload { lease } => match event {
                Event::Ran(Err(err)) => (None, fail_action(err)),
                Event::Ran(Ok(o)) => {
                    if o.success {
                        let source = with_trailing_slash(self.checkout_path(project).as_str());
                        let destination = self.remote_endpoint(self.remote_project_path(project).as_str(), true);
                        let spec = self.rsync_spec(source, destination, true, true, false);
                        (
                            Some(PutStep::Verify { lease }),
                            reported_action(ReportKind::Phase, "verify", owned("checking transfer"), run(spec)),
                        )
                    } else {
                        (None, fail_action(failure_error(self.programs.rsync.as_str(), &o)))
                    }
                },
                _ => unreached(),
            },
            PutStep::Verify { lease } => match event {
                Event::Ran(Err(err)) => (None, fail_action(err)),
                Event::Ran(Ok(o)) => {
                    if o.success {
                        let differences = o.stdout_text();
                        if is_blank(differences.as_str()) {
                            let root = self.snapshots_root(project);
                            (
                                Some(PutStep::Pruning { lease, listing: Listing::Testing }),
                                plain_action(self.listing_begin(root.as_str())),
                            )
                        } else {
                            (None, fail_action(BusyNasError::TransferVerification(differences)))
                        }
                    } else {
                        (None, fail_action(failure_error(self.programs.rsync.as_str(), &o)))
                    }
                },
                _ => unreached(),
            },
            PutStep::Pruning { lease, listing } => {
                let root = self.snapshots_root(project);
                match self.listing_step(root.as_str(), listing, event) {
                    ListingOutcome::Continue(next, eff) => (Some(PutStep::Pruning { lease, listing: next }), plain_action(eff)),
                    ListingOutcome::Failed(err) => (None, fail_action(err)),
                    ListingOutcome::Listed(names) => self.prune_from(project, lease, names, 0),
                }
            },
            PutStep::Removing { lease, names, next } => match event {
                Event::Ran(r) => match remote_checked_exec(&remote, "rm", r) {
                    Err(err) => (None, fail_action(err)),
                    Ok(_) => {
                        // past the end, every index finishes the pruning alike
                        let i = if next < names.len() {
                            next + 1
                        } else {
                            names.len()
                        };
                        self.prune_from(project, lease, names, i)
                    },
                },
                _ => unreached(),
            },
            PutStep::RemoveCheckout { lease } => match event {
                Event::Done(Err(err)) => (None, fail_action(err)),
                _ => (
                    Some(PutStep::Releasing { lease, release: Release::Checking(Check::Metadata) }),
                    plain_action(self.check_begin(project)),
                ),
            },
            PutStep::Releasing { lease, release } => match self.release_step(project, &lease.token, release, event) {
                ReleaseOutcome::Continue(next, eff) => (Some(PutStep::Releasing { lease, release: next }), plain_action(eff)),
                ReleaseOutcome::Failed(err) => (None, fail_action(err)),
                ReleaseOutcome::Released => (Some(PutStep::Forget), plain_action(Effect::RemoveLocalLease { project: project.duplicate() })),
            },
            PutStep::Forget => match event {
                Event::Done(Err(err)) => (None, fail_action(err)),
                _ => (None, done_action(owned("NAS is canonical again"))),
            },
            _ => unreached(),
        }
    }
}


// ---------------------------------------------------------------------------
// discard: drop the checkout, keep the NAS as it is, give the lease back
// ---------------------------------------------------------------------------

pub enum DiscardStep {
    Workspace,
    Inspect,
    ReadLease,
    Checking { lease: Lease, check: Check },
    /// Whether a checkout directory is there to remove.
    Reinspect { lease: Lease },
    RemoveCheckout { lease: Lease },
    Releasing { lease: Lease, release: Release },
    Forget,
}

pub enum DiscardStepView {
    Workspace,
    Inspect,
    ReadLease,
    Checking { lease: LeaseView, check: Check },
    Reinspect { lease: LeaseView },
    RemoveCheckout { lease: LeaseView },
    Releasing { lease: LeaseView, release: Release },
    Forget,
}

impl View for DiscardStep {
    type V = DiscardStepView;

    open spec fn view(&self) -> DiscardStepView {
        match self {
            DiscardStep::Workspace => DiscardStepView::Workspace,
            DiscardStep::Inspect => DiscardStepView::Inspect,
            DiscardStep::ReadLease => DiscardStepView::ReadLease,
            DiscardStep::Checking { lease, check } => DiscardStepView::Checking { lease: lease@, check: *check },
            DiscardStep::Reinspect { lease } => DiscardStepView::Reinspect { lease: lease@ },
            DiscardStep::RemoveCheckout { lease } => DiscardStepView::RemoveCheckout { lease: lease@ },
            DiscardStep::Releasing { lease, release } => DiscardStepView::Releasing { lease: lease@, release: *release },
            DiscardStep::Forget => DiscardStepView::Forget,
        }
    }
}

pub open spec fn discard_answers(s: DiscardStepView, e: EventView) -> bool {
    match s {
        DiscardStepView::Workspace => e is Workspace,
        DiscardStepView::Inspect => e is Path,
        DiscardStepView::ReadLease => e is LocalLease,
        DiscardStepView::Checking { check, .. } => check_answers(check, e),
        DiscardStepView::Reinspect { .. } => e is Path,
        DiscardStepView::RemoveCheckout { .. } => e is Done,
        DiscardStepView::Releasing { release, .. } => release_answers(release, e),
        DiscardStepView::Forget => e is Done,
    }
}

pub open spec fn discard_begin(c: Context, p: Seq<char>) -> ActionView {
    reported(ReportKind::Start, "discard"@, p, EffectView::CheckWorkspace(c.config.workspace_root@))
}

pub open spec fn discard_release(c: Context, p: Seq<char>, lease: LeaseView) -> (Option<DiscardStepView>, ActionView) {
    (Some(DiscardStepView::Releasing { lease, release: Release::Checking(Check::Metadata) }), plain(check_begin(c, p)))
}

/// One step of `discard` on `p`.
pub open spec fn discard_next(c: Context, p: Seq<char>, s: DiscardStepView, e: EventView) -> (Option<DiscardStepView>, ActionView) {
    match s {
        DiscardStepView::Workspace => match e {
            EventView::Workspace(Err(err)) => (None, finish(Err(err))),
            _ => (Some(DiscardStepView::Inspect), plain(EffectView::InspectPath(checkout_path(c, p)))),
        },
        DiscardStepView::Inspect => match e {
            EventView::Path(PathKind::Other) => (None, finish(Err(ErrorView::CheckoutMissing(checkout_path(c, p))))),
            _ => (Some(DiscardStepView::ReadLease), plain(EffectView::ReadLocalLease(p))),
        },
        DiscardStepView::ReadLease => match e {
            EventView::LocalLease(Ok(lease)) => (
                Some(DiscardStepView::Checking { lease, check: Check::Metadata }),
                reported(ReportKind::Phase, "lease"@, "checking"@, check_begin(c, p)),
            ),
            EventView::LocalLease(Err(err)) => (None, finish(Err(err))),
            _ => arbitrary(),
        },
        DiscardStepView::Checking { lease, check } => match check_next(c, p, lease.token, check, e) {
            CheckOutcomeView::Continue(next, eff) => (Some(DiscardStepView::Checking { lease, check: next }), plain(eff)),
            CheckOutcomeView::Failed(err) => (None, finish(Err(err))),
            CheckOutcomeView::Matched => (
                Some(DiscardStepView::Reinspect { lease }),
                plain(EffectView::InspectPath(checkout_path(c, p))),
            ),
        },
        DiscardStepView::Reinspect { lease } => match e {
            EventView::Path(PathKind::Directory) => (
                Some(DiscardStepView::RemoveCheckout { lease }),
                reported(
                    ReportKind::Phase,
                    "cleanup"@,
                    "removing local checkout"@,
                    EffectView::RemoveTree(checkout_path(c, p), false),
                ),
            ),
            _ => discard_release(c, p, lease),
        },
        DiscardStepView::RemoveCheckout { lease } => match e {
            EventView::Done(Err(err)) => (None, finish(Err(err))),
            _ => discard_release(c, p, lease),
        },
        DiscardStepView::Releasing { lease, release } => match release_next(c, p, lease.token, release, e) {
            ReleaseOutcomeView::Continue(next, eff) => (Some(DiscardStepView::Releasing { lease, release: next }), plain(eff)),
            ReleaseOutcomeView::Failed(err) => (None, finish(Err(err))),
            ReleaseOutcomeView::Released => (Some(DiscardStepView::Forget), plain(EffectView::RemoveLocalLease(p))),
        },
        DiscardStepView::Forget => match e {
            EventView::Done(Err(err)) => (None, finish(Err(err))),
            _ => (None, finish_done("checkout discarded"@)),
        },
    }
}

pub open spec fn discard_view(r: (Option<DiscardStep>, Action)) -> (Option<DiscardStepView>, ActionView) {
    (
        match r.0 {
            Some(s) => Some(s@),
            None => None,
        },
        r.1@,
    )
}

// ---------------------------------------------------------------------------
// reclaim: replace a lease whose owner is gone
// ---------------------------------------------------------------------------

pub enum ReclaimStep {
    Workspace,
    Inspect,
    /// Removing the lease directory on the NAS.
    DropRemote,
    /// Forgetting the local record.
    Forget,
    Acquiring(Acquire),
}

pub enum ReclaimStepView {
    Workspace,
    Inspect,
    DropRemote,
    Forget,
    Acquiring(AcquireView),
}

impl View for ReclaimStep {
    type V = ReclaimStepView;

    open spec fn view(&self) -> ReclaimStepView {
        match self {
            ReclaimStep::Workspace => ReclaimStepView::Workspace,
            ReclaimStep::Inspect => ReclaimStepView::Inspect,
            ReclaimStep::DropRemote => ReclaimStepView::DropRemote,
            ReclaimStep::Forget => ReclaimStepView::Forget,
            ReclaimStep::Acquiring(a) => ReclaimStepView::Acquiring(a@),
        }
    }
}

pub open spec fn reclaim_answers(s: ReclaimStepView, e: EventView) -> bool {
    match s {
        ReclaimStepView::Workspace => e is Workspace,
        ReclaimStepView::Inspect => e is Path,
        ReclaimStepView::DropRemote => e is Ran,
        ReclaimStepView::Forget => e is Done,
        ReclaimStepView::Acquiring(a) => acquire_answers(a, e),
    }
}

pub open spec fn reclaim_begin(c: Context, p: Seq<char>) -> ActionView {
    reported(ReportKind::Start, "reclaim"@, p, EffectView::CheckWorkspace(c.config.workspace_root@))
}

/// One step of `reclaim` on `p`; `fresh` is the new lease.
pub open spec fn reclaim_next(c: Context, p: Seq<char>, s: ReclaimStepView, e: EventView, fresh: LeaseView) -> (Option<ReclaimStepView>, ActionView) {
    match s {
        ReclaimStepView::Workspace => match e {
            EventView::Workspace(Err(err)) => (None, finish(Err(err))),
            _ => (Some(ReclaimStepView::Inspect), plain(EffectView::InspectPath(checkout_path(c, p)))),
        },
        ReclaimStepView::Inspect => match e {
            EventView::Path(PathKind::Missing) => (
                Some(ReclaimStepView::DropRemote),
                reported(ReportKind::Phase, "lease"@, "replacing"@, run_effect(rm_rf(ssh(c), target(c), lease_path(c, p)))),
            ),
            _ => (None, finish(Err(ErrorView::CheckoutExists(checkout_path(c, p))))),
        },
        ReclaimStepView::DropRemote => match e {
            EventView::Ran(r) => match remote_checked(c, "rm"@, r) {
                Err(err) => (None, finish(Err(err))),
                Ok(_) => (Some(ReclaimStepView::Forget), plain(EffectView::RemoveLocalLease(p))),
            },
            _ => arbitrary(),
        },
        ReclaimStepView::Forget => match e {
            EventView::Done(Err(err)) => (None, finish(Err(err))),
            _ => (Some(ReclaimStepView::Acquiring(AcquireView::ReadLocal)), plain(acquire_begin(p))),
        },
        ReclaimStepView::Acquiring(a) => match acquire_next(c, p, a, e, fresh) {
            AcquireOutcomeView::Continue(next, eff) => (Some(ReclaimStepView::Acquiring(next)), plain(eff)),
            AcquireOutcomeView::Failed(err) => (None, finish(Err(err))),
            AcquireOutcomeView::Acquired(_, _) => (None, finish_done("new lease acquired"@)),
        },
    }
}

pub open spec fn reclaim_view(r: (Option<ReclaimStep>, Action)) -> (Option<ReclaimStepView>, ActionView) {
    (
        match r.0 {
            Some(s) => Some(s@),
            None => None,
        },
        r.1@,
    )
}

impl Context {
    fn discard_begin(&self, project: &ProjectName) -> (a: Action)
        ensures
            a@ == discard_begin(*self, project@),
    {
        reported_action(
            ReportKind::Start,
            "discard",
            owned(project.as_str()),
            Effect::CheckWorkspace { root: owned(self.config.workspace_root.as_str()) },
        )
    }

    fn discard_release(&self, project: &ProjectName, lease: Lease) -> (r: (Option<DiscardStep>, Action))
        ensures
            discard_view(r) == discard_release(*self, project@, lease@),
    {
        (
            Some(DiscardStep::Releasing { lease, release: Release::Checking(Check::Metadata) }),
            plain_action(self.check_begin(project)),
        )
    }

    fn discard_step(&self, project: &ProjectName, s: DiscardStep, event: Event) -> (r: (Option<DiscardStep>, Action))
        requires
            discard_answers(s@, event@),
        ensures
            discard_view(r) == discard_next(*self, project@, s@, event@),
    {
        match s {
            DiscardStep::Workspace => match event {
                Event::Workspace(Err(err)) => (None, fail_action(err)),
                _ => (Some(DiscardStep::Inspect), plain_action(Effect::InspectPath { path: self.checkout_path(project) })),
            },
            DiscardStep::Inspect => match event {
                Event::Path(PathKind::Other) => (None, fail_action(BusyNasError::CheckoutMissing(self.checkout_path(project)))),
                _ => (Some(DiscardStep::ReadLease), plain_action(Effect::ReadLocalLease { project: project.duplicate() })),
            },
            DiscardStep::ReadLease => match event {
                Event::LocalLease(Ok(lease)) => (
                    Some(DiscardStep::Checking { lease, check: Check::Metadata }),
                    reported_action(ReportKind::Phase, "lease", owned("checking"), self.check_begin(project)),
                ),
                Event::LocalLease(Err(err)) => (None, fail_action(err)),
                _ => unreached(),
            },
            DiscardStep::Checking { lease, check } => match self.check_step(project, &lease.token, check, event) {
                CheckOutcome::Continue(next, eff) => (Some(DiscardStep::Checking { lease, check: next }), plain_action(eff)),
                CheckOutcome::Failed(err) => (None, fail_action(err)),
                CheckOutcome::Matched => (
                    Some(DiscardStep::Reinspect { lease }),
                    plain_action(Effect::InspectPath { path: self.checkout_path(project) }),
                ),
            },
            DiscardStep::Reinspect { lease } => match event {
                Event::Path(PathKind::Directory) => (
                    Some(DiscardStep::RemoveCheckout { lease }),
                    reported_action(
                        ReportKind::Phase,
                        "cleanup",
                        owned("removing local checkout"),
                        Effect::RemoveTree { path: self.checkout_path(project), missing_ok: false },
                    ),
                ),
                _ => self.discard_release(project, lease),
            },
            DiscardStep::RemoveCheckout { lease } => match event {
                Event::Done(Err(err)) => (None, fail_action(err)),
                _ => self.discard_release(project, lease),
            },
            DiscardStep::Releasing { lease, release } => match self.release_step(project, &lease.token, release, event) {
                ReleaseOutcome::Continue(next, eff) => (Some(DiscardStep::Releasing { lease, release: next }), plain_action(eff)),
                ReleaseOutcome::Failed(err) => (None, fail_action(err)),
                ReleaseOutcome::Released => (Some(DiscardStep::Forget), plain_action(Effect::RemoveLocalLease { project: project.duplicate() })),
            },
            DiscardStep::Forget => match event {
                Event::Done(Err(err)) => (None, fail_action(err)),
                _ => (None, done_action(owned("checkout discarded"))),
            },
        }
    }

    fn reclaim_begin(&self, project: &ProjectName) -> (a: Action)
        ensures
            a@ == reclaim_begin(*self, project@),
    {
        reported_action(
            ReportKind::Start,
            "reclaim",
            owned(project.as_str()),
            Effect::CheckWorkspace { root: owned(self.config.workspace_root.as_str()) },
        )
    }

    fn reclaim_step(&self, project: &ProjectName, s: ReclaimStep, event: Event) -> (r: (Option<ReclaimStep>, Action))
        requires
            reclaim_answers(s@, event@),
        ensures
            exists|fresh: LeaseView| fresh_lease(project@, fresh) && reclaim_view(r) == reclaim_next(*self, project@, s@, event@, fresh),
    {
        let ghost some_fresh = lemma_fresh_lease_exists(project@);
        let ghost s_view = s@;
        let ghost e_view = event@;
        match s {
            ReclaimStep::Workspace => match event {
                Event::Workspace(Err(err)) => (None, fail_action(err)),
                _ => (Some(ReclaimStep::Inspect), plain_action(Effect::InspectPath { path: self.checkout_path(project) })),
            },
            ReclaimStep::Inspect => match event {
                Event::Path(PathKind::Missing) => {
                    let path = self.lease_path(project);
                    (
                        Some(ReclaimStep::DropRemote),
                        reported_action(ReportKind::Phase, "lease", owned("replacing"), run(self.remote().remove_dir_all(path.as_str()))),
                    )
                },
                _ => (None, fail_action(BusyNasError::CheckoutExists(self.checkout_path(project)))),
            },
            ReclaimStep::DropRemote => match event {
                Event::Ran(r) => match remote_checked_exec(&self.remote(), "rm", r) {
                    Err(err) => (None, fail_action(err)),
                    Ok(_) => (Some(ReclaimStep::Forget), plain_action(Effect::RemoveLocalLease { project: project.duplicate() })),
                },
                _ => unreached(),
            },
            ReclaimStep::Forget => match event {
                Event::Done(Err(err)) => (None, fail_action(err)),
                _ => (Some(ReclaimStep::Acquiring(Acquire::ReadLocal)), plain_action(self.acquire_begin(project))),
            },
            ReclaimStep::Acquiring(a) => {
                let outcome = self.acquire_step(project, a, event);
                let ghost f = choose|f: LeaseView| fresh_lease(project@, f) && outcome@ == acquire_next(*self, project@, s_view->Acquiring_0, e_view, f);
                let r = match outcome {
                    AcquireOutcome::Continue(next, eff) => (Some(ReclaimStep::Acquiring(next)), plain_action(eff)),
                    AcquireOutcome::Failed(err) => (None, fail_action(err)),
                    AcquireOutcome::Acquired(_, _) => (None, done_action(owned("new lease acquired"))),
                };
                assert(reclaim_view(r) == reclaim_next(*self, project@, s_view, e_view, f));
                r
            },
        }
    }
}


// ---------------------------------------------------------------------------
// status: projects and leases
// ---------------------------------------------------------------------------

/// `Path::file_stem` of a file name: the name without its last extension; a name
/// whose only dot leads it (or without a dot) is its own stem.
pub open spec fn file_stem(name: Seq<char>) -> Seq<char> {
    let k = last_dot(name);
    if k <= 0 {
        name
    } else {
        name.take(k)
    }
}

/// The index of the last `.` in `s`, or -1.
pub open spec fn last_dot(s: Seq<char>) -> int
    decreases s.len(),
{
    if s.len() == 0 {
        -1
    } else if s.last() == '.' {
        s.len() - 1
    } else {
        last_dot(s.drop_last())
    }
}

pub open spec fn stems(files: Seq<Seq<char>>) -> Seq<Seq<char>> {
    files.map_values(|f: Seq<char>| file_stem(f))
}

/// The names other than the control directory `.busy-nas`, in order.
pub open spec fn without_control(names: Seq<Seq<char>>) -> Seq<Seq<char>>
    decreases names.len(),
{
    if names.len() == 0 {
        Seq::empty()
    } else {
        let prev = without_control(names.drop_last());
        if names.last() == ".busy-nas"@ {
            prev
        } else {
            prev.push(names.last())
        }
    }
}

pub enum StatusStep {
    /// Listing the projects under the NAS root.
    Projects(Listing),
    /// Listing the leases on the NAS.
    Leases { projects: Vec<String>, listing: Listing },
    /// Reading this machine's lease records.
    Local { projects: Vec<String>, nas: Vec<String> },
    /// Reading the first release's records.
    Legacy { projects: Vec<String>, nas: Vec<String>, local: Vec<String> },
}

pub enum StatusStepView {
    Projects(Listing),
    Leases { projects: Seq<Seq<char>>, listing: Listing },
    Local { projects: Seq<Seq<char>>, nas: Seq<Seq<char>> },
    Legacy { projects: Seq<Seq<char>>, nas: Seq<Seq<char>>, local: Seq<Seq<char>> },
}

impl View for StatusStep {
    type V = StatusStepView;

    open spec fn view(&self) -> StatusStepView {
        match self {
            StatusStep::Projects(l) => StatusStepView::Projects(*l),
            StatusStep::Leases { projects, listing } => StatusStepView::Leases { projects: strs(projects@), listing: *listing },
            StatusStep::Local { projects, nas } => StatusStepView::Local { projects: strs(projects@), nas: strs(nas@) },
            StatusStep::Legacy { projects, nas, local } => StatusStepView::Legacy {
                projects: strs(projects@),
                nas: strs(nas@),
                local: strs(local@),
            },
        }
    }
}

pub open spec fn status_answers(s: StatusStepView, e: EventView) -> bool {
    match s {
        StatusStepView::Projects(_) => e is Ran,
        StatusStepView::Leases { .. } => e is Ran,
        _ => e is LocalFiles,
    }
}

pub open spec fn status_begin(c: Context) -> ActionView {
    plain(listing_begin(c, c.config.nas.root@))
}

pub open spec fn finish_status(r: core::result::Result<StatusView, ErrorView>) -> ActionView {
    plain(EffectView::FinishStatus(r))
}

/// One step of `status`.
pub open spec fn status_next(c: Context, s: StatusStepView, e: EventView) -> (Option<StatusStepView>, ActionView) {
    match s {
        StatusStepView::Projects(listing) => match listing_next(c, c.config.nas.root@, listing, e) {
            ListingOutcomeView::Continue(next, eff) => (Some(StatusStepView::Projects(next)), plain(eff)),
            ListingOutcomeView::Failed(err) => (None, finish_status(Err(err))),
            ListingOutcomeView::Listed(names) => (
                Some(StatusStepView::Leases {
                    projects: crate::order::in_sorted_order(without_control(names)),
                    listing: Listing::Testing,
                }),
                plain(listing_begin(c, leases_root(c))),
            ),
        },
        StatusStepView::Leases { projects, listing } => match listing_next(c, leases_root(c), listing, e) {
            ListingOutcomeView::Continue(next, eff) => (Some(StatusStepView::Leases { projects, listing: next }), plain(eff)),
            ListingOutcomeView::Failed(err) => (None, finish_status(Err(err))),
            ListingOutcomeView::Listed(names) => (
                Some(StatusStepView::Local { projects, nas: crate::order::in_sorted_order(names) }),
                plain(EffectView::ListLocalFiles(lease_state_dir_of(c.paths.state_dir@))),
            ),
        },
        StatusStepView::Local { projects, nas } => match e {
            EventView::LocalFiles(Err(err)) => (None, finish_status(Err(err))),
            EventView::LocalFiles(Ok(files)) => (
                Some(StatusStepView::Legacy { projects, nas, local: stems(files) }),
                plain(EffectView::ListLocalFiles(legacy_lease_state_dir_of(c.paths.state_dir@))),
            ),
            _ => arbitrary(),
        },
        StatusStepView::Legacy { projects, nas, local } => match e {
            EventView::LocalFiles(Err(err)) => (None, finish_status(Err(err))),
            EventView::LocalFiles(Ok(files)) => (
                None,
                finish_status(
                    Ok(
                        StatusView {
                            remote: target(c),
                            remote_root: c.config.nas.root@,
                            workspace_root: c.config.workspace_root@,
                            projects,
                            nas_leases: nas,
                            local_leases: in_order((local + stems(files)).to_set()),
                        },
                    ),
                ),
            ),
            _ => arbitrary(),
        },
    }
}

pub open spec fn status_view(r: (Option<StatusStep>, Action)) -> (Option<StatusStepView>, ActionView) {
    (
        match r.0 {
            Some(s) => Some(s@),
            None => None,
        },
        r.1@,
    )
}

/// `Path::file_stem` of a file name.
pub fn file_stem_of(name: &str) -> (out: String)
    ensures
        out@ == file_stem(name@),
{
    let cs = chars_of(name);
    let mut i: usize = cs.len();
    assert(cs@.take(cs.len() as int) =~= cs@);
    while i > 0 && cs[i - 1] != '.'
        invariant
            i <= cs.len(),
            cs@ == name@,
            last_dot(name@) == last_dot(cs@.take(i as int)),
        decreases i,
    {
        assert(cs@.take(i as int).drop_last() =~= cs@.take(i - 1));
        i = i - 1;
    }
    proof {
        if i > 0 {
            assert(cs@.take(i as int).last() == '.');
        } else {
            assert(cs@.take(0).len() == 0);
        }
    }
    assert(cs@.take(cs.len() as int) =~= cs@);
    if i <= 1 {
        owned(name)
    } else {
        assert(cs@.subrange(0, (i - 1) as int) =~= name@.take((i - 1) as int));
        crate::text::string_from(&cs, 0, i - 1)
    }
}

fn stems_of(files: &Vec<String>, out: &mut Vec<String>)
    ensures
        strs(final(out)@) == strs(old(out)@) + stems(strs(files@)),
{
    let mut i: usize = 0;
    while i < files.len()
        invariant
            i <= files.len(),
            strs(out@) == strs(old(out)@) + stems(strs(files@)).take(i as int),
        decreases files.len() - i,
    {
        let ghost before = strs(out@);
        out.push(file_stem_of(files[i].as_str()));
        assert(stems(strs(files@)).take(i + 1) =~= stems(strs(files@)).take(i as int).push(file_stem(files@[i as int]@)));
        assert(strs(out@) =~= before.push(file_stem(files@[i as int]@)));
        i = i + 1;
    }
    assert(stems(strs(files@)).take(files.len() as int) =~= stems(strs(files@)));
}

fn drop_control(names: Vec<String>) -> (out: Vec<String>)
    ensures
        strs(out@) == without_control(strs(names@)),
{
    let control = owned(".busy-nas");
    let mut out: Vec<String> = Vec::new();
    let mut i: usize = 0;
    while i < names.len()
        invariant
            i <= names.len(),
            control@ == ".busy-nas"@,
            strs(out@) == without_control(strs(names@).take(i as int)),
        decreases names.len() - i,
    {
        let ghost t = strs(names@).take(i + 1);
        assert(t.drop_last() =~= strs(names@).take(i as int));
        assert(t.last() == names@[i as int]@);
        if !string_eq(&names[i], &control) {
            let ghost before = strs(out@);
            out.push(names[i].clone());
            assert(strs(out@) =~= before.push(names@[i as int]@));
        }
        i = i + 1;
    }
    assert(strs(names@).take(names.len() as int) =~= strs(names@));
    out
}

impl Context {
    fn status_begin(&self) -> (a: Action)
        ensures
            a@ == status_begin(*self),
    {
        plain_action(self.listing_begin(self.config.nas.root.as_str()))
    }

    fn status_step(&self, s: StatusStep, event: Event) -> (r: (Option<StatusStep>, Action))
        requires
            status_answers(s@, event@),
        ensures
            status_view(r) == status_next(*self, s@, event@),
    {
        match s {
            StatusStep::Projects(listing) => match self.listing_step(self.config.nas.root.as_str(), listing, event) {
                ListingOutcome::Continue(next, eff) => (Some(StatusStep::Projects(next)), plain_action(eff)),
                ListingOutcome::Failed(err) => (None, plain_action(Effect::FinishStatus { outcome: Err(err) })),
                ListingOutcome::Listed(names) => {
                    let kept = drop_control(names);
                    let ghost kept_view = strs(kept@);
                    let projects = sort_strings(kept);
                    proof {
                        crate::order::lemma_in_sorted_order(strs(projects@), kept_view);
                    }
                    let root = self.leases_root();
                    (
                        Some(StatusStep::Leases { projects, listing: Listing::Testing }),
                        plain_action(self.listing_begin(root.as_str())),
                    )
                },
            },
            StatusStep::Leases { projects, listing } => {
                let root = self.leases_root();
                match self.listing_step(root.as_str(), listing, event) {
                    ListingOutcome::Continue(next, eff) => (Some(StatusStep::Leases { projects, listing: next }), plain_action(eff)),
                    ListingOutcome::Failed(err) => (None, plain_action(Effect::FinishStatus { outcome: Err(err) })),
                    ListingOutcome::Listed(names) => {
                        let ghost names_view = strs(names@);
                        let nas = sort_strings(names);
                        proof {
                            crate::order::lemma_in_sorted_order(strs(nas@), names_view);
                        }
                        (
                            Some(StatusStep::Local { projects, nas }),
                            plain_action(Effect::ListLocalFiles { dir: self.paths.lease_state_dir() }),
                        )
                    },
                }
            },
            StatusStep::Local { projects, nas } => match event {
                Event::LocalFiles(Err(err)) => (None, plain_action(Effect::FinishStatus { outcome: Err(err) })),
                Event::LocalFiles(Ok(files)) => {
                    let mut local: Vec<String> = Vec::new();
                    stems_of(&files, &mut local);
                    assert(strs(local@) =~= stems(strs(files@)));
                    (
                        Some(StatusStep::Legacy { projects, nas, local }),
                        plain_action(Effect::ListLocalFiles { dir: self.paths.legacy_lease_state_dir() }),
                    )
                },
                _ => unreached(),
            },
            StatusStep::Legacy { projects, nas, local } => match event {
                Event::LocalFiles(Err(err)) => (None, plain_action(Effect::FinishStatus { outcome: Err(err) })),
                Event::LocalFiles(Ok(files)) => {
                    let mut all = local;
                    stems_of(&files, &mut all);
                    let local_leases = sort_unique(all);
                    proof {
                        crate::order::lemma_in_order(strs(local_leases@));
                    }
                    let status = Status {
                        remote: self.config.remote_target(),
                        remote_root: owned(self.config.nas.root.as_str()),
                        workspace_root: owned(self.config.workspace_root.as_str()),
                        projects,
                        nas_leases: nas,
                        local_leases,
                    };
                    (None, plain_action(Effect::FinishStatus { outcome: Ok(status) }))
                },
                _ => unreached(),
            },
        }
    }
}


// ---------------------------------------------------------------------------
// The service
// ---------------------------------------------------------------------------

/// The command under way, and where it stands.
pub enum Task {
    Idle,
    Get { project: ProjectName, step: GetStep },
    Put { project: ProjectName, step: PutStep },
    Discard { project: ProjectName, step: DiscardStep },
    Reclaim { project: ProjectName, step: ReclaimStep },
    Status(StatusStep),
}

pub enum TaskView {
    Idle,
    Get { project: Seq<char>, step: GetStepView },
    Put { project: Seq<char>, step: PutStepView },
    Discard { project: Seq<char>, step: DiscardStepView },
    Reclaim { project: Seq<char>, step: ReclaimStepView },
    Status(StatusStepView),
}

impl View for Task {
    type V = TaskView;

    open spec fn view(&self) -> TaskView {
        match self {
            Task::Idle => TaskView::Idle,
            Task::Get { project, step } => TaskView::Get { project: project@, step: step@ },
            Task::Put { project, step } => TaskView::Put { project: project@, step: step@ },
            Task::Discard { project, step } => TaskView::Discard { project: project@, step: step@ },
            Task::Reclaim { project, step } => TaskView::Reclaim { project: project@, step: step@ },
            Task::Status(step) => TaskView::Status(step@),
        }
    }
}

/// Whether `e` answers the effect that the task asked for last.
pub open spec fn answers(t: TaskView, e: EventView) -> bool {
    match t {
        TaskView::Idle => false,
        TaskView::Get { step, .. } => get_answers(step, e),
        TaskView::Put { step, .. } => put_answers(step, e),
        TaskView::Discard { step, .. } => discard_answers(step, e),
        TaskView::Reclaim { step, .. } => reclaim_answers(step, e),
        TaskView::Status(step) => status_answers(step, e),
    }
}

/// What the outside calls in a step may give: the lease that `Lease::new` makes for
/// the task's project, and the snapshot name that `put` makes.
pub open spec fn fresh_inputs(t: TaskView, fresh: LeaseView, name: Seq<char>) -> bool {
    &&& match t {
        TaskView::Get { project, .. } => fresh_lease(project, fresh),
        TaskView::Reclaim { project, .. } => fresh_lease(project, fresh),
        _ => true,
    }
    &&& fresh_snapshot_name(name)
}

/// The protocol: from a task and the answer to its last effect, the next task and
/// the next action. A command that is over leaves the service idle.
pub open spec fn next(c: Context, t: TaskView, e: EventView, fresh: LeaseView, name: Seq<char>) -> (TaskView, ActionView) {
    match t {
        TaskView::Get { project, step } => {
            let (n, a) = get_next(c, project, step, e, fresh);
            (
                match n {
                    Some(s) => TaskView::Get { project, step: s },
                    None => TaskView::Idle,
                },
                a,
            )
        },
        TaskView::Put { project, step } => {
            let (n, a) = put_next(c, project, step, e, name);
            (
                match n {
                    Some(s) => TaskView::Put { project, step: s },
                    None => TaskView::Idle,
                },
                a,
            )
        },
        TaskView::Discard { project, step } => {
            let (n, a) = discard_next(c, project, step, e);
            (
                match n {
                    Some(s) => TaskView::Discard { project, step: s },
                    None => TaskView::Idle,
                },
                a,
            )
        },
        TaskView::Reclaim { project, step } => {
            let (n, a) = reclaim_next(c, project, step, e, fresh);
            (
                match n {
                    Some(s) => TaskView::Reclaim { project, step: s },
                    None => TaskView::Idle,
                },
                a,
            )
        },
        TaskView::Status(step) => {
            let (n, a) = status_next(c, step, e);
            (
                match n {
                    Some(s) => TaskView::Status(s),
                    None => TaskView::Idle,
                },
                a,
            )
        },
        TaskView::Idle => arbitrary(),
    }
}

/// Hand unfinished work between a NAS and one local checkout: one command at a time,
/// driven by `resume`.
pub struct Service {
    pub context: Context,
    pub task: Task,
}

impl Service {
    pub fn new(config: Config, paths: AppPaths, programs: ProgramPaths, show_progress: bool) -> (s:
        Service)
        ensures
            s.context == (Context { config, paths, programs, show_progress }),
            s.task@ == TaskView::Idle,
    {
        Service { context: Context { config, paths, programs, show_progress }, task: Task::Idle }
    }

    /// Whether no command is under way.
    pub fn is_idle(&self) -> (b: bool)
        ensures
            b == (self.task@ is Idle),
    {
        match self.task {
            Task::Idle => true,
            _ => false,
        }
    }

    /// Starts `get`: claim `project` and copy it from the NAS.
    pub fn get(&mut self, project: &ProjectName) -> (a: Action)
        ensures
            final(self).context == old(self).context,
            final(self).task@ == (TaskView::Get { project: project@, step: GetStepView::Workspace }),
            a@ == get_begin(old(self).context, project@),
    {
        self.task = Task::Get { project: project.duplicate(), step: GetStep::Workspace };
        self.context.get_begin(project)
    }

    /// Starts `put`: snapshot the NAS source, return the checkout, release the lease.
    pub fn put(&mut self, project: &ProjectName) -> (a: Action)
        ensures
            final(self).context == old(self).context,
            final(self).task@ == (TaskView::Put { project: project@, step: PutStepView::Workspace }),
            a@ == put_begin(old(self).context, project@),
    {
        self.task = Task::Put { project: project.duplicate(), step: PutStep::Workspace };
        self.context.put_begin(project)
    }

    /// Starts `discard`: remove the checkout and release the lease, NAS unchanged.
    pub fn discard(&mut self, project: &ProjectName) -> (a: Action)
        ensures
            final(self).context == old(self).context,
            final(self).task@ == (TaskView::Discard { project: project@, step: DiscardStepView::Workspace }),
            a@ == discard_begin(old(self).context, project@),
    {
        self.task = Task::Discard { project: project.duplicate(), step: DiscardStep::Workspace };
        self.context.discard_begin(project)
    }

    /// Starts `reclaim`: replace the lease of an owner that is gone. Without
    /// `force` nothing happens and the answer is `ForceRequired`.
    pub fn reclaim(&mut self, project: &ProjectName, force: bool) -> (a: Action)
        ensures
            final(self).context == old(self).context,
            !force ==> final(self).task@ == old(self).task@ && a@ == finish(Err(ErrorView::ForceRequired)),
            force ==> final(self).task@ == (TaskView::Reclaim { project: project@, step: ReclaimStepView::Workspace }),
            force ==> a@ == reclaim_begin(old(self).context, project@),
    {
        if !force {
            return fail_action(BusyNasError::ForceRequired);
        }
        self.task = Task::Reclaim { project: project.duplicate(), step: ReclaimStep::Workspace };
        self.context.reclaim_begin(project)
    }

    /// Starts `status`: list projects, NAS leases and local lease records.
    pub fn status(&mut self) -> (a: Action)
        ensures
            final(self).context == old(self).context,
            final(self).task@ == TaskView::Status(StatusStepView::Projects(Listing::Testing)),
            a@ == status_begin(old(self).context),
    {
        self.task = Task::Status(StatusStep::Projects(Listing::Testing));
        self.context.status_begin()
    }

    /// Goes on with the command under way, given what its last effect gave.
    pub fn resume(&mut self, event: Event) -> (a: Action)
        requires
            answers(old(self).task@, event@),
        ensures
            final(self).context == old(self).context,
            exists|fresh: LeaseView, name: Seq<char>|
                fresh_inputs(old(self).task@, fresh, name) && (final(self).task@, a@) == next(
                    old(self).context,
                    old(self).task@,
                    event@,
                    fresh,
                    name,
                ),
    {
        let mut task = Task::Idle;
        core::mem::swap(&mut task, &mut self.task);
        let (t, a) = self.context.advance(task, event);
        self.task = t;
        a
    }
}

impl Context {
    /// One step of the protocol for the task under way.
    fn advance(&self, task: Task, event: Event) -> (r: (Task, Action))
        requires
            answers(task@, event@),
        ensures
            exists|fresh: LeaseView, name: Seq<char>|
                fresh_inputs(task@, fresh, name) && (r.0@, r.1@) == next(*self, task@, event@, fresh, name),
    {
        let ghost t = task@;
        let ghost e = event@;
        let ghost some_name = lemma_fresh_snapshot_name_exists();
        match task {
            Task::Get { project, step } => {
                let (n, a) = self.get_step(&project, step, event);
                let ghost f = choose|f: LeaseView| fresh_lease(project@, f) && get_view((n, a)) == get_next(*self, project@, t->Get_step, e, f);
                let next_task = match n {
                    Some(s) => Task::Get { project, step: s },
                    None => Task::Idle,
                };
                assert(fresh_inputs(t, f, some_name) && (next_task@, a@) == next(*self, t, e, f, some_name));
                (next_task, a)
            },
            Task::Put { project, step } => {
                let ghost some_fresh = lemma_fresh_lease_exists(project@);
                let (n, a) = self.put_step(&project, step, event);
                let ghost nm = choose|nm: Seq<char>| fresh_snapshot_name(nm) && put_view((n, a)) == put_next(*self, project@, t->Put_step, e, nm);
                let next_task = match n {
                    Some(s) => Task::Put { project, step: s },
                    None => Task::Idle,
                };
                assert(fresh_inputs(t, some_fresh, nm) && (next_task@, a@) == next(*self, t, e, some_fresh, nm));
                (next_task, a)
            },
            Task::Discard { project, step } => {
                let ghost some_fresh = lemma_fresh_lease_exists(project@);
                let (n, a) = self.discard_step(&project, step, event);
                let next_task = match n {
                    Some(s) => Task::Discard { project, step: s },
                    None => Task::Idle,
                };
                assert(fresh_inputs(t, some_fresh, some_name) && (next_task@, a@) == next(*self, t, e, some_fresh, some_name));
                (next_task, a)
            },
            Task::Reclaim { project, step } => {
                let (n, a) = self.reclaim_step(&project, step, event);
                let ghost f = choose|f: LeaseView| fresh_lease(project@, f) && reclaim_view((n, a)) == reclaim_next(*self, project@, t->Reclaim_step, e, f);
                let next_task = match n {
                    Some(s) => Task::Reclaim { project, step: s },
                    None => Task::Idle,
                };
                assert(fresh_inputs(t, f, some_name) && (next_task@, a@) == next(*self, t, e, f, some_name));
                (next_task, a)
            },
            Task::Status(step) => {
                let ghost some_fresh = lemma_fresh_lease_exists(Seq::empty());
                let (n, a) = self.status_step(step, event);
                let next_task = match n {
                    Some(s) => Task::Status(s),
                    None => Task::Idle,
                };
                assert(fresh_inputs(t, some_fresh, some_name) && (next_task@, a@) == next(*self, t, e, some_fresh, some_name));
                (next_task, a)
            },
            Task::Idle => unreached(),
        }
    }
}

} // verus!

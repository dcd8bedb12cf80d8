//! The errors of the library, with the text that each one reads as.

use vstd::prelude::*;

use crate::text::{owned, push_signed_decimal, push_str, signed_decimal};

verus! {

/// Everything that can go wrong. Paths are held as text; errors of the operating
/// system or of the TOML codec are held as their rendered message.
#[derive(Debug)]
pub enum BusyNasError {
    ConfigMissing(String),
    ConfigRead(String),
    InvalidConfig(String),
    ConfigParse(String),
    LeaseSerialize(String),
    InvalidProjectName(String),
    UnsafeWorkspace(String),
    CheckoutExists(String),
    CheckoutMissing(String),
    LocalLeaseMissing(String),
    InvalidLeaseMetadata(String),
    LeaseHeld(String),
    LeaseMismatch { project: String },
    RemoteProjectMissing(String),
    ForceRequired,
    ProcessStart { program: String, source: String },
    ProcessFailed { program: String, status: i32, stderr: String },
    TransferVerification(String),
}

pub type Result<T> = core::result::Result<T, BusyNasError>;

/// The mathematical value of an error.
pub enum ErrorView {
    ConfigMissing(Seq<char>),
    ConfigRead(Seq<char>),
    InvalidConfig(Seq<char>),
    ConfigParse(Seq<char>),
    LeaseSerialize(Seq<char>),
    InvalidProjectName(Seq<char>),
    UnsafeWorkspace(Seq<char>),
    CheckoutExists(Seq<char>),
    CheckoutMissing(Seq<char>),
    LocalLeaseMissing(Seq<char>),
    InvalidLeaseMetadata(Seq<char>),
    LeaseHeld(Seq<char>),
    LeaseMismatch { project: Seq<char> },
    RemoteProjectMissing(Seq<char>),
    ForceRequired,
    ProcessStart { program: Seq<char>, source: Seq<char> },
    ProcessFailed { program: Seq<char>, status: int, stderr: Seq<char> },
    TransferVerification(Seq<char>),
}

impl View for BusyNasError {
    type V = ErrorView;

    open spec fn view(&self) -> ErrorView {
        match self {
            BusyNasError::ConfigMissing(p) => ErrorView::ConfigMissing(p@),
            BusyNasError::ConfigRead(m) => ErrorView::ConfigRead(m@),
            BusyNasError::InvalidConfig(m) => ErrorView::InvalidConfig(m@),
            BusyNasError::ConfigParse(m) => ErrorView::ConfigParse(m@),
            BusyNasError::LeaseSerialize(m) => ErrorView::LeaseSerialize(m@),
            BusyNasError::InvalidProjectName(m) => ErrorView::InvalidProjectName(m@),
            BusyNasError::UnsafeWorkspace(m) => ErrorView::UnsafeWorkspace(m@),
            BusyNasError::CheckoutExists(p) => ErrorView::CheckoutExists(p@),
            BusyNasError::CheckoutMissing(p) => ErrorView::CheckoutMissing(p@),
            BusyNasError::LocalLeaseMissing(p) => ErrorView::LocalLeaseMissing(p@),
            BusyNasError::InvalidLeaseMetadata(m) => ErrorView::InvalidLeaseMetadata(m@),
            BusyNasError::LeaseHeld(p) => ErrorView::LeaseHeld(p@),
            BusyNasError::LeaseMismatch { project } => ErrorView::LeaseMismatch {
                project: project@,
            },
            BusyNasError::RemoteProjectMissing(p) => ErrorView::RemoteProjectMissing(p@),
            BusyNasError::ForceRequired => ErrorView::ForceRequired,
            BusyNasError::ProcessStart { program, source } => ErrorView::ProcessStart {
                program: program@,
                source: source@,
            },
            BusyNasError::ProcessFailed { program, status, stderr } => ErrorView::ProcessFailed {
                program: program@,
                status: *status as int,
                stderr: stderr@,
            },
            BusyNasError::TransferVerification(m) => ErrorView::TransferVerification(m@),
        }
    }
}

/// The text of an error, as a user reads it.
pub open spec fn message_text(e: ErrorView) -> Seq<char> {
    match e {
        ErrorView::ConfigMissing(p) => "configuration file not found: "@ + p,
        ErrorView::ConfigRead(m) => "could not read configuration: "@ + m,
        ErrorView::InvalidConfig(m) => "invalid configuration: "@ + m,
        ErrorView::ConfigParse(m) => "could not parse configuration: "@ + m,
        ErrorView::LeaseSerialize(m) => "could not serialize lease metadata: "@ + m,
        ErrorView::InvalidProjectName(m) => "invalid project name `"@ + m
            + "`; use a lowercase slug such as `my-project`"@,
        ErrorView::UnsafeWorkspace(m) => "workspace root is unsafe: "@ + m,
        ErrorView::CheckoutExists(p) => "a local checkout already exists: "@ + p,
        ErrorView::CheckoutMissing(p) => "local checkout does not exist: "@ + p,
        ErrorView::LocalLeaseMissing(p) => "no local lease state exists for project `"@ + p
            + "`"@,
        ErrorView::InvalidLeaseMetadata(m) => "invalid lease metadata: "@ + m,
        ErrorView::LeaseHeld(p) => "the NAS lease for `"@ + p
            + "` is held by another machine or cannot be acquired"@,
        ErrorView::LeaseMismatch { project } => "the NAS lease for `"@ + project
            + "` does not match this machine's token"@,
        ErrorView::RemoteProjectMissing(p) => "NAS source project does not exist: "@ + p,
        ErrorView::ForceRequired => "`reclaim` requires --force"@,
        ErrorView::ProcessStart { program, source } => "failed to start `"@ + program + "`: "@
            + source,
        ErrorView::ProcessFailed { program, status, stderr } => "`"@ + program
            + "` failed with status "@ + signed_decimal(status) + ": "@ + stderr,
        ErrorView::TransferVerification(m) => "rsync verification found remaining differences: "@
            + m,
    }
}

fn text2(a: &str, b: &String) -> (out: String)
    ensures
        out@ == a@ + b@,
{
    let mut out = owned(a);
    push_str(&mut out, b.as_str());
    out
}

fn text3(a: &str, b: &String, c: &str) -> (out: String)
    ensures
        out@ == a@ + b@ + c@,
{
    let mut out = text2(a, b);
    push_str(&mut out, c);
    out
}

impl BusyNasError {
    /// The message of this error (what `Display` shows).
    pub fn message(&self) -> (out: String)
        ensures
            out@ == message_text(self@),
    {
        match self {
            BusyNasError::ConfigMissing(p) => text2("configuration file not found: ", p),
            BusyNasError::ConfigRead(m) => text2("could not read configuration: ", m),
            BusyNasError::InvalidConfig(m) => text2("invalid configuration: ", m),
            BusyNasError::ConfigParse(m) => text2("could not parse configuration: ", m),
            BusyNasError::LeaseSerialize(m) => text2("could not serialize lease metadata: ", m),
            BusyNasError::InvalidProjectName(m) => text3(
                "invalid project name `",
                m,
                "`; use a lowercase slug such as `my-project`",
            ),
            BusyNasError::UnsafeWorkspace(m) => text2("workspace root is unsafe: ", m),
            BusyNasError::CheckoutExists(p) => text2("a local checkout already exists: ", p),
            BusyNasError::CheckoutMissing(p) => text2("local checkout does not exist: ", p),
            BusyNasError::LocalLeaseMissing(p) => text3(
                "no local lease state exists for project `",
                p,
                "`",
            ),
            BusyNasError::InvalidLeaseMetadata(m) => text2("invalid lease metadata: ", m),
            BusyNasError::LeaseHeld(p) => text3(
                "the NAS lease for `",
                p,
                "` is held by another machine or cannot be acquired",
            ),
            BusyNasError::LeaseMismatch { project } => text3(
                "the NAS lease for `",
                project,
                "` does not match this machine's token",
            ),
            BusyNasError::RemoteProjectMissing(p) => text2(
                "NAS source project does not exist: ",
                p,
            ),
            BusyNasError::ForceRequired => owned("`reclaim` requires --force"),
            BusyNasError::ProcessStart { program, source } => {
                let mut out = text3("failed to start `", program, "`: ");
                push_str(&mut out, source.as_str());
                out
            },
            BusyNasError::ProcessFailed { program, status, stderr } => {
                let mut out = text3("`", program, "` failed with status ");
                push_signed_decimal(&mut out, *status);
                push_str(&mut out, ": ");
                push_str(&mut out, stderr.as_str());
                out
            },
            BusyNasError::TransferVerification(m) => text2(
                "rsync verification found remaining differences: ",
                m,
            ),
        }
    }
}

} // verus!

//! Lease metadata: which machine holds a project.

use vstd::prelude::*;

use crate::clock::{in_chrono_range, utc_now, UtcTime};
use crate::error::{BusyNasError, ErrorView, Result};
use crate::order::string_eq;
use crate::project::ProjectName;
use crate::text::{decimal, owned, push_decimal, push_str};
use crate::uuids::{hyphenated, is_v4, new_v4, uuid_hyphenated_text};

verus! {

/// The version of the lease document that this release writes and reads.
pub const FORMAT_VERSION: u8 = 1;

/// A lease: the same document locally and on the NAS.
#[derive(Clone, Debug)]
pub struct Lease {
    pub format_version: u8,
    pub project: String,
    pub token: String,
    pub created_at: UtcTime,
}

pub struct LeaseView {
    pub format_version: nat,
    pub project: Seq<char>,
    pub token: Seq<char>,
    pub created_at: UtcTime,
}

impl View for Lease {
    type V = LeaseView;

    open spec fn view(&self) -> LeaseView {
        LeaseView {
            format_version: self.format_version as nat,
            project: self.project@,
            token: self.token@,
            created_at: self.created_at,
        }
    }
}

/// The first release's lease record, which had no version.
#[derive(Clone, Debug)]
pub struct LegacyLease {
    pub project: String,
    pub token: String,
    pub created_at: UtcTime,
}

/// What `Lease::validate` answers for a lease expected to be for `project`.
pub open spec fn lease_check(l: LeaseView, project: Seq<char>) -> core::result::Result<(), ErrorView> {
    if l.format_version != FORMAT_VERSION {
        Err(
            ErrorView::InvalidLeaseMetadata(
                "unsupported format version "@ + decimal(l.format_version),
            ),
        )
    } else if l.project != project {
        Err(
            ErrorView::InvalidLeaseMetadata(
                "project is `"@ + l.project + "`, expected `"@ + project + "`"@,
            ),
        )
    } else if l.token.len() == 0 {
        Err(ErrorView::InvalidLeaseMetadata("token must not be empty"@))
    } else {
        Ok(())
    }
}

/// What reading a lease document gives, from the outcome of decoding it.
pub open spec fn lease_from_parsed(
    parsed: core::result::Result<LeaseView, Seq<char>>,
    project: Seq<char>,
) -> core::result::Result<LeaseView, ErrorView> {
    match parsed {
        Err(m) => Err(ErrorView::InvalidLeaseMetadata(m)),
        Ok(l) => match lease_check(l, project) {
            Ok(()) => Ok(l),
            Err(e) => Err(e),
        },
    }
}

pub open spec fn parsed_view(parsed: core::result::Result<Lease, String>) -> core::result::Result<LeaseView, Seq<char>> {
    match parsed {
        Ok(l) => Ok(l@),
        Err(m) => Err(m@),
    }
}

pub open spec fn result_view(r: Result<Lease>) -> core::result::Result<LeaseView, ErrorView> {
    match r {
        Ok(l) => Ok(l@),
        Err(e) => Err(e@),
    }
}

impl Lease {
    /// A fresh lease on `project`: this format version, a new random token (a
    /// version 4 UUID, hyphenated), and the current time.
    pub fn new(project: &ProjectName) -> (l: Lease)
        ensures
            l@.format_version == FORMAT_VERSION,
            l@.project == project@,
            exists|v: u128| is_v4(v) && l@.token == uuid_hyphenated_text(v),
            in_chrono_range(l.created_at),
    {
        let v = new_v4();
        Lease {
            format_version: FORMAT_VERSION,
            project: owned(project.as_str()),
            token: hyphenated(v),
            created_at: utc_now(),
        }
    }

    /// Checks that the lease is of this format version, for `project`, with a token.
    pub fn validate(&self, project: &ProjectName) -> (r: Result<()>)
        ensures
            r is Ok <==> lease_check(self@, project@) is Ok,
            r matches Err(e) ==> lease_check(self@, project@) == Err::<(), ErrorView>(e@),
    {
        if self.format_version != FORMAT_VERSION {
            let mut m = owned("unsupported format version ");
            push_decimal(&mut m, self.format_version as u64);
            return Err(BusyNasError::InvalidLeaseMetadata(m));
        }
        let expected = owned(project.as_str());
        if !string_eq(&self.project, &expected) {
            let mut m = owned("project is `");
            push_str(&mut m, self.project.as_str());
            push_str(&mut m, "`, expected `");
            push_str(&mut m, project.as_str());
            push_str(&mut m, "`");
            return Err(BusyNasError::InvalidLeaseMetadata(m));
        }
        if self.token.as_str().is_empty() {
            return Err(BusyNasError::InvalidLeaseMetadata(owned("token must not be empty")));
        }
        Ok(())
    }

    /// A lease read from a document: the decoder's error is invalid metadata, and a
    /// decoded lease must pass `validate`.
    pub fn from_parsed(parsed: core::result::Result<Lease, String>, project: &ProjectName) -> (r:
        Result<Lease>)
        ensures
            result_view(r) == lease_from_parsed(parsed_view(parsed), project@),
    {
        match parsed {
            Err(m) => Err(BusyNasError::InvalidLeaseMetadata(m)),
            Ok(lease) => match lease.validate(project) {
                Ok(()) => Ok(lease),
                Err(e) => Err(e),
            },
        }
    }

    /// A lease from the first release's record: a record that cannot be decoded is
    /// invalid metadata; one for another project, or without a token, counts as no
    /// record at all.
    pub fn from_legacy(parsed: core::result::Result<LegacyLease, String>, project: &ProjectName) -> (r:
        Result<Lease>)
        ensures
            parsed matches Err(m) ==> r matches Err(e) && e@ == ErrorView::InvalidLeaseMetadata(
                m@,
            ),
            parsed matches Ok(old) ==> (old.project@ == project@ && old.token@.len() > 0 <==> r is Ok),
            parsed matches Ok(old) ==> (r matches Ok(l) ==> l@ == (LeaseView {
                format_version: FORMAT_VERSION as nat,
                project: old.project@,
                token: old.token@,
                created_at: old.created_at,
            })),
            parsed matches Ok(old) ==> (r matches Err(e) ==> e@ == ErrorView::LocalLeaseMissing(
                project@,
            )),
    {
        match parsed {
            Err(m) => Err(BusyNasError::InvalidLeaseMetadata(m)),
            Ok(old) => {
                let expected = owned(project.as_str());
                if !string_eq(&old.project, &expected) || old.token.as_str().is_empty() {
                    Err(BusyNasError::LocalLeaseMissing(owned(project.as_str())))
                } else {
                    Ok(
                        Lease {
                            format_version: FORMAT_VERSION,
                            project: old.project,
                            token: old.token,
                            created_at: old.created_at,
                        },
                    )
                }
            },
        }
    }
}

} // verus!

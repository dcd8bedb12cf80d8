//! The local lease record of the first layout.

use vstd::prelude::*;

use crate::clock::{in_chrono_range, utc_now, UtcTime};
use crate::error::{BusyNasError, ErrorView, Result};
use crate::order::string_eq;
use crate::project::ProjectName;
use crate::text::owned;
use crate::uuids::{hyphenated, is_v4, new_v4, uuid_hyphenated_text};

verus! {

#[derive(Clone, Debug)]
pub struct LeaseState {
    pub project: String,
    pub token: String,
    pub created_at: UtcTime,
}

impl LeaseState {
    /// A fresh record for `project` with a new random token and the current time.
    pub fn new(project: &ProjectName) -> (s: LeaseState)
        ensures
            s.project@ == project@,
            exists|v: u128| is_v4(v) && s.token@ == uuid_hyphenated_text(v),
            in_chrono_range(s.created_at),
    {
        let v = new_v4();
        LeaseState { project: owned(project.as_str()), token: hyphenated(v), created_at: utc_now() }
    }

    /// A record read from a document: the decoder's error is a parse error, and a
    /// record for another project counts as no record.
    pub fn from_parsed(parsed: core::result::Result<LeaseState, String>, project: &ProjectName) -> (r:
        Result<LeaseState>)
        ensures
            parsed matches Err(m) ==> r matches Err(e) && e@ == ErrorView::ConfigParse(m@),
            parsed matches Ok(s) ==> (s.project@ == project@ <==> r is Ok),
            parsed matches Ok(s) ==> (r matches Ok(t) ==> t.project@ == s.project@ && t.token@
                == s.token@ && t.created_at == s.created_at),
            parsed matches Ok(s) ==> (r matches Err(e) ==> e@ == ErrorView::LocalLeaseMissing(
                project@,
            )),
    {
        match parsed {
            Err(m) => Err(BusyNasError::ConfigParse(m)),
            Ok(s) => {
                let expected = owned(project.as_str());
                if string_eq(&s.project, &expected) {
                    Ok(s)
                } else {
                    Err(BusyNasError::LocalLeaseMissing(owned(project.as_str())))
                }
            },
        }
    }
}

} // verus!

//! Project names: path-safe slugs.

use vstd::prelude::*;

use crate::error::{BusyNasError, ErrorView, Result};
use crate::text::{chars_of, owned};

verus! {

/// A lowercase ASCII letter or digit.
pub open spec fn is_lower_alnum(c: char) -> bool {
    ('a' <= c && c <= 'z') || ('0' <= c && c <= '9')
}

/// A character allowed in a project name.
pub open spec fn is_slug_char(c: char) -> bool {
    is_lower_alnum(c) || c == '-'
}

/// A project name: 1 to 63 characters, each a lowercase ASCII letter, a digit or
/// `-`, and the first not `-`.
pub open spec fn is_slug(s: Seq<char>) -> bool {
    &&& 1 <= s.len() <= 63
    &&& is_lower_alnum(s[0])
    &&& forall|i: int| 0 <= i < s.len() ==> is_slug_char(#[trigger] s[i])
}

/// A path-safe project slug.
#[derive(Debug, PartialEq, Eq, Hash, PartialOrd, Ord)]
pub struct ProjectName(String);

impl View for ProjectName {
    type V = Seq<char>;

    closed spec fn view(&self) -> Seq<char> {
        self.0@
    }
}

impl ProjectName {
    #[verifier::type_invariant]
    closed spec fn is_valid(self) -> bool {
        is_slug(self.0@)
    }

    /// Accepts exactly the slugs, and keeps the text as it is.
    pub fn parse(value: &str) -> (r: Result<ProjectName>)
        ensures
            r is Ok <==> is_slug(value@),
            r matches Ok(n) ==> n@ == value@,
            r matches Err(e) ==> e@ == ErrorView::InvalidProjectName(value@),
    {
        let cs = chars_of(value);
        let mut valid = 1 <= cs.len() && cs.len() <= 63 && (('a' <= cs[0] && cs[0] <= 'z') || (
        '0' <= cs[0] && cs[0] <= '9'));
        let mut i: usize = 0;
        while valid && i < cs.len()
            invariant
                i <= cs.len(),
                cs@ == value@,
                valid ==> 1 <= cs.len() <= 63 && is_lower_alnum(cs@[0]),
                valid ==> forall|j: int| 0 <= j < i ==> is_slug_char(#[trigger] cs@[j]),
                !valid ==> !is_slug(value@),
            decreases cs.len() - i,
        {
            let c = cs[i];
            if !(('a' <= c && c <= 'z') || ('0' <= c && c <= '9') || c == '-') {
                assert(!is_slug_char(value@[i as int]));
                valid = false;
            }
            i = i + 1;
        }
        if valid {
            Ok(ProjectName(owned(value)))
        } else {
            Err(BusyNasError::InvalidProjectName(owned(value)))
        }
    }

    /// The name as text.
    pub fn as_str(&self) -> (s: &str)
        ensures
            s@ == self@,
            is_slug(s@),
    {
        proof {
            use_type_invariant(self);
        }
        self.0.as_str()
    }

    /// Another value holding the same name.
    pub fn duplicate(&self) -> (n: ProjectName)
        ensures
            n@ == self@,
    {
        proof {
            use_type_invariant(self);
        }
        ProjectName(self.0.clone())
    }
}

impl core::str::FromStr for ProjectName {
    type Err = BusyNasError;

    fn from_str(value: &str) -> (r: core::result::Result<ProjectName, BusyNasError>)
        ensures
            r is Ok <==> is_slug(value@),
            r matches Ok(n) ==> n@ == value@,
            r matches Err(e) ==> e@ == ErrorView::InvalidProjectName(value@),
    {
        ProjectName::parse(value)
    }
}

} // verus!

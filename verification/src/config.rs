//! The configuration: where the NAS is, where checkouts live, how many snapshots stay.

use vstd::prelude::*;

use crate::error::{BusyNasError, ErrorView, Result};
use crate::pathname::{is_absolute, parts, parts_of};
use crate::text::{chars_of, owned, push_char, push_str, strs};
use crate::order::string_eq;

verus! {

/// Where the canonical tree lives.
#[derive(Clone, Debug)]
pub struct NasConfig {
    pub host: String,
    pub user: Option<String>,
    pub root: String,
}

#[derive(Clone, Debug)]
pub struct Config {
    pub nas: NasConfig,
    pub workspace_root: String,
    pub snapshot_retention: usize,
}

pub struct ConfigView {
    pub host: Seq<char>,
    pub user: Option<Seq<char>>,
    pub root: Seq<char>,
    pub workspace_root: Seq<char>,
    pub snapshot_retention: nat,
}

impl View for Config {
    type V = ConfigView;

    open spec fn view(&self) -> ConfigView {
        ConfigView {
            host: self.nas.host@,
            user: match self.nas.user {
                Some(u) => Some(u@),
                None => None,
            },
            root: self.nas.root@,
            workspace_root: self.workspace_root@,
            snapshot_retention: self.snapshot_retention as nat,
        }
    }
}

pub open spec fn is_ascii_alnum(c: char) -> bool {
    ('a' <= c && c <= 'z') || ('A' <= c && c <= 'Z') || ('0' <= c && c <= '9')
}

/// A host name or user name that is safe to hand to ssh: not empty, and only ASCII
/// letters, digits, dots and hyphens.
pub open spec fn is_safe_host(s: Seq<char>) -> bool {
    s.len() > 0 && forall|i: int| 0 <= i < s.len() ==> is_ascii_alnum(#[trigger] s[i]) || s[i]
        == '.' || s[i] == '-'
}

pub open spec fn is_root_char(c: char) -> bool {
    is_ascii_alnum(c) || c == '/' || c == '_' || c == '-' || c == '.'
}

/// An absolute, shell-safe NAS root without `..` components.
pub open spec fn is_safe_remote_root(root: Seq<char>) -> bool {
    &&& is_absolute(root)
    &&& !parts(root).contains(seq!['.', '.'])
    &&& forall|i: int| 0 <= i < root.len() ==> is_root_char(#[trigger] root[i])
}

pub open spec fn host_message() -> Seq<char> {
    "nas.host may contain only letters, digits, dots, or hyphens"@
}

pub open spec fn user_message() -> Seq<char> {
    "nas.user may contain only letters, digits, dots, or hyphens"@
}

pub open spec fn root_message() -> Seq<char> {
    "nas.root must be an absolute, shell-safe path without traversal components"@
}

pub open spec fn workspace_absolute_message() -> Seq<char> {
    "workspace_root must be an absolute local path"@
}

pub open spec fn workspace_colon_message() -> Seq<char> {
    "workspace_root may not contain ':' because rsync would treat it as a remote endpoint"@
}

pub open spec fn retention_message() -> Seq<char> {
    "snapshot_retention must be at least 1"@
}

/// What `validate` answers: the first rule that the configuration breaks.
pub open spec fn validation(c: ConfigView) -> core::result::Result<(), ErrorView> {
    if !is_safe_host(c.host) {
        Err(ErrorView::InvalidConfig(host_message()))
    } else if c.user is Some && !is_safe_host(c.user->0) {
        Err(ErrorView::InvalidConfig(user_message()))
    } else if !is_safe_remote_root(c.root) {
        Err(ErrorView::InvalidConfig(root_message()))
    } else if !is_absolute(c.workspace_root) {
        Err(ErrorView::InvalidConfig(workspace_absolute_message()))
    } else if c.workspace_root.contains(':') {
        Err(ErrorView::InvalidConfig(workspace_colon_message()))
    } else if c.snapshot_retention == 0 {
        Err(ErrorView::InvalidConfig(retention_message()))
    } else {
        Ok(())
    }
}

/// The ssh destination: `user@host`, or the host alone.
pub open spec fn remote_target_of(c: ConfigView) -> Seq<char> {
    match c.user {
        Some(u) => u + seq!['@'] + c.host,
        None => c.host,
    }
}

pub open spec fn default_remote_root_text() -> Seq<char> {
    "/srv/developer"@
}

pub open spec fn default_retention() -> nat {
    20
}

/// The canonical source root when the file names none.
pub fn default_remote_root() -> (s: String)
    ensures
        s@ == default_remote_root_text(),
{
    owned("/srv/developer")
}

/// How many snapshots stay when the file names no number.
pub fn default_snapshot_retention() -> (n: usize)
    ensures
        n == default_retention(),
{
    20
}

fn is_safe_host_component(value: &str) -> (b: bool)
    ensures
        b == is_safe_host(value@),
{
    let cs = chars_of(value);
    if cs.len() == 0 {
        return false;
    }
    let mut i: usize = 0;
    while i < cs.len()
        invariant
            i <= cs.len(),
            cs@ == value@,
            forall|j: int| 0 <= j < i ==> is_ascii_alnum(#[trigger] cs@[j]) || cs@[j] == '.'
                || cs@[j] == '-',
        decreases cs.len() - i,
    {
        let c = cs[i];
        if !((('a' <= c && c <= 'z') || ('A' <= c && c <= 'Z') || ('0' <= c && c <= '9')) || c
            == '.' || c == '-') {
            assert(!(is_ascii_alnum(value@[i as int]) || value@[i as int] == '.' || value@[i as int]
                == '-'));
            return false;
        }
        i = i + 1;
    }
    true
}

fn validate_remote_root(root: &str) -> (b: bool)
    ensures
        b == is_safe_remote_root(root@),
{
    let cs = chars_of(root);
    if cs.len() == 0 || cs[0] != '/' {
        return false;
    }
    let mut i: usize = 0;
    while i < cs.len()
        invariant
            i <= cs.len(),
            cs@ == root@,
            forall|j: int| 0 <= j < i ==> is_root_char(#[trigger] cs@[j]),
        decreases cs.len() - i,
    {
        let c = cs[i];
        if !((('a' <= c && c <= 'z') || ('A' <= c && c <= 'Z') || ('0' <= c && c <= '9')) || c
            == '/' || c == '_' || c == '-' || c == '.') {
            assert(!is_root_char(root@[i as int]));
            return false;
        }
        i = i + 1;
    }
    let ps = parts_of(root);
    let dots = owned("..");
    proof {
        reveal_strlit("..");
        assert(dots@ =~= seq!['.', '.']);
    }
    let mut k: usize = 0;
    while k < ps.len()
        invariant
            k <= ps.len(),
            strs(ps@) == parts(root@),
            dots@ == seq!['.', '.'],
            forall|j: int| 0 <= j < k ==> strs(ps@)[j] != seq!['.', '.'],
        decreases ps.len() - k,
    {
        if string_eq(&ps[k], &dots) {
            assert(strs(ps@)[k as int] == seq!['.', '.']);
            return false;
        }
        k = k + 1;
    }
    true
}

fn contains_colon(s: &str) -> (b: bool)
    ensures
        b == s@.contains(':'),
{
    let cs = chars_of(s);
    let mut i: usize = 0;
    while i < cs.len()
        invariant
            i <= cs.len(),
            cs@ == s@,
            forall|j: int| 0 <= j < i ==> cs@[j] != ':',
        decreases cs.len() - i,
    {
        if cs[i] == ':' {
            assert(s@[i as int] == ':');
            return true;
        }
        i = i + 1;
    }
    false
}

fn starts_with_slash(s: &str) -> (b: bool)
    ensures
        b == is_absolute(s@),
{
    let cs = chars_of(s);
    cs.len() > 0 && cs[0] == '/'
}

fn invalid(message: &str) -> (e: BusyNasError)
    ensures
        e@ == ErrorView::InvalidConfig(message@),
{
    BusyNasError::InvalidConfig(owned(message))
}

impl Config {
    /// Checks the configuration against its rules, in order, and names the first
    /// that it breaks.
    pub fn validate(&self) -> (r: Result<()>)
        ensures
            r is Ok <==> validation(self@) is Ok,
            r matches Err(e) ==> validation(self@) == Err::<(), ErrorView>(e@),
    {
        if !is_safe_host_component(self.nas.host.as_str()) {
            return Err(invalid("nas.host may contain only letters, digits, dots, or hyphens"));
        }
        match &self.nas.user {
            Some(user) => {
                if !is_safe_host_component(user.as_str()) {
                    return Err(
                        invalid("nas.user may contain only letters, digits, dots, or hyphens"),
                    );
                }
            },
            None => {},
        }
        if !validate_remote_root(self.nas.root.as_str()) {
            return Err(
                invalid(
                    "nas.root must be an absolute, shell-safe path without traversal components",
                ),
            );
        }
        if !starts_with_slash(self.workspace_root.as_str()) {
            return Err(invalid("workspace_root must be an absolute local path"));
        }
        if contains_colon(self.workspace_root.as_str()) {
            return Err(
                invalid(
                    "workspace_root may not contain ':' because rsync would treat it as a remote endpoint",
                ),
            );
        }
        if self.snapshot_retention == 0 {
            return Err(invalid("snapshot_retention must be at least 1"));
        }
        Ok(())
    }

    /// The ssh destination, `user@host` or `host`.
    pub fn remote_target(&self) -> (s: String)
        ensures
            s@ == remote_target_of(self@),
    {
        match &self.nas.user {
            Some(user) => {
                let mut out = owned(user.as_str());
                push_char(&mut out, '@');
                push_str(&mut out, self.nas.host.as_str());
                out
            },
            None => owned(self.nas.host.as_str()),
        }
    }

    /// A configuration from the settings of a configuration file, with the defaults
    /// for the settings that it leaves out, checked by `validate`.
    pub fn from_settings(
        host: String,
        user: Option<String>,
        root: Option<String>,
        workspace_root: String,
        snapshot_retention: Option<usize>,
    ) -> (r: Result<Config>)
        ensures
            ({
                let c = ConfigView {
                    host: host@,
                    user: match user {
                        Some(u) => Some(u@),
                        None => None,
                    },
                    root: match root {
                        Some(r) => r@,
                        None => default_remote_root_text(),
                    },
                    workspace_root: workspace_root@,
                    snapshot_retention: match snapshot_retention {
                        Some(n) => n as nat,
                        None => default_retention(),
                    },
                };
                &&& r is Ok <==> validation(c) is Ok
                &&& r matches Ok(config) ==> config@ == c
                &&& r matches Err(e) ==> validation(c) == Err::<(), ErrorView>(e@)
            }),
    {
        let root = match root {
            Some(r) => r,
            None => default_remote_root(),
        };
        let snapshot_retention = match snapshot_retention {
            Some(n) => n,
            None => default_snapshot_retention(),
        };
        let config = Config {
            nas: NasConfig { host, user, root },
            workspace_root,
            snapshot_retention,
        };
        match config.validate() {
            Ok(()) => Ok(config),
            Err(e) => Err(e),
        }
    }
}

} // verus!

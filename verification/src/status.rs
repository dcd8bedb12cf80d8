//! The status table.

use vstd::prelude::*;

use crate::order::{in_order, lemma_in_order, sort_unique, string_eq};
use crate::text::{chars_of, decimal, owned, push_decimal, push_repeat, push_str, repeat, strs};

verus! {

/// What `status` found: projects on the NAS, leases on the NAS, leases recorded here.
#[derive(Debug, Default, PartialEq, Eq)]
pub struct Status {
    pub remote: String,
    pub remote_root: String,
    pub workspace_root: String,
    pub projects: Vec<String>,
    pub nas_leases: Vec<String>,
    pub local_leases: Vec<String>,
}

pub struct StatusView {
    pub remote: Seq<char>,
    pub remote_root: Seq<char>,
    pub workspace_root: Seq<char>,
    pub projects: Seq<Seq<char>>,
    pub nas_leases: Seq<Seq<char>>,
    pub local_leases: Seq<Seq<char>>,
}

impl View for Status {
    type V = StatusView;

    open spec fn view(&self) -> StatusView {
        StatusView {
            remote: self.remote@,
            remote_root: self.remote_root@,
            workspace_root: self.workspace_root@,
            projects: strs(self.projects@),
            nas_leases: strs(self.nas_leases@),
            local_leases: strs(self.local_leases@),
        }
    }
}

/// `value` wrapped in the ANSI style `code` when colour is on.
pub open spec fn paint_text(enabled: bool, code: Seq<char>, value: Seq<char>) -> Seq<char> {
    if enabled {
        "\x1b["@ + code + "m"@ + value + "\x1b[0m"@
    } else {
        value
    }
}

/// `value` padded with spaces to `width` characters (never cut).
pub open spec fn pad_text(value: Seq<char>, width: nat) -> Seq<char> {
    value + repeat(' ', if width > value.len() { (width - value.len()) as nat } else { 0 })
}

pub open spec fn plural_text(count: nat, singular: Seq<char>) -> Seq<char> {
    if count == 1 {
        singular
    } else {
        singular + "s"@
    }
}

pub open spec fn max_nat(a: nat, b: nat) -> nat {
    if a >= b {
        a
    } else {
        b
    }
}

/// The length of the longest name.
pub open spec fn widest(names: Seq<Seq<char>>) -> nat
    decreases names.len(),
{
    if names.len() == 0 {
        0
    } else {
        max_nat(widest(names.drop_last()), names.last().len())
    }
}

/// The rows of the table: every project named anywhere, once, in order.
pub open spec fn row_names(st: StatusView) -> Seq<Seq<char>> {
    in_order((st.projects + st.nas_leases + st.local_leases).to_set())
}

pub open spec fn project_width(st: StatusView) -> nat {
    max_nat(widest(row_names(st)), 7)
}

/// The width of the lease and local columns: `● held` and `● here` are six wide.
pub open spec fn mark_width() -> nat {
    6
}

pub open spec fn row_text(st: StatusView, color: bool, name: Seq<char>) -> Seq<char> {
    let nas = if st.nas_leases.contains(name) {
        paint_text(color, "33"@, pad_text("● held"@, mark_width()))
    } else {
        paint_text(color, "2"@, pad_text("·"@, mark_width()))
    };
    let local = if st.local_leases.contains(name) {
        paint_text(color, "32"@, pad_text("● here"@, mark_width()))
    } else {
        paint_text(color, "2"@, pad_text("·"@, mark_width()))
    };
    pad_text(name, project_width(st)) + "  "@ + nas + "  "@ + local + "\n"@
}

pub open spec fn rows_text(st: StatusView, color: bool, names: Seq<Seq<char>>) -> Seq<char>
    decreases names.len(),
{
    if names.len() == 0 {
        Seq::empty()
    } else {
        rows_text(st, color, names.drop_last()) + row_text(st, color, names.last())
    }
}

pub open spec fn summary_text(st: StatusView) -> Seq<char> {
    let np = st.projects.len();
    let nn = st.nas_leases.len();
    let nl = st.local_leases.len();
    decimal(np) + " "@ + plural_text(np, "project"@) + " · "@ + decimal(nn) + " active "@
        + plural_text(nn, "lease"@) + " · "@ + decimal(nl) + " local "@ + plural_text(
        nl,
        "lease"@,
    )
}

/// The whole table, as `render_with_color` draws it.
pub open spec fn status_text(st: StatusView, color: bool) -> Seq<char> {
    let pw = project_width(st);
    let mw = mark_width();
    paint_text(color, "1;36"@, "busy-nas"@) + paint_text(color, "2"@, "  status"@) + "\n\n"@
        + paint_text(color, "2"@, "nas"@) + "  "@ + st.remote + ":"@ + st.remote_root + "\n"@
        + paint_text(color, "2"@, "workdir"@) + "  "@ + st.workspace_root + "\n\n"@ + paint_text(
        color,
        "1"@,
        pad_text("project"@, pw),
    ) + "  "@ + paint_text(color, "1"@, pad_text("lease"@, mw)) + "  "@ + paint_text(
        color,
        "1"@,
        pad_text("local"@, mw),
    ) + "\n"@ + paint_text(
        color,
        "2"@,
        repeat('─', pw) + "  "@ + repeat('─', mw) + "  "@ + repeat('─', mw) + "\n"@,
    ) + rows_text(st, color, row_names(st)) + "\n"@ + paint_text(color, "2"@, summary_text(st))
        + "\n"@
}

/// `value` in the ANSI style `code` when `enabled`.
pub fn paint(enabled: bool, code: &str, value: &str) -> (out: String)
    ensures
        out@ == paint_text(enabled, code@, value@),
{
    if enabled {
        let mut out = owned("\x1b[");
        push_str(&mut out, code);
        push_str(&mut out, "m");
        push_str(&mut out, value);
        push_str(&mut out, "\x1b[0m");
        out
    } else {
        owned(value)
    }
}

/// The number of characters in `value`.
pub fn display_width(value: &str) -> (n: usize)
    ensures
        n == value@.len(),
{
    chars_of(value).len()
}

/// `value` padded with spaces to `width` characters.
pub fn pad_cell(value: &str, width: usize) -> (out: String)
    ensures
        out@ == pad_text(value@, width as nat),
{
    let w = display_width(value);
    let mut out = owned(value);
    let fill = if width > w {
        width - w
    } else {
        0
    };
    push_repeat(&mut out, ' ', fill);
    out
}

pub fn paint_cell(enabled: bool, code: &str, value: &str, width: usize) -> (out: String)
    ensures
        out@ == paint_text(enabled, code@, pad_text(value@, width as nat)),
{
    let padded = pad_cell(value, width);
    paint(enabled, code, padded.as_str())
}

/// `singular`, or its plural with `s` unless `count` is one.
pub fn pluralize(count: usize, singular: &str) -> (out: String)
    ensures
        out@ == plural_text(count as nat, singular@),
{
    let mut out = owned(singular);
    if count != 1 {
        push_str(&mut out, "s");
    }
    out
}

fn contains_name(names: &Vec<String>, name: &String) -> (b: bool)
    ensures
        b == strs(names@).contains(name@),
{
    let mut i: usize = 0;
    while i < names.len()
        invariant
            i <= names.len(),
            forall|j: int| 0 <= j < i ==> strs(names@)[j] != name@,
        decreases names.len() - i,
    {
        if string_eq(&names[i], name) {
            assert(strs(names@)[i as int] == name@);
            return true;
        }
        i = i + 1;
    }
    false
}

fn append_all(out: &mut Vec<String>, src: &Vec<String>)
    ensures
        strs(final(out)@) == strs(old(out)@) + strs(src@),
{
    let mut i: usize = 0;
    while i < src.len()
        invariant
            i <= src.len(),
            strs(out@) == strs(old(out)@) + strs(src@).take(i as int),
        decreases src.len() - i,
    {
        let ghost before = strs(out@);
        out.push(src[i].clone());
        assert(strs(out@) =~= before.push(src@[i as int]@));
        assert(strs(src@).take(i + 1) =~= strs(src@).take(i as int).push(src@[i as int]@));
        i = i + 1;
    }
    assert(strs(src@).take(src.len() as int) =~= strs(src@));
}

fn all_names(st: &Status) -> (out: Vec<String>)
    ensures
        strs(out@) == strs(st.projects@) + strs(st.nas_leases@) + strs(st.local_leases@),
{
    let mut out: Vec<String> = Vec::new();
    append_all(&mut out, &st.projects);
    append_all(&mut out, &st.nas_leases);
    append_all(&mut out, &st.local_leases);
    assert(strs(out@) =~= strs(st.projects@) + strs(st.nas_leases@) + strs(st.local_leases@));
    out
}

fn push_painted(out: &mut String, enabled: bool, code: &str, value: &str)
    ensures
        final(out)@ == old(out)@ + paint_text(enabled, code@, value@),
{
    let p = paint(enabled, code, value);
    push_str(out, p.as_str());
}

impl Status {
    fn row(&self, color: bool, name: &String, pw: usize) -> (out: String)
        requires
            pw == project_width(self@),
        ensures
            out@ == row_text(self@, color, name@),
    {
        let nas = if contains_name(&self.nas_leases, name) {
            paint_cell(color, "33", "● held", 6)
        } else {
            paint_cell(color, "2", "·", 6)
        };
        let local = if contains_name(&self.local_leases, name) {
            paint_cell(color, "32", "● here", 6)
        } else {
            paint_cell(color, "2", "·", 6)
        };
        let mut out = pad_cell(name.as_str(), pw);
        push_str(&mut out, "  ");
        push_str(&mut out, nas.as_str());
        push_str(&mut out, "  ");
        push_str(&mut out, local.as_str());
        push_str(&mut out, "\n");
        assert(out@ =~= row_text(self@, color, name@));
        out
    }

    /// The status table; `color` turns on ANSI styles.
    pub fn render_with_color(&self, color: bool) -> (out: String)
        ensures
            out@ == status_text(self@, color),
    {
        let names = sort_unique(all_names(self));
        proof {
            lemma_in_order(strs(names@));
        }
        let ghost st = self@;
        let mut pw: usize = display_width("project");
        proof {
            reveal_strlit("project");
        }
        let mut k: usize = 0;
        while k < names.len()
            invariant
                k <= names.len(),
                pw == max_nat(widest(strs(names@).take(k as int)), 7),
            decreases names.len() - k,
        {
            let w = display_width(names[k].as_str());
            if w > pw {
                pw = w;
            }
            proof {
                assert(strs(names@).take(k + 1).drop_last() =~= strs(names@).take(k as int));
            }
            k = k + 1;
        }
        proof {
            assert(strs(names@).take(names.len() as int) =~= strs(names@));
            assert(pw == project_width(st));
        }
        let lease_width: usize = 6;
        let local_width: usize = 6;
        let mut out = String::new();
        push_painted(&mut out, color, "1;36", "busy-nas");
        push_painted(&mut out, color, "2", "  status");
        push_str(&mut out, "\n\n");
        push_painted(&mut out, color, "2", "nas");
        push_str(&mut out, "  ");
        push_str(&mut out, self.remote.as_str());
        push_str(&mut out, ":");
        push_str(&mut out, self.remote_root.as_str());
        push_str(&mut out, "\n");
        push_painted(&mut out, color, "2", "workdir");
        push_str(&mut out, "  ");
        push_str(&mut out, self.workspace_root.as_str());
        push_str(&mut out, "\n\n");
        let title = pad_cell("project", pw);
        push_painted(&mut out, color, "1", title.as_str());
        push_str(&mut out, "  ");
        let title = pad_cell("lease", lease_width);
        push_painted(&mut out, color, "1", title.as_str());
        push_str(&mut out, "  ");
        let title = pad_cell("local", local_width);
        push_painted(&mut out, color, "1", title.as_str());
        push_str(&mut out, "\n");
        let mut rule = String::new();
        push_repeat(&mut rule, '─', pw);
        push_str(&mut rule, "  ");
        push_repeat(&mut rule, '─', lease_width);
        push_str(&mut rule, "  ");
        push_repeat(&mut rule, '─', local_width);
        push_str(&mut rule, "\n");
        push_painted(&mut out, color, "2", rule.as_str());
        let ghost head = out@;
        let mut k: usize = 0;
        while k < names.len()
            invariant
                k <= names.len(),
                st == self@,
                strs(names@) == row_names(st),
                pw == project_width(st),
                out@ == head + rows_text(st, color, strs(names@).take(k as int)),
            decreases names.len() - k,
        {
            let name = &names[k];
            let row = self.row(color, name, pw);
            push_str(&mut out, row.as_str());
            proof {
                let t = strs(names@).take(k + 1);
                assert(t.drop_last() =~= strs(names@).take(k as int));
                assert(t.last() == name@);
                assert(out@ =~= head + rows_text(st, color, t));
            }
            k = k + 1;
        }
        proof {
            assert(strs(names@).take(names.len() as int) =~= strs(names@));
        }
        push_str(&mut out, "\n");
        let mut summary = String::new();
        push_decimal(&mut summary, self.projects.len() as u64);
        push_str(&mut summary, " ");
        let word = pluralize(self.projects.len(), "project");
        push_str(&mut summary, word.as_str());
        push_str(&mut summary, " · ");
        push_decimal(&mut summary, self.nas_leases.len() as u64);
        push_str(&mut summary, " active ");
        let word = pluralize(self.nas_leases.len(), "lease");
        push_str(&mut summary, word.as_str());
        push_str(&mut summary, " · ");
        push_decimal(&mut summary, self.local_leases.len() as u64);
        push_str(&mut summary, " local ");
        let word = pluralize(self.local_leases.len(), "lease");
        push_str(&mut summary, word.as_str());
        push_painted(&mut out, color, "2", summary.as_str());
        push_str(&mut out, "\n");
        proof {
            assert(summary@ =~= summary_text(st));
            assert(out@ =~= status_text(st, color));
        }
        out
    }
}

} // verus!

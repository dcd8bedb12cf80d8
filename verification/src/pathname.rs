//! Unix path arithmetic on strings: joining, components, prefixes, final names.

use vstd::prelude::*;

use crate::order::string_eq;
use crate::text::{chars_of, find_first, lemma_find_first_at, owned, push_char, push_str, string_from, strs};

verus! {

pub open spec fn is_sep(c: char) -> bool {
    c == '/'
}

pub open spec fn is_absolute(p: Seq<char>) -> bool {
    p.len() > 0 && p[0] == '/'
}

/// `base.join(name)` on Unix: an absolute `name` replaces `base`; otherwise `name`
/// is appended, with a `/` between them unless `base` is empty or already ends with one.
pub open spec fn path_join(base: Seq<char>, name: Seq<char>) -> Seq<char> {
    if is_absolute(name) {
        name
    } else if base.len() > 0 && base.last() != '/' {
        base + seq!['/'] + name
    } else {
        base + name
    }
}

/// The normal segments of a path: the pieces between `/`, without empty pieces and
/// without `.` (which `Path::components` drops everywhere but at the start).
pub open spec fn parts(s: Seq<char>) -> Seq<Seq<char>>
    decreases s.len(),
{
    if s.len() == 0 {
        Seq::empty()
    } else {
        let k = find_first(s, |c: char| is_sep(c));
        let piece = s.take(k as int);
        let head = if piece.len() == 0 || piece == seq!['.'] {
            Seq::<Seq<char>>::empty()
        } else {
            seq![piece]
        };
        if k >= s.len() {
            head
        } else {
            head + parts(s.skip((k + 1) as int))
        }
    }
}

/// `Path::components` on Unix: a root (`/`) or a leading current directory (`.`),
/// followed by the normal segments (`..` among them).
pub open spec fn components(s: Seq<char>) -> Seq<Seq<char>> {
    let lead = if is_absolute(s) {
        seq![seq!['/']]
    } else if s.len() > 0 && s[0] == '.' && (s.len() == 1 || s[1] == '/') {
        seq![seq!['.']]
    } else {
        Seq::<Seq<char>>::empty()
    };
    lead + parts(s)
}

/// `Path::starts_with`: the components of `base` are a prefix of those of `p`.
pub open spec fn path_starts_with(p: Seq<char>, base: Seq<char>) -> bool {
    components(base).is_prefix_of(components(p))
}

/// `Path::file_name`: the last component when it is a normal one.
pub open spec fn file_name(s: Seq<char>) -> Option<Seq<char>> {
    let ps = parts(s);
    if ps.len() > 0 && ps.last() != seq!['.', '.'] {
        Some(ps.last())
    } else {
        None
    }
}

/// `base.join(name)` (Unix `PathBuf::join`).
pub fn join(base: &str, name: &str) -> (out: String)
    ensures
        out@ == path_join(base@, name@),
{
    let n = chars_of(name);
    if n.len() > 0 && n[0] == '/' {
        return owned(name);
    }
    let b = chars_of(base);
    let mut out = owned(base);
    if b.len() > 0 && b[b.len() - 1] != '/' {
        push_char(&mut out, '/');
    }
    push_str(&mut out, name);
    out
}

/// `path` followed by one `/`.
pub fn with_trailing_slash(path: &str) -> (out: String)
    ensures
        out@ == path@.push('/'),
{
    let mut out = owned(path);
    push_char(&mut out, '/');
    out
}

proof fn lemma_parts_step(rest: Seq<char>, k: int)
    requires
        0 <= k < rest.len(),
        rest[k] == '/',
        forall|j: int| 0 <= j < k ==> rest[j] != '/',
    ensures
        parts(rest) == (if rest.take(k).len() == 0 || rest.take(k) == seq!['.'] {
            Seq::<Seq<char>>::empty()
        } else {
            seq![rest.take(k)]
        }) + parts(rest.skip(k + 1)),
{
    let p = |c: char| is_sep(c);
    assert forall|j: int| 0 <= j < k implies !p(#[trigger] rest[j]) by {}
    lemma_find_first_at(rest, p, k);
}

proof fn lemma_parts_last(rest: Seq<char>)
    requires
        rest.len() > 0,
        forall|j: int| 0 <= j < rest.len() ==> rest[j] != '/',
    ensures
        parts(rest) == (if rest == seq!['.'] {
            Seq::<Seq<char>>::empty()
        } else {
            seq![rest]
        }),
{
    let p = |c: char| is_sep(c);
    assert forall|j: int| 0 <= j < rest.len() implies !p(#[trigger] rest[j]) by {}
    lemma_find_first_at(rest, p, rest.len() as int);
    assert(rest.take(rest.len() as int) =~= rest);
}

fn is_dot(cs: &Vec<char>, from: usize, to: usize) -> (b: bool)
    requires
        from <= to <= cs.len(),
    ensures
        b == (cs@.subrange(from as int, to as int) == seq!['.']),
{
    let b = to > from && to - from == 1 && cs[from] == '.';
    proof {
        if to == from + 1 && cs@[from as int] == '.' {
            assert(cs@.subrange(from as int, to as int) =~= seq!['.']);
        }
        if cs@.subrange(from as int, to as int) == seq!['.'] {
            assert(cs@.subrange(from as int, to as int).len() == 1);
            assert(cs@.subrange(from as int, to as int)[0] == cs@[from as int]);
        }
    }
    b
}

/// The normal segments of a path (see `parts`).
pub fn parts_of(s: &str) -> (out: Vec<String>)
    ensures
        strs(out@) == parts(s@),
{
    let cs = chars_of(s);
    let n = cs.len();
    let mut out: Vec<String> = Vec::new();
    let mut start: usize = 0;
    let mut i: usize = 0;
    assert(cs@.skip(0) =~= cs@);
    assert(strs(out@) =~= Seq::<Seq<char>>::empty());
    assert(parts(s@) =~= strs(out@) + parts(cs@.skip(0)));
    while i < n
        invariant
            start <= i <= n == cs.len(),
            cs@ == s@,
            forall|j: int| start <= j < i ==> cs@[j] != '/',
            parts(s@) == strs(out@) + parts(cs@.skip(start as int)),
        decreases n - i,
    {
        if cs[i] == '/' {
            let ghost rest = cs@.skip(start as int);
            proof {
                lemma_parts_step(rest, i - start);
                assert(rest.skip(i - start + 1) =~= cs@.skip(i + 1));
                assert(rest.take(i - start) =~= cs@.subrange(start as int, i as int));
            }
            let skip = i == start || is_dot(&cs, start, i);
            if !skip {
                let piece = string_from(&cs, start, i);
                let ghost before = strs(out@);
                out.push(piece);
                proof {
                    assert(strs(out@) =~= before.push(piece@));
                    assert(parts(s@) =~= strs(out@) + parts(cs@.skip(i + 1)));
                }
            } else {
                proof {
                    if i == start {
                        assert(rest.take(0).len() == 0);
                    }
                    assert(parts(s@) =~= strs(out@) + parts(cs@.skip(i + 1)));
                }
            }
            start = i + 1;
        }
        i = i + 1;
    }
    if start < n {
        let ghost rest = cs@.skip(start as int);
        proof {
            lemma_parts_last(rest);
            assert(rest =~= cs@.subrange(start as int, n as int));
        }
        if !is_dot(&cs, start, n) {
            let piece = string_from(&cs, start, n);
            let ghost before = strs(out@);
            out.push(piece);
            proof {
                assert(strs(out@) =~= before.push(piece@));
                assert(parts(s@) =~= strs(out@));
            }
        } else {
            assert(parts(s@) =~= strs(out@));
        }
    } else {
        assert(parts(cs@.skip(start as int)) == Seq::<Seq<char>>::empty());
        assert(parts(s@) =~= strs(out@));
    }
    out
}

/// The components of a path (see `components`).
pub fn components_of(s: &str) -> (out: Vec<String>)
    ensures
        strs(out@) == components(s@),
{
    let cs = chars_of(s);
    let mut out: Vec<String> = Vec::new();
    if cs.len() > 0 && cs[0] == '/' {
        let root = owned("/");
        proof {
            reveal_strlit("/");
            assert(root@ =~= seq!['/']);
        }
        out.push(root);
        assert(strs(out@) =~= seq![seq!['/']]);
    } else if cs.len() > 0 && cs[0] == '.' && (cs.len() == 1 || cs[1] == '/') {
        let cur = owned(".");
        proof {
            reveal_strlit(".");
            assert(cur@ =~= seq!['.']);
        }
        out.push(cur);
        assert(strs(out@) =~= seq![seq!['.']]);
    }
    let ghost lead = strs(out@);
    let rest = parts_of(s);
    let mut i: usize = 0;
    while i < rest.len()
        invariant
            i <= rest.len(),
            strs(out@) == lead + strs(rest@).take(i as int),
        decreases rest.len() - i,
    {
        let item = rest[i].clone();
        let ghost before = strs(out@);
        out.push(item);
        proof {
            assert(strs(out@) =~= before.push(rest@[i as int]@));
            assert(strs(rest@).take(i + 1) =~= strs(rest@).take(i as int).push(
                rest@[i as int]@,
            ));
            assert(strs(out@) =~= lead + strs(rest@).take(i + 1));
        }
        i = i + 1;
    }
    proof {
        assert(strs(rest@).take(rest.len() as int) =~= strs(rest@));
        assert(strs(out@) =~= components(s@));
    }
    out
}

/// `Path::starts_with` (component-wise prefix).
pub fn starts_with(p: &str, base: &str) -> (b: bool)
    ensures
        b == path_starts_with(p@, base@),
{
    let cp = components_of(p);
    let cb = components_of(base);
    if cb.len() > cp.len() {
        return false;
    }
    let mut i: usize = 0;
    while i < cb.len()
        invariant
            i <= cb.len() <= cp.len(),
            strs(cb@) == components(base@),
            strs(cp@) == components(p@),
            forall|j: int| 0 <= j < i ==> strs(cb@)[j] == strs(cp@)[j],
        decreases cb.len() - i,
    {
        if !string_eq(&cb[i], &cp[i]) {
            proof {
                let a = strs(cb@);
                let c = strs(cp@);
                assert(a[i as int] == cb@[i as int]@);
                assert(c[i as int] == cp@[i as int]@);
                assert(a[i as int] != c.subrange(0, a.len() as int)[i as int]);
                assert(!(a =~= c.subrange(0, a.len() as int)));
            }
            return false;
        }
        i = i + 1;
    }
    proof {
        assert(strs(cb@) =~= strs(cp@).subrange(0, cb.len() as int));
    }
    true
}

/// `Path::file_name` (the last normal component, if the path ends in one).
pub fn file_name_of(s: &str) -> (out: Option<String>)
    ensures
        out matches Some(n) ==> file_name(s@) == Some(n@),
        out is None ==> file_name(s@) is None,
{
    let ps = parts_of(s);
    if ps.len() == 0 {
        return None;
    }
    let last = ps[ps.len() - 1].clone();
    let dots = owned("..");
    proof {
        reveal_strlit("..");
        assert(dots@ =~= seq!['.', '.']);
        assert(strs(ps@).last() == last@);
    }
    if string_eq(&last, &dots) {
        None
    } else {
        Some(last)
    }
}

} // verus!

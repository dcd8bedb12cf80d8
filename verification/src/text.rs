use vstd::prelude::*;
use vstd::string::*;

verus! {

// ---------------------------------------------------------------------------
// Building strings
// ---------------------------------------------------------------------------

/// Appends one character to a string (std's `String::push`).
#[verifier::external_body]
pub(crate) fn push_char(s: &mut String, c: char)
    ensures
        final(s)@ == old(s)@.push(c),
{
    s.push(c);
}

/// Appends a string slice.
pub fn push_str(s: &mut String, t: &str)
    ensures
        final(s)@ == old(s)@ + t@,
{
    s.append(t);
}

/// A fresh `String` holding the characters of `t`.
pub fn owned(t: &str) -> (out: String)
    ensures
        out@ == t@,
{
    String::from_str(t)
}

/// The characters of `s`, in order.
pub fn chars_of(s: &str) -> (out: Vec<char>)
    ensures
        out@ == s@,
{
    let mut out: Vec<char> = Vec::new();
    for c in it: s.chars()
        invariant
            out@ == it.seq().take(it.index() as int),
            it.seq() == s@,
    {
        out.push(c);
    }
    out
}

/// Appends the characters `cs[from..to]`.
pub fn push_chars(s: &mut String, cs: &Vec<char>, from: usize, to: usize)
    requires
        from <= to <= cs.len(),
    ensures
        final(s)@ == old(s)@ + cs@.subrange(from as int, to as int),
{
    let mut i = from;
    while i < to
        invariant
            from <= i <= to <= cs.len(),
            s@ == old(s)@ + cs@.subrange(from as int, i as int),
        decreases to - i,
    {
        push_char(s, cs[i]);
        assert(cs@.subrange(from as int, i as int).push(cs@[i as int]) =~= cs@.subrange(
            from as int,
            i + 1,
        ));
        i = i + 1;
    }
}

/// A string made of `cs[from..to]`.
pub fn string_from(cs: &Vec<char>, from: usize, to: usize) -> (out: String)
    requires
        from <= to <= cs.len(),
    ensures
        out@ == cs@.subrange(from as int, to as int),
{
    let mut out = String::new();
    push_chars(&mut out, cs, from, to);
    out
}

/// A string made of the given characters.
pub fn string_of(cs: &Vec<char>) -> (out: String)
    ensures
        out@ == cs@,
{
    let out = string_from(cs, 0, cs.len());
    assert(cs@.subrange(0, cs@.len() as int) =~= cs@);
    out
}

/// `c` repeated `n` times.
pub open spec fn repeat(c: char, n: nat) -> Seq<char> {
    Seq::new(n, |_i: int| c)
}

/// Appends `c` repeated `n` times.
pub fn push_repeat(s: &mut String, c: char, n: usize)
    ensures
        final(s)@ == old(s)@ + repeat(c, n as nat),
{
    let mut i: usize = 0;
    while i < n
        invariant
            i <= n,
            s@ == old(s)@ + repeat(c, i as nat),
        decreases n - i,
    {
        push_char(s, c);
        assert(repeat(c, i as nat).push(c) =~= repeat(c, (i + 1) as nat));
        i = i + 1;
    }
}

// ---------------------------------------------------------------------------
// Decimal numbers
// ---------------------------------------------------------------------------

/// The ASCII digit for `d < 10`.
pub open spec fn digit(d: nat) -> char {
    if d == 0 {
        '0'
    } else if d == 1 {
        '1'
    } else if d == 2 {
        '2'
    } else if d == 3 {
        '3'
    } else if d == 4 {
        '4'
    } else if d == 5 {
        '5'
    } else if d == 6 {
        '6'
    } else if d == 7 {
        '7'
    } else if d == 8 {
        '8'
    } else {
        '9'
    }
}

/// The decimal notation of `n`, without leading zeros.
pub open spec fn decimal(n: nat) -> Seq<char>
    decreases n,
{
    if n < 10 {
        seq![digit(n)]
    } else {
        decimal(n / 10).push(digit(n % 10))
    }
}

/// The decimal notation of a signed integer.
pub open spec fn signed_decimal(i: int) -> Seq<char> {
    if i < 0 {
        seq!['-'] + decimal((-i) as nat)
    } else {
        decimal(i as nat)
    }
}

fn digit_char(d: u64) -> (c: char)
    requires
        d < 10,
    ensures
        c == digit(d as nat),
{
    if d == 0 {
        '0'
    } else if d == 1 {
        '1'
    } else if d == 2 {
        '2'
    } else if d == 3 {
        '3'
    } else if d == 4 {
        '4'
    } else if d == 5 {
        '5'
    } else if d == 6 {
        '6'
    } else if d == 7 {
        '7'
    } else if d == 8 {
        '8'
    } else {
        '9'
    }
}

/// Appends the decimal notation of `n`.
pub fn push_decimal(s: &mut String, n: u64)
    ensures
        final(s)@ == old(s)@ + decimal(n as nat),
    decreases n,
{
    if n >= 10 {
        push_decimal(s, n / 10);
    }
    push_char(s, digit_char(n % 10));
    proof {
        if n >= 10 {
            assert(old(s)@ + decimal((n / 10) as nat) + seq![digit((n % 10) as nat)] =~= old(s)@
                + decimal(n as nat));
        } else {
            assert(old(s)@.push(digit((n % 10) as nat)) =~= old(s)@ + decimal(n as nat));
        }
    }
}

/// Appends the decimal notation of a signed integer.
pub fn push_signed_decimal(s: &mut String, i: i32)
    ensures
        final(s)@ == old(s)@ + signed_decimal(i as int),
{
    if i < 0 {
        push_char(s, '-');
        let magnitude: u64 = (0i64 - (i as i64)) as u64;
        push_decimal(s, magnitude);
        assert(old(s)@.push('-') + decimal(magnitude as nat) =~= old(s)@ + signed_decimal(
            i as int,
        ));
    } else {
        push_decimal(s, i as u64);
    }
}

// ---------------------------------------------------------------------------
// Whitespace
// ---------------------------------------------------------------------------

/// Unicode `White_Space`, which is what `char::is_whitespace` tests.
pub open spec fn is_ws(c: char) -> bool {
    let u = c as u32;
    (0x9 <= u && u <= 0xD) || u == 0x20 || u == 0x85 || u == 0xA0 || u == 0x1680 || (0x2000
        <= u && u <= 0x200A) || u == 0x2028 || u == 0x2029 || u == 0x202F || u == 0x205F || u
        == 0x3000
}

pub fn is_whitespace(c: char) -> (b: bool)
    ensures
        b == is_ws(c),
{
    let u = c as u32;
    (0x9 <= u && u <= 0xD) || u == 0x20 || u == 0x85 || u == 0xA0 || u == 0x1680 || (0x2000
        <= u && u <= 0x200A) || u == 0x2028 || u == 0x2029 || u == 0x202F || u == 0x205F || u
        == 0x3000
}

/// `s` without its leading whitespace.
pub open spec fn trim_start(s: Seq<char>) -> Seq<char>
    decreases s.len(),
{
    if s.len() > 0 && is_ws(s[0]) {
        trim_start(s.drop_first())
    } else {
        s
    }
}

/// `s` without its trailing whitespace.
pub open spec fn trim_end(s: Seq<char>) -> Seq<char>
    decreases s.len(),
{
    if s.len() > 0 && is_ws(s.last()) {
        trim_end(s.drop_last())
    } else {
        s
    }
}

/// `s` without leading and trailing whitespace (`str::trim`).
pub open spec fn trim(s: Seq<char>) -> Seq<char> {
    trim_end(trim_start(s))
}

/// Every character of `s` is whitespace.
pub open spec fn all_ws(s: Seq<char>) -> bool {
    forall|i: int| 0 <= i < s.len() ==> is_ws(#[trigger] s[i])
}

proof fn lemma_trim_start_skip(s: Seq<char>, i: int)
    requires
        0 <= i <= s.len(),
        forall|j: int| 0 <= j < i ==> is_ws(#[trigger] s[j]),
    ensures
        trim_start(s) == trim_start(s.skip(i)),
    decreases i,
{
    if i > 0 {
        lemma_trim_start_skip(s.drop_first(), i - 1);
        assert(s.drop_first().skip(i - 1) =~= s.skip(i));
    } else {
        assert(s.skip(0) =~= s);
    }
}

proof fn lemma_trim_end_take(s: Seq<char>, k: int)
    requires
        0 <= k <= s.len(),
        forall|j: int| k <= j < s.len() ==> is_ws(#[trigger] s[j]),
    ensures
        trim_end(s) == trim_end(s.take(k)),
    decreases s.len() - k,
{
    if k < s.len() {
        assert(s.drop_last().take(k) =~= s.take(k));
        lemma_trim_end_take(s.drop_last(), k);
    } else {
        assert(s.take(k) =~= s);
    }
}

/// The whole of `s` is whitespace exactly when its trimmed form is empty.
pub proof fn lemma_trim_empty_iff_all_ws(s: Seq<char>)
    ensures
        (trim(s).len() == 0) == all_ws(s),
    decreases s.len(),
{
    if s.len() > 0 && is_ws(s[0]) {
        lemma_trim_empty_iff_all_ws(s.drop_first());
        if all_ws(s.drop_first()) {
            assert forall|i: int| 0 <= i < s.len() implies is_ws(#[trigger] s[i]) by {
                if i > 0 {
                    assert(s[i] == s.drop_first()[i - 1]);
                }
            }
        }
        if all_ws(s) {
            assert forall|i: int| 0 <= i < s.drop_first().len() implies is_ws(
                #[trigger] s.drop_first()[i],
            ) by {
                assert(s.drop_first()[i] == s[i + 1]);
            }
        }
    } else if s.len() > 0 {
        // s[0] is not whitespace, so trim_start(s) == s and trim_end keeps s[0]
        lemma_trim_end_keeps_first(s);
    }
}

proof fn lemma_trim_end_keeps_first(s: Seq<char>)
    requires
        s.len() > 0,
        !is_ws(s[0]),
    ensures
        trim_end(s).len() > 0,
    decreases s.len(),
{
    if is_ws(s.last()) {
        if s.len() > 1 {
            lemma_trim_end_keeps_first(s.drop_last());
        }
    }
}

/// A trimmed copy of `cs` (`str::trim`).
pub fn trim_chars(cs: &Vec<char>) -> (out: String)
    ensures
        out@ == trim(cs@),
{
    let n = cs.len();
    let mut start: usize = 0;
    while start < n && is_whitespace(cs[start])
        invariant
            start <= n == cs.len(),
            forall|j: int| 0 <= j < start ==> is_ws(#[trigger] cs@[j]),
        decreases n - start,
    {
        start = start + 1;
    }
    proof {
        lemma_trim_start_skip(cs@, start as int);
        assert(trim_start(cs@.skip(start as int)) == cs@.skip(start as int));
    }
    let mut end: usize = n;
    while end > start && is_whitespace(cs[end - 1])
        invariant
            start <= end <= n == cs.len(),
            forall|j: int| end <= j < n ==> is_ws(#[trigger] cs@[j]),
        decreases end,
    {
        end = end - 1;
    }
    proof {
        let t = cs@.skip(start as int);
        lemma_trim_end_take(t, end - start);
        assert(t.take(end - start) =~= cs@.subrange(start as int, end as int));
    }
    string_from(cs, start, end)
}

/// `str::trim`.
pub fn trim_str(s: &str) -> (out: String)
    ensures
        out@ == trim(s@),
{
    let cs = chars_of(s);
    trim_chars(&cs)
}

/// Whether every character is whitespace (equivalently, `s.trim().is_empty()`).
pub fn is_blank(s: &str) -> (b: bool)
    ensures
        b == all_ws(s@),
        b == (trim(s@).len() == 0),
{
    proof {
        lemma_trim_empty_iff_all_ws(s@);
    }
    let cs = chars_of(s);
    let mut i: usize = 0;
    while i < cs.len()
        invariant
            i <= cs.len(),
            cs@ == s@,
            forall|j: int| 0 <= j < i ==> is_ws(#[trigger] cs@[j]),
        decreases cs.len() - i,
    {
        if !is_whitespace(cs[i]) {
            assert(!is_ws(s@[i as int]));
            proof {
                lemma_trim_empty_iff_all_ws(s@);
            }
            return false;
        }
        i = i + 1;
    }
    true
}


// ---------------------------------------------------------------------------
// Searching and splitting
// ---------------------------------------------------------------------------

/// The views of a sequence of strings.
pub open spec fn strs(v: Seq<String>) -> Seq<Seq<char>> {
    v.map_values(|x: String| x@)
}

/// Index of the first character of `s` satisfying `p`, or `s.len()` when none does.
pub open spec fn find_first(s: Seq<char>, p: spec_fn(char) -> bool) -> nat
    decreases s.len(),
{
    if s.len() == 0 {
        0
    } else if p(s[0]) {
        0
    } else {
        1 + find_first(s.drop_first(), p)
    }
}

pub proof fn lemma_find_first(s: Seq<char>, p: spec_fn(char) -> bool)
    ensures
        find_first(s, p) <= s.len(),
        find_first(s, p) < s.len() ==> p(s[find_first(s, p) as int]),
        forall|j: int| 0 <= j < find_first(s, p) ==> !p(#[trigger] s[j]),
    decreases s.len(),
{
    if s.len() > 0 && !p(s[0]) {
        lemma_find_first(s.drop_first(), p);
        assert forall|j: int| 0 <= j < find_first(s, p) implies !p(#[trigger] s[j]) by {
            if j > 0 {
                assert(s[j] == s.drop_first()[j - 1]);
            }
        }
    }
}

/// `find_first` is pinned down by the position of the first match.
pub proof fn lemma_find_first_at(s: Seq<char>, p: spec_fn(char) -> bool, k: int)
    requires
        0 <= k <= s.len(),
        k < s.len() ==> p(s[k]),
        forall|j: int| 0 <= j < k ==> !p(#[trigger] s[j]),
    ensures
        find_first(s, p) == k,
{
    lemma_find_first(s, p);
    let f = find_first(s, p) as int;
    if f < k {
        assert(!p(s[f]));
    }
    if k < f {
        assert(!p(s[k]));
    }
}

pub open spec fn is_newline(c: char) -> bool {
    c == '\n'
}

/// A line without its `\r`, if it ends with one.
pub open spec fn strip_cr(l: Seq<char>) -> Seq<char> {
    if l.len() > 0 && l.last() == '\r' {
        l.drop_last()
    } else {
        l
    }
}

/// The lines of `s`, as `str::lines` yields them: split after each `\n`, with the
/// `\n` (and a `\r` before it) removed; a final line without `\n` is kept as it is,
/// and no empty line follows a final `\n`.
pub open spec fn lines(s: Seq<char>) -> Seq<Seq<char>>
    decreases s.len(),
{
    if s.len() == 0 {
        Seq::empty()
    } else {
        let k = find_first(s, |c: char| is_newline(c));
        if k >= s.len() {
            seq![s]
        } else {
            seq![strip_cr(s.take(k as int))] + lines(s.skip((k + 1) as int))
        }
    }
}

/// `str::lines`.
pub fn lines_of(s: &str) -> (out: Vec<String>)
    ensures
        strs(out@) == lines(s@),
{
    let cs = chars_of(s);
    let n = cs.len();
    let mut out: Vec<String> = Vec::new();
    let mut start: usize = 0;
    let mut i: usize = 0;
    let ghost p = |c: char| is_newline(c);
    assert(cs@.skip(0) =~= cs@);
    assert(strs(out@) =~= Seq::<Seq<char>>::empty());
    assert(lines(s@) =~= strs(out@) + lines(cs@.skip(0)));
    while i < n
        invariant
            start <= i <= n == cs.len(),
            cs@ == s@,
            p == (|c: char| is_newline(c)),
            forall|j: int| start <= j < i ==> !is_newline(#[trigger] cs@[j]),
            lines(s@) == strs(out@) + lines(cs@.skip(start as int)),
        decreases n - i,
    {
        if cs[i] == '\n' {
            let ghost rest = cs@.skip(start as int);
            proof {
                assert forall|j: int| 0 <= j < i - start implies !p(#[trigger] rest[j]) by {
                    assert(rest[j] == cs@[start + j]);
                }
                lemma_find_first_at(rest, p, i - start);
                assert(rest.skip(i - start + 1) =~= cs@.skip(i + 1));
                assert(rest.take(i - start) =~= cs@.subrange(start as int, i as int));
            }
            let end = if i > start && cs[i - 1] == '\r' {
                i - 1
            } else {
                i
            };
            let line = string_from(&cs, start, end);
            proof {
                let t = cs@.subrange(start as int, i as int);
                assert(line@ == strip_cr(t)) by {
                    if i > start && cs@[i - 1] == '\r' {
                        assert(t.drop_last() =~= cs@.subrange(start as int, end as int));
                    }
                }
            }
            let ghost old_out = out@;
            out.push(line);
            proof {
                assert(strs(out@) =~= strs(old_out).push(line@));
                assert(lines(rest) == seq![line@] + lines(cs@.skip(i + 1)));
                assert(lines(s@) =~= strs(out@) + lines(cs@.skip(i + 1)));
            }
            start = i + 1;
        }
        i = i + 1;
    }
    if start < n {
        let ghost rest = cs@.skip(start as int);
        proof {
            assert forall|j: int| 0 <= j < rest.len() implies !p(#[trigger] rest[j]) by {
                assert(rest[j] == cs@[start + j]);
            }
            lemma_find_first_at(rest, p, rest.len() as int);
            assert(rest =~= cs@.subrange(start as int, n as int));
        }
        let line = string_from(&cs, start, n);
        let ghost old_out = out@;
        out.push(line);
        proof {
            assert(strs(out@) =~= strs(old_out).push(line@));
            assert(lines(rest) == seq![line@]);
            assert(lines(s@) =~= strs(out@));
        }
    } else {
        assert(lines(cs@.skip(start as int)) == Seq::<Seq<char>>::empty());
        assert(lines(s@) =~= strs(out@));
    }
    out
}


/// `str::split_whitespace`: the maximal runs of non-whitespace characters.
pub open spec fn fields(s: Seq<char>) -> Seq<Seq<char>>
    decreases s.len(),
{
    if s.len() == 0 {
        Seq::empty()
    } else if is_ws(s[0]) {
        fields(s.drop_first())
    } else {
        let k = find_first(s, |c: char| is_ws(c));
        proof {
            lemma_find_first(s, |c: char| is_ws(c));
        }
        seq![s.take(k as int)] + fields(s.skip(k as int))
    }
}

/// `str::split_whitespace` of `cs[from..to]`.
pub fn fields_in(cs: &Vec<char>, from: usize, to: usize) -> (out: Vec<String>)
    requires
        from <= to <= cs.len(),
    ensures
        strs(out@) == fields(cs@.subrange(from as int, to as int)),
{
    let ghost whole = cs@.subrange(from as int, to as int);
    let ghost p = |c: char| is_ws(c);
    let mut out: Vec<String> = Vec::new();
    let mut i = from;
    assert(strs(out@) =~= Seq::<Seq<char>>::empty());
    assert(whole =~= cs@.subrange(i as int, to as int));
    while i < to
        invariant
            from <= i <= to <= cs.len(),
            whole == cs@.subrange(from as int, to as int),
            p == (|c: char| is_ws(c)),
            fields(whole) == strs(out@) + fields(cs@.subrange(i as int, to as int)),
        decreases to - i,
    {
        let ghost rest = cs@.subrange(i as int, to as int);
        if is_whitespace(cs[i]) {
            assert(rest.drop_first() =~= cs@.subrange(i + 1, to as int));
            i = i + 1;
        } else {
            let mut j = i;
            while j < to && !is_whitespace(cs[j])
                invariant
                    i <= j <= to <= cs.len(),
                    forall|t: int| i <= t < j ==> !is_ws(#[trigger] cs@[t]),
                decreases to - j,
            {
                j = j + 1;
            }
            proof {
                assert forall|t: int| 0 <= t < j - i implies !p(#[trigger] rest[t]) by {
                    assert(rest[t] == cs@[i + t]);
                }
                lemma_find_first_at(rest, p, j - i);
                assert(rest.take(j - i) =~= cs@.subrange(i as int, j as int));
                assert(rest.skip(j - i) =~= cs@.subrange(j as int, to as int));
            }
            let piece = string_from(cs, i, j);
            let ghost before = strs(out@);
            out.push(piece);
            proof {
                assert(strs(out@) =~= before.push(piece@));
                assert(fields(whole) =~= strs(out@) + fields(cs@.subrange(j as int, to as int)));
            }
            i = j;
        }
    }
    assert(fields(cs@.subrange(i as int, to as int)) =~= Seq::<Seq<char>>::empty());
    assert(fields(whole) =~= strs(out@));
    out
}

/// The position of the first ` - ` in `s` at or after `i`.
pub open spec fn find_separator_from(s: Seq<char>, i: int) -> Option<int>
    decreases s.len() - i,
{
    if i < 0 || i + 3 > s.len() {
        None
    } else if s[i] == ' ' && s[i + 1] == '-' && s[i + 2] == ' ' {
        Some(i)
    } else {
        find_separator_from(s, i + 1)
    }
}

/// Where `s.split_once(" - ")` splits.
pub fn find_separator(cs: &Vec<char>) -> (r: Option<usize>)
    ensures
        r matches Some(k) ==> find_separator_from(cs@, 0) == Some(k as int) && k + 3 <= cs.len(),
        r is None ==> find_separator_from(cs@, 0) is None,
{
    let mut i: usize = 0;
    while cs.len() >= 3 && i <= cs.len() - 3
        invariant
            i <= cs.len(),
            find_separator_from(cs@, 0) == find_separator_from(cs@, i as int),
        decreases cs.len() - i,
    {
        if cs[i] == ' ' && cs[i + 1] == '-' && cs[i + 2] == ' ' {
            return Some(i);
        }
        i = i + 1;
    }
    None
}

} // verus!

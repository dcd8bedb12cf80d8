use vstd::prelude::*;

use crate::text::{chars_of, strs};

verus! {

broadcast use vstd::seq_lib::group_seq_properties;

/// Strict lexicographic order on character sequences, comparing code points; this
/// is the order of `String`'s `Ord` (UTF-8 keeps code point order byte by byte).
pub open spec fn lex_lt(a: Seq<char>, b: Seq<char>) -> bool
    decreases a.len(),
{
    if b.len() == 0 {
        false
    } else if a.len() == 0 {
        true
    } else if a[0] == b[0] {
        lex_lt(a.drop_first(), b.drop_first())
    } else {
        (a[0] as u32) < (b[0] as u32)
    }
}

proof fn lemma_code_injective(x: char, y: char)
    ensures
        (x as u32 == y as u32) == (x == y),
{
    vstd::utf8::char_u32_cast(x, x as u32);
    vstd::utf8::char_u32_cast(y, y as u32);
}

pub open spec fn lex_le(a: Seq<char>, b: Seq<char>) -> bool {
    lex_lt(a, b) || a == b
}

/// Non-decreasing under `lex_le`.
pub open spec fn sorted(s: Seq<Seq<char>>) -> bool {
    forall|i: int, j: int| 0 <= i < j < s.len() ==> lex_le(#[trigger] s[i], #[trigger] s[j])
}

/// Strictly increasing under `lex_lt`: sorted, with nothing twice.
pub open spec fn strictly_sorted(s: Seq<Seq<char>>) -> bool {
    forall|i: int, j: int| 0 <= i < j < s.len() ==> lex_lt(#[trigger] s[i], #[trigger] s[j])
}

pub proof fn lemma_lex_irreflexive(a: Seq<char>)
    ensures
        !lex_lt(a, a),
    decreases a.len(),
{
    if a.len() > 0 {
        lemma_lex_irreflexive(a.drop_first());
    }
}

pub proof fn lemma_lex_total(a: Seq<char>, b: Seq<char>)
    ensures
        lex_lt(a, b) || lex_lt(b, a) || a == b,
    decreases a.len(),
{
    if a.len() > 0 && b.len() > 0 && a[0] == b[0] {
        lemma_lex_total(a.drop_first(), b.drop_first());
        if a.drop_first() == b.drop_first() {
            assert(a =~= seq![a[0]] + a.drop_first());
            assert(b =~= seq![b[0]] + b.drop_first());
        }
    } else if a.len() > 0 && b.len() > 0 {
        lemma_code_injective(a[0], b[0]);
    } else if a.len() == 0 && b.len() == 0 {
        assert(a =~= b);
    }
}

pub proof fn lemma_lex_asymmetric(a: Seq<char>, b: Seq<char>)
    ensures
        !(lex_lt(a, b) && lex_lt(b, a)),
    decreases a.len(),
{
    if a.len() > 0 && b.len() > 0 && a[0] == b[0] {
        lemma_lex_asymmetric(a.drop_first(), b.drop_first());
    }
}

pub proof fn lemma_lex_transitive(a: Seq<char>, b: Seq<char>, c: Seq<char>)
    requires
        lex_lt(a, b),
        lex_lt(b, c),
    ensures
        lex_lt(a, c),
    decreases a.len(),
{
    if a.len() > 0 && b.len() > 0 && c.len() > 0 {
        if a[0] == b[0] && b[0] == c[0] {
            lemma_lex_transitive(a.drop_first(), b.drop_first(), c.drop_first());
        }
        lemma_code_injective(a[0], c[0]);
    }
}

pub proof fn lemma_lex_le_transitive(a: Seq<char>, b: Seq<char>, c: Seq<char>)
    requires
        lex_le(a, b),
        lex_le(b, c),
    ensures
        lex_le(a, c),
{
    if lex_lt(a, b) && lex_lt(b, c) {
        lemma_lex_transitive(a, b, c);
    }
}

/// `lex_lt(a@, b@)`, computed.
pub fn string_lt(a: &String, b: &String) -> (r: bool)
    ensures
        r == lex_lt(a@, b@),
{
    let x = chars_of(a.as_str());
    let y = chars_of(b.as_str());
    let mut i: usize = 0;
    while i < x.len() && i < y.len() && x[i] == y[i]
        invariant
            i <= x.len(),
            i <= y.len(),
            x@ == a@,
            y@ == b@,
            lex_lt(a@, b@) == lex_lt(x@.skip(i as int), y@.skip(i as int)),
        decreases x.len() - i,
    {
        proof {
            assert(x@.skip(i as int).drop_first() =~= x@.skip(i + 1));
            assert(y@.skip(i as int).drop_first() =~= y@.skip(i + 1));
        }
        i = i + 1;
    }
    if i == y.len() {
        false
    } else if i == x.len() {
        true
    } else {
        (x[i] as u32) < (y[i] as u32)
    }
}

/// Whether two strings hold the same characters.
pub fn string_eq(a: &String, b: &String) -> (r: bool)
    ensures
        r == (a@ == b@),
{
    a.eq(b)
}

/// A sorted copy of `v` (the order of `String`'s `Ord`).
pub fn sort_strings(v: Vec<String>) -> (out: Vec<String>)
    ensures
        sorted(strs(out@)),
        strs(out@).to_multiset() == strs(v@).to_multiset(),
{
    let mut out: Vec<String> = Vec::new();
    let mut v = v;
    let ghost input = strs(v@);
    let mut k: usize = 0;
    let n = v.len();
    let mut rest: Vec<String> = Vec::new();
    // move the items out in order
    while v.len() > 0
        invariant
            strs(v@) + strs(rest@).reverse() == input,
        decreases v.len(),
    {
        let x = v.pop().unwrap();
        let ghost before = strs(rest@);
        rest.push(x);
        proof {
            assert(strs(rest@) =~= before.push(x@));
            assert(strs(rest@).reverse() =~= seq![x@] + before.reverse());
            assert(strs(v@).push(x@) + before.reverse() =~= strs(v@) + (seq![x@]
                + before.reverse()));
        }
    }
    proof {
        assert(strs(rest@).reverse() =~= input);
        strs(rest@).lemma_reverse_to_multiset();
    }
    while rest.len() > 0
        invariant
            sorted(strs(out@)),
            strs(out@).to_multiset().add(strs(rest@).to_multiset()) == input.to_multiset(),
        decreases rest.len(),
    {
        let ghost before_rest = strs(rest@);
        let x = rest.pop().unwrap();
        proof {
            assert(before_rest =~= strs(rest@).push(x@));
        }
        let mut pos: usize = out.len();
        while pos > 0 && string_lt(&x, &out[pos - 1])
            invariant
                pos <= out.len(),
                sorted(strs(out@)),
                forall|j: int| pos <= j < out.len() ==> lex_lt(x@, #[trigger] strs(out@)[j]),
            decreases pos,
        {
            pos = pos - 1;
        }
        let ghost before = strs(out@);
        out.insert(pos, x);
        proof {
            let after = strs(out@);
            assert(after =~= before.insert(pos as int, x@));
            before.insert_ensures(pos as int, x@);
            assert forall|i: int, j: int| 0 <= i < j < after.len() implies lex_le(
                #[trigger] after[i],
                #[trigger] after[j],
            ) by {
                if j == pos {
                    if i < pos {
                        // pos > 0 here and the loop stopped with !(x < out[pos-1])
                        lemma_lex_total(x@, before[pos - 1]);
                        assert(lex_le(before[pos - 1], x@));
                        if i < pos - 1 {
                            lemma_lex_le_transitive(before[i], before[pos - 1], x@);
                        }
                    }
                } else if i == pos {
                    assert(lex_lt(x@, before[j - 1]));
                } else {
                    let bi = if i < pos {
                        i
                    } else {
                        i - 1
                    };
                    let bj = if j < pos {
                        j
                    } else {
                        j - 1
                    };
                    assert(after[i] == before[bi]);
                    assert(after[j] == before[bj]);
                }
            }
            assert(after.remove(pos as int) =~= before);
            assert(after[pos as int] == x@);
            assert(after.contains(x@));
            assert(before.to_multiset() =~= after.to_multiset().remove(x@));
            assert(after.to_multiset() =~= before.to_multiset().insert(x@));
            assert(before_rest.to_multiset() =~= strs(rest@).to_multiset().insert(x@));
        }
    }
    out
}


/// The distinct strings of `v` in increasing order, as a `BTreeSet` yields them.
pub fn sort_unique(v: Vec<String>) -> (out: Vec<String>)
    ensures
        strictly_sorted(strs(out@)),
        strs(out@).to_set() == strs(v@).to_set(),
{
    let ghost input = strs(v@);
    let s = sort_strings(v);
    proof {
        assert forall|x: Seq<char>| strs(s@).contains(x) <==> input.contains(x) by {
            strs(s@).to_multiset_ensures();
            input.to_multiset_ensures();
            assert(strs(s@).to_multiset().count(x) == input.to_multiset().count(x));
        }
    }
    let mut out: Vec<String> = Vec::new();
    let mut i: usize = 0;
    while i < s.len()
        invariant
            i <= s.len(),
            sorted(strs(s@)),
            strictly_sorted(strs(out@)),
            out.len() > 0 ==> i > 0 && strs(out@).last() == strs(s@)[i - 1],
            i > 0 ==> out.len() > 0,
            forall|x: Seq<char>|
                strs(out@).contains(x) <==> strs(s@).take(i as int).contains(x),
        decreases s.len() - i,
    {
        let ghost before = strs(out@);
        let fresh = out.len() == 0 || !string_eq(&out[out.len() - 1], &s[i]);
        if fresh {
            let item = s[i].clone();
            out.push(item);
            proof {
                assert(strs(out@) =~= before.push(s@[i as int]@));
                if before.len() > 0 {
                    let last = before.last();
                    assert(lex_le(strs(s@)[i - 1], strs(s@)[i as int]));
                    assert(lex_lt(last, strs(s@)[i as int]));
                    assert forall|a: int, b: int| 0 <= a < b < strs(out@).len() implies lex_lt(
                        #[trigger] strs(out@)[a],
                        #[trigger] strs(out@)[b],
                    ) by {
                        if b == before.len() && a < before.len() - 1 {
                            lemma_lex_transitive(before[a], last, strs(s@)[i as int]);
                        }
                    }
                }
            }
        }
        proof {
            assert(strs(s@).take(i + 1) =~= strs(s@).take(i as int).push(strs(s@)[i as int]));
            assert forall|x: Seq<char>|
                strs(out@).contains(x) <==> strs(s@).take(i + 1).contains(x) by {
                if strs(s@).take(i + 1).contains(x) && x == strs(s@)[i as int] {
                    assert(strs(out@).last() == x);
                    assert(strs(out@)[strs(out@).len() - 1] == x);
                }
                if strs(out@).contains(x) && !before.contains(x) {
                    let j = choose|j: int| 0 <= j < strs(out@).len() && strs(out@)[j] == x;
                    assert(j == before.len());
                    assert(strs(s@).take(i + 1)[i as int] == x);
                }
                if strs(s@).take(i as int).contains(x) {
                    assert(before.contains(x));
                    let j = choose|j: int| 0 <= j < before.len() && before[j] == x;
                    assert(strs(out@)[j] == x);
                }
            }
        }
        i = i + 1;
    }
    proof {
        assert(strs(s@).take(s.len() as int) =~= strs(s@));
        assert(strs(out@).to_set() =~= strs(v@).to_set());
    }
    out
}


/// Two strictly sorted sequences with the same elements are the same sequence.
pub proof fn lemma_strictly_sorted_unique(a: Seq<Seq<char>>, b: Seq<Seq<char>>)
    requires
        strictly_sorted(a),
        strictly_sorted(b),
        a.to_set() == b.to_set(),
    ensures
        a == b,
    decreases a.len(),
{
    if a.len() == 0 {
        if b.len() > 0 {
            assert(b.to_set().contains(b[0]));
        }
        assert(a =~= b);
    } else {
        assert(a.to_set().contains(a[0]));
        assert(b.len() > 0);
        assert(b.to_set().contains(b[0]));
        let j = choose|j: int| 0 <= j < b.len() && b[j] == a[0];
        let i = choose|i: int| 0 <= i < a.len() && a[i] == b[0];
        if j > 0 {
            assert(lex_lt(b[0], b[j]));
            if i > 0 {
                assert(lex_lt(a[0], a[i]));
                lemma_lex_transitive(b[0], a[0], b[0]);
            }
            lemma_lex_irreflexive(b[0]);
        }
        assert(a[0] == b[0]);
        let a1 = a.drop_first();
        let b1 = b.drop_first();
        assert forall|x: Seq<char>| a1.to_set().contains(x) <==> b1.to_set().contains(x) by {
            if a1.to_set().contains(x) {
                let k = choose|k: int| 0 <= k < a1.len() && a1[k] == x;
                assert(a[k + 1] == x);
                assert(lex_lt(a[0], x));
                lemma_lex_irreflexive(x);
                assert(b.to_set().contains(x));
                let m = choose|m: int| 0 <= m < b.len() && b[m] == x;
                assert(m != 0);
                assert(b1[m - 1] == x);
            }
            if b1.to_set().contains(x) {
                let k = choose|k: int| 0 <= k < b1.len() && b1[k] == x;
                assert(b[k + 1] == x);
                assert(lex_lt(b[0], x));
                lemma_lex_irreflexive(x);
                assert(a.to_set().contains(x));
                let m = choose|m: int| 0 <= m < a.len() && a[m] == x;
                assert(m != 0);
                assert(a1[m - 1] == x);
            }
        }
        assert(a1.to_set() =~= b1.to_set());
        lemma_strictly_sorted_unique(a1, b1);
        assert(a =~= b);
    }
}

/// The elements of a finite set of strings in increasing order.
pub open spec fn in_order(s: Set<Seq<char>>) -> Seq<Seq<char>> {
    choose|q: Seq<Seq<char>>| strictly_sorted(q) && q.to_set() == s
}

/// `r` with `x` put in its place by `lex_lt`.
pub open spec fn insert_strict(r: Seq<Seq<char>>, x: Seq<char>) -> Seq<Seq<char>>
    decreases r.len(),
{
    if r.len() == 0 {
        seq![x]
    } else if lex_lt(x, r[0]) {
        seq![x] + r
    } else {
        seq![r[0]] + insert_strict(r.drop_first(), x)
    }
}

proof fn lemma_insert_strict(r: Seq<Seq<char>>, x: Seq<char>)
    requires
        strictly_sorted(r),
        !r.contains(x),
    ensures
        strictly_sorted(insert_strict(r, x)),
        insert_strict(r, x).to_set() == r.to_set().insert(x),
    decreases r.len(),
{
    if r.len() == 0 {
        assert(seq![x].to_set() =~= r.to_set().insert(x)) by {
            assert forall|y: Seq<char>| seq![x].to_set().contains(y) implies y == x by {
                let k = choose|k: int| 0 <= k < 1 && seq![x][k] == y;
            }
            assert(seq![x][0] == x);
        }
    } else if lex_lt(x, r[0]) {
        let s = seq![x] + r;
        assert forall|i: int, j: int| 0 <= i < j < s.len() implies lex_lt(#[trigger] s[i], #[trigger] s[j]) by {
            if i == 0 {
                if j > 1 {
                    assert(lex_lt(r[0], r[j - 1]));
                    lemma_lex_transitive(x, r[0], r[j - 1]);
                }
            } else {
                assert(s[i] == r[i - 1] && s[j] == r[j - 1]);
            }
        }
        assert(s.to_set() =~= r.to_set().insert(x)) by {
            assert forall|y: Seq<char>| s.to_set().contains(y) implies r.to_set().insert(x).contains(y) by {
                let k = choose|k: int| 0 <= k < s.len() && s[k] == y;
                if k > 0 {
                    assert(r[k - 1] == y);
                }
            }
            assert forall|y: Seq<char>| r.to_set().insert(x).contains(y) implies s.to_set().contains(y) by {
                if y == x {
                    assert(s[0] == x);
                } else {
                    let k = choose|k: int| 0 <= k < r.len() && r[k] == y;
                    assert(s[k + 1] == y);
                }
            }
        }
    } else {
        let t = r.drop_first();
        assert(strictly_sorted(t)) by {
            assert forall|i: int, j: int| 0 <= i < j < t.len() implies lex_lt(#[trigger] t[i], #[trigger] t[j]) by {
                assert(t[i] == r[i + 1] && t[j] == r[j + 1]);
            }
        }
        assert(!t.contains(x)) by {
            if t.contains(x) {
                let k = choose|k: int| 0 <= k < t.len() && t[k] == x;
                assert(r[k + 1] == x);
            }
        }
        lemma_insert_strict(t, x);
        let rest = insert_strict(t, x);
        assert(r[0] != x) by {
            if r[0] == x {
                assert(r.contains(x));
            }
        }
        lemma_lex_total(x, r[0]);
        let s = seq![r[0]] + rest;
        assert(insert_strict(r, x) == s);
        assert forall|i: int, j: int| 0 <= i < j < s.len() implies lex_lt(#[trigger] s[i], #[trigger] s[j]) by {
            if i == 0 {
                let y = s[j];
                assert(rest[j - 1] == y);
                assert(rest.to_set().contains(y));
                assert(t.to_set().insert(x).contains(y));
                if y != x {
                    let k = choose|k: int| 0 <= k < t.len() && t[k] == y;
                    assert(r[k + 1] == y);
                    assert(lex_lt(r[0], r[k + 1]));
                }
            } else {
                assert(s[i] == rest[i - 1] && s[j] == rest[j - 1]);
            }
        }
        assert(s.to_set() =~= r.to_set().insert(x)) by {
            assert forall|y: Seq<char>| s.to_set().contains(y) implies r.to_set().insert(x).contains(y) by {
                let k = choose|k: int| 0 <= k < s.len() && s[k] == y;
                if k > 0 {
                    assert(rest[k - 1] == y);
                    assert(rest.to_set().contains(y));
                    if y != x {
                        let m = choose|m: int| 0 <= m < t.len() && t[m] == y;
                        assert(r[m + 1] == y);
                    }
                } else {
                    assert(r[0] == y);
                }
            }
            assert forall|y: Seq<char>| r.to_set().insert(x).contains(y) implies s.to_set().contains(y) by {
                if y == r[0] {
                    assert(s[0] == y);
                } else {
                    if y != x {
                        let m = choose|m: int| 0 <= m < r.len() && r[m] == y;
                        assert(m > 0);
                        assert(t[m - 1] == y);
                        assert(t.to_set().contains(y));
                    }
                    assert(rest.to_set().contains(y));
                    let k = choose|k: int| 0 <= k < rest.len() && rest[k] == y;
                    assert(s[k + 1] == y);
                }
            }
        }
    }
}

/// A strictly sorted sequence with the elements of `q`.
proof fn strictly_sorted_arrangement(q: Seq<Seq<char>>) -> (r: Seq<Seq<char>>)
    ensures
        strictly_sorted(r),
        r.to_set() == q.to_set(),
    decreases q.len(),
{
    if q.len() == 0 {
        let r = Seq::<Seq<char>>::empty();
        assert(r.to_set() =~= q.to_set());
        r
    } else {
        let p = q.drop_last();
        let x = q.last();
        let r0 = strictly_sorted_arrangement(p);
        assert(q.to_set() =~= p.to_set().insert(x)) by {
            assert forall|y: Seq<char>| q.to_set().contains(y) implies p.to_set().insert(x).contains(y) by {
                let k = choose|k: int| 0 <= k < q.len() && q[k] == y;
                if k < q.len() - 1 {
                    assert(p[k] == y);
                }
            }
            assert forall|y: Seq<char>| p.to_set().insert(x).contains(y) implies q.to_set().contains(y) by {
                if y == x {
                    assert(q[q.len() - 1] == y);
                } else {
                    let k = choose|k: int| 0 <= k < p.len() && p[k] == y;
                    assert(q[k] == y);
                }
            }
        }
        if r0.contains(x) {
            assert(r0.to_set().contains(x));
            assert(q.to_set() =~= r0.to_set());
            r0
        } else {
            lemma_insert_strict(r0, x);
            insert_strict(r0, x)
        }
    }
}

/// The elements of a sequence have an ordered listing: `in_order` of its set is
/// strictly sorted and holds exactly those elements.
pub proof fn lemma_in_order_exists(q: Seq<Seq<char>>)
    ensures
        strictly_sorted(in_order(q.to_set())),
        in_order(q.to_set()).to_set() == q.to_set(),
{
    let r = strictly_sorted_arrangement(q);
    assert(strictly_sorted(r) && r.to_set() == q.to_set());
}

/// A strictly sorted sequence is the ordered listing of its elements.
pub proof fn lemma_in_order(q: Seq<Seq<char>>)
    requires
        strictly_sorted(q),
    ensures
        in_order(q.to_set()) == q,
{
    let r = in_order(q.to_set());
    assert(strictly_sorted(r) && r.to_set() == q.to_set());
    lemma_strictly_sorted_unique(r, q);
}


/// The elements of `s` rearranged into non-decreasing order.
pub open spec fn in_sorted_order(s: Seq<Seq<char>>) -> Seq<Seq<char>> {
    choose|q: Seq<Seq<char>>| sorted(q) && q.to_multiset() == s.to_multiset()
}

/// `lex_le` is a total order.
pub proof fn lemma_lex_le_total_ordering()
    ensures
        vstd::relations::total_ordering(|a: Seq<char>, b: Seq<char>| lex_le(a, b)),
{
    let leq = |a: Seq<char>, b: Seq<char>| lex_le(a, b);
    assert forall|x: Seq<char>, y: Seq<char>| #[trigger] leq(x, y) && #[trigger] leq(y, x) implies x == y by {
        lemma_lex_asymmetric(x, y);
    }
    assert forall|x: Seq<char>, y: Seq<char>, z: Seq<char>| #[trigger] leq(x, y) && #[trigger] leq(y, z) implies leq(x, z) by {
        lemma_lex_le_transitive(x, y, z);
    }
    assert forall|x: Seq<char>, y: Seq<char>| #[trigger] leq(x, y) || #[trigger] leq(y, x) by {
        lemma_lex_total(x, y);
    }
}

/// Every sequence of names has a sorted arrangement: `in_sorted_order(s)` is
/// sorted and holds the names of `s`.
pub proof fn lemma_in_sorted_order_sorted(s: Seq<Seq<char>>)
    ensures
        sorted(in_sorted_order(s)),
        in_sorted_order(s).to_multiset() == s.to_multiset(),
{
    let leq = |a: Seq<char>, b: Seq<char>| lex_le(a, b);
    lemma_lex_le_total_ordering();
    s.lemma_sort_by_ensures(leq);
    let q = s.sort_by(leq);
    assert(sorted(q)) by {
        assert forall|i: int, j: int| 0 <= i < j < q.len() implies lex_le(#[trigger] q[i], #[trigger] q[j]) by {
            assert(leq(q[i], q[j]));
        }
    }
    assert(sorted(q) && q.to_multiset() == s.to_multiset());
}

/// A sorted arrangement of `s` is `in_sorted_order(s)`: there is only one.
pub proof fn lemma_in_sorted_order(q: Seq<Seq<char>>, s: Seq<Seq<char>>)
    requires
        sorted(q),
        q.to_multiset() == s.to_multiset(),
    ensures
        in_sorted_order(s) == q,
{
    let r = in_sorted_order(s);
    assert(sorted(r) && r.to_multiset() == s.to_multiset());
    lemma_sorted_unique(r, q);
}

/// Two sorted sequences with the same elements, counted with multiplicity, are equal.
pub proof fn lemma_sorted_unique(a: Seq<Seq<char>>, b: Seq<Seq<char>>)
    requires
        sorted(a),
        sorted(b),
        a.to_multiset() == b.to_multiset(),
    ensures
        a == b,
    decreases a.len(),
{
    a.to_multiset_ensures();
    b.to_multiset_ensures();
    if a.len() == 0 {
        assert(b.len() == 0);
        assert(a =~= b);
    } else {
        assert(b.len() > 0);
        assert(a.to_multiset().count(a[0]) > 0);
        assert(b.contains(a[0]));
        assert(b.to_multiset().count(b[0]) > 0);
        assert(a.contains(b[0]));
        let j = choose|j: int| 0 <= j < b.len() && b[j] == a[0];
        let i = choose|i: int| 0 <= i < a.len() && a[i] == b[0];
        assert(lex_le(b[0], b[j]));
        assert(lex_le(a[0], a[i]));
        if lex_lt(b[0], a[0]) {
            if lex_lt(a[0], b[0]) {
                lemma_lex_asymmetric(a[0], b[0]);
            }
        }
        if a[0] != b[0] {
            lemma_lex_asymmetric(a[0], b[0]);
        }
        assert(a[0] == b[0]);
        let a1 = a.drop_first();
        let b1 = b.drop_first();
        assert(a1 =~= a.remove(0));
        assert(b1 =~= b.remove(0));
        assert(a1.to_multiset() =~= b1.to_multiset());
        assert(sorted(a1)) by {
            assert forall|x: int, y: int| 0 <= x < y < a1.len() implies lex_le(#[trigger] a1[x], #[trigger] a1[y]) by {
                assert(a1[x] == a[x + 1] && a1[y] == a[y + 1]);
            }
        }
        assert(sorted(b1)) by {
            assert forall|x: int, y: int| 0 <= x < y < b1.len() implies lex_le(#[trigger] b1[x], #[trigger] b1[y]) by {
                assert(b1[x] == b[x + 1] && b1[y] == b[y + 1]);
            }
        }
        lemma_sorted_unique(a1, b1);
        assert(a =~= b);
    }
}

} // verus!

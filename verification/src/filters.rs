//! What stays on each machine: build and environment artifacts.

use vstd::prelude::*;

use crate::text::{owned, strs};

verus! {

/// The excluded patterns, in order.
pub open spec fn exclude_patterns() -> Seq<Seq<char>> {
    seq![
        "node_modules/"@,
        "target/"@,
        ".direnv/"@,
        ".devenv/"@,
        "result"@,
        "result-*"@,
    ]
}

/// `--exclude <pattern>` for each pattern, in order.
pub open spec fn filter_args(patterns: Seq<Seq<char>>) -> Seq<Seq<char>> {
    Seq::new(2 * patterns.len(), |i: int| if i % 2 == 0 { "--exclude"@ } else { patterns[i / 2] })
}

/// Local build and environment artifacts.
pub fn excludes() -> (v: Vec<String>)
    ensures
        strs(v@) == exclude_patterns(),
{
    let mut v: Vec<String> = Vec::new();
    v.push(owned("node_modules/"));
    v.push(owned("target/"));
    v.push(owned(".direnv/"));
    v.push(owned(".devenv/"));
    v.push(owned("result"));
    v.push(owned("result-*"));
    assert(strs(v@) =~= exclude_patterns());
    v
}

/// The rsync arguments that leave the excluded patterns alone.
pub fn rsync_filter_args() -> (args: Vec<String>)
    ensures
        strs(args@) == filter_args(exclude_patterns()),
{
    let patterns = excludes();
    let mut args: Vec<String> = Vec::new();
    let mut i: usize = 0;
    while i < patterns.len()
        invariant
            i <= patterns.len(),
            strs(patterns@) == exclude_patterns(),
            strs(args@) == filter_args(strs(patterns@).take(i as int)),
        decreases patterns.len() - i,
    {
        let ghost before = strs(args@);
        args.push(owned("--exclude"));
        args.push(patterns[i].clone());
        proof {
            let t = strs(patterns@).take(i + 1);
            assert(strs(patterns@).take(i as int) =~= t.take(i as int));
            assert(strs(args@) =~= before.push("--exclude"@).push(strs(patterns@)[i as int]));
            let f = filter_args(t);
            let g = filter_args(strs(patterns@).take(i as int));
            assert(strs(args@).len() == f.len());
            assert forall|k: int| 0 <= k < f.len() implies strs(args@)[k] == f[k] by {
                if k < 2 * i {
                    assert(strs(args@)[k] == before[k]);
                    assert(before[k] == g[k]);
                    assert(k / 2 < i);
                }
            }
            assert(strs(args@) =~= f);
        }
        i = i + 1;
    }
    assert(strs(patterns@).take(patterns.len() as int) =~= strs(patterns@));
    args
}

} // verus!

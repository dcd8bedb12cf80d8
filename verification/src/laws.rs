//! What the handoff protocol guarantees for every configuration, project, step
//! and answer: who may write a lease, what each command does first, and what
//! it never touches.

use vstd::prelude::*;

use crate::error::ErrorView;
use crate::lease::LeaseView;
use crate::order::{in_sorted_order, lemma_in_order_exists, lemma_in_sorted_order_sorted, lex_le, sorted, strictly_sorted};
use crate::process::lossy_text;
use crate::remote::listed_names;
use crate::text::lines;
use crate::pathname::path_join;
use crate::remote::{cat, rm_rf};
use crate::service::{
    acquire_answers, acquire_next, answered_by, answers, next, TaskView, get_begin, put_begin,
    discard_begin, reclaim_begin, status_begin, status_answers, status_next, StatusStepView,
    release_answers, reclaim_answers, check_answers, leases_root, stems, without_control, check_begin, check_next, checked, checkout_path, download_command, upload_command, verify_command, discard_answers,
    discard_next, excess, finish, listing_next, Listing, ListingOutcomeView, get_answers, get_cleanup, get_next, lease_metadata_path,
    lease_path, legacy_token_path, plain, prune_from, put_answers, put_next, release_next,
    remote_checked, run_effect, snapshots_root, ssh, target, AcquireOutcomeView, AcquireView,
    Check, CheckOutcomeView, Context, DiscardStepView, EffectView, EventView, GetStepView,
    PathKind, PutStepView, Release, ReleaseOutcomeView, reclaim_next, ReclaimStepView,
};
use crate::filters::{exclude_patterns, filter_args};
use crate::status::{row_names, StatusView};
use crate::text::all_ws;
use vstd::seq_lib::to_multiset_contains;

verus! {

// ---------------------------------------------------------------------------
// Leases
// ---------------------------------------------------------------------------

/// One machine at a time: a lease document is encoded (and then installed on the
/// NAS) only right after this machine created the lease directory; when another
/// machine holds it, creating the directory fails and the answer is `LeaseHeld`.
pub proof fn claim_is_exclusive(c: Context, p: Seq<char>, s: AcquireView, e: EventView, fresh: LeaseView)
    requires
        acquire_answers(s, e),
    ensures
        acquire_next(c, p, s, e, fresh) matches AcquireOutcomeView::Continue(AcquireView::Serialize { lease }, _)
            ==> s is Claim && lease == fresh && (e matches EventView::Ran(Ok(o)) && o.success),
        (s is Claim && (e matches EventView::Ran(Ok(o)) && !o.success)) ==> acquire_next(c, p, s, e, fresh)
            == AcquireOutcomeView::Failed(ErrorView::LeaseHeld(p)),
{
}

/// A lease counts as newly taken only when this command wrote it to the NAS and
/// recorded it here; a lease read from this machine's record is resumed only
/// when the NAS still carries its token.
pub proof fn acquired_leases_are_ours(c: Context, p: Seq<char>, s: AcquireView, e: EventView, fresh: LeaseView, l: LeaseView)
    requires
        acquire_answers(s, e),
    ensures
        acquire_next(c, p, s, e, fresh) == AcquireOutcomeView::Acquired(l, true) ==> s == (AcquireView::WriteLocal { lease: l })
            && e matches EventView::Done(Ok(_)),
        acquire_next(c, p, s, e, fresh) == AcquireOutcomeView::Acquired(l, false) ==> (s matches AcquireView::Resume {
            lease,
            check,
        } && lease == l && check_next(c, p, l.token, check, e) == CheckOutcomeView::Matched),
{
}

/// The NAS token matches only when it equals the expected one: a lease check
/// never lets a holder through with another token.
pub proof fn lease_check_matches_only_our_token(c: Context, p: Seq<char>, expected: Seq<char>, s: Check, e: EventView)
    requires
        s is Parsing || s is Legacy,
        crate::service::check_answers(s, e),
        check_next(c, p, expected, s, e) == CheckOutcomeView::Matched,
    ensures
        match (s, e) {
            (Check::Parsing, EventView::Parsed(Ok(l))) => l.token == expected,
            (Check::Legacy, EventView::Ran(Ok(o))) => crate::text::trim(crate::process::lossy_text(o.stdout))
                == expected,
            _ => false,
        },
{
}

/// A lease is given back only while it is ours: the lease directory on the NAS
/// is removed only after the NAS showed our token.
pub proof fn release_removes_only_our_lease(c: Context, p: Seq<char>, token: Seq<char>, s: Release, e: EventView)
    requires
        release_answers(s, e),
    ensures
        release_next(c, p, token, s, e) matches ReleaseOutcomeView::Continue(Release::Removing, _) ==> (s matches Release::Checking(
            check,
        ) && check_next(c, p, token, check, e) == CheckOutcomeView::Matched),
{
}

/// A lease that this command created is removed again only when installing it on
/// the NAS or recording it here failed.
pub proof fn new_lease_is_undone_only_after_a_failure(c: Context, p: Seq<char>, a: AcquireView, e: EventView, fresh: LeaseView)
    requires
        acquire_answers(a, e),
    ensures
        acquire_next(c, p, a, e, fresh) matches AcquireOutcomeView::Continue(AcquireView::Undo { error }, _) ==> (
        a is Install && (e matches EventView::Ran(r) && remote_checked(c, "install"@, r) == Err::<
            crate::process::OutputView,
            ErrorView,
        >(error))) || (a is WriteLocal && e == EventView::Done(Err(error))),
{
}

// ---------------------------------------------------------------------------
// get
// ---------------------------------------------------------------------------

/// `get` copies from the NAS only under a lease: it asks whether the NAS has the
/// project only once the lease is taken or resumed, and starts the transfer only
/// when the project is there.
pub proof fn get_copies_only_under_a_lease(c: Context, p: Seq<char>, s: GetStepView, e: EventView, fresh: LeaseView)
    requires
        get_answers(s, e),
    ensures
        get_next(c, p, s, e, fresh).0 matches Some(GetStepView::CheckRemote { lease, newly }) ==> (s matches GetStepView::Acquiring(
            a,
        ) && acquire_next(c, p, a, e, fresh) == AcquireOutcomeView::Acquired(lease, newly)),
        get_next(c, p, s, e, fresh).0 matches Some(GetStepView::Transfer { lease, newly }) ==> s == (GetStepView::CheckRemote {
            lease,
            newly,
        }) && (e matches EventView::Ran(Ok(o)) && o.success),
        get_next(c, p, s, e, fresh).0 matches Some(GetStepView::Acquiring(AcquireView::ReadLocal)) ==> s is Inspect
            && e == EventView::Path(PathKind::Missing),
{
}

/// `get` and `reclaim` never replace a checkout: anything at the checkout path
/// ends them with `CheckoutExists` before any lease is touched.
pub proof fn existing_checkout_is_kept(c: Context, p: Seq<char>, k: PathKind, fresh: LeaseView)
    requires
        k != PathKind::Missing,
    ensures
        get_next(c, p, GetStepView::Inspect, EventView::Path(k), fresh) == (
            None::<GetStepView>,
            finish(Err(ErrorView::CheckoutExists(checkout_path(c, p)))),
        ),
        reclaim_next(c, p, ReclaimStepView::Inspect, EventView::Path(k), fresh) == (
            None::<ReclaimStepView>,
            finish(Err(ErrorView::CheckoutExists(checkout_path(c, p)))),
        ),
{
}

/// A failed transfer removes the partial checkout (a missing one is fine) and
/// keeps the transfer's error to report.
pub proof fn failed_transfer_removes_partial_checkout(
    c: Context,
    p: Seq<char>,
    lease: LeaseView,
    newly: bool,
    e: EventView,
    fresh: LeaseView,
)
    requires
        e is Ran,
    ensures
        checked(c.programs.rsync@, e->Ran_0) matches Err(err) ==> get_next(
            c,
            p,
            GetStepView::Transfer { lease, newly },
            e,
            fresh,
        ) == get_cleanup(c, p, lease, newly, err),
        get_cleanup(c, p, lease, newly, ErrorView::ConfigMissing(Seq::empty())).1.effect == EffectView::RemoveTree(
            checkout_path(c, p),
            true,
        ),
{
}

/// After the partial checkout is gone, `get` gives back the lease only if it took
/// it itself, forgets the local record after that, and reports the error that
/// stopped the transfer.
pub proof fn cleanup_gives_back_only_a_new_lease(
    c: Context,
    p: Seq<char>,
    lease: LeaseView,
    newly: bool,
    error: ErrorView,
    fresh: LeaseView,
)
    ensures
        newly ==> get_next(c, p, GetStepView::Cleanup { lease, newly, error }, EventView::Done(Ok(())), fresh) == (
            Some(GetStepView::CleanupRelease { token: lease.token, release: Release::Checking(Check::Metadata), error }),
            plain(check_begin(c, p)),
        ),
        !newly ==> get_next(c, p, GetStepView::Cleanup { lease, newly, error }, EventView::Done(Ok(())), fresh) == (
            None::<GetStepView>,
            finish(Err(error)),
        ),
        get_next(c, p, GetStepView::CleanupForget { error }, EventView::Done(Ok(())), fresh) == (
            None::<GetStepView>,
            finish(Err(error)),
        ),
{
}

// ---------------------------------------------------------------------------
// put
// ---------------------------------------------------------------------------

/// The phases of `put`, in the order in which they come.
pub open spec fn put_rank(s: PutStepView) -> nat {
    match s {
        PutStepView::Workspace => 0,
        PutStepView::Inspect => 1,
        PutStepView::ReadLease => 2,
        PutStepView::Checking { .. } => 3,
        PutStepView::CheckRemote { .. } => 4,
        PutStepView::SnapshotRoot { .. } => 5,
        PutStepView::SnapshotDir { .. } => 6,
        PutStepView::SnapshotCopy { .. } => 7,
        PutStepView::Upload { .. } => 8,
        PutStepView::Verify { .. } => 9,
        PutStepView::Pruning { .. } => 10,
        PutStepView::Removing { .. } => 11,
        PutStepView::RemoveCheckout { .. } => 12,
        PutStepView::Releasing { .. } => 13,
        PutStepView::Forget => 14,
    }
}

/// `put` never goes back to an earlier phase.
pub proof fn put_only_moves_forward(c: Context, p: Seq<char>, s: PutStepView, e: EventView, name: Seq<char>)
    requires
        put_answers(s, e),
    ensures
        put_next(c, p, s, e, name).0 matches Some(n) ==> put_rank(s) <= put_rank(n),
{
    match s {
        PutStepView::Pruning { lease, listing } => {
            match crate::service::listing_next(c, snapshots_root(c, p), listing, e) {
                crate::service::ListingOutcomeView::Listed(names) => lemma_prune_rank(c, p, lease, names, 0),
                _ => {},
            }
        },
        PutStepView::Removing { lease, names, next } => {
            lemma_prune_rank(c, p, lease, names, next + 1);
        },
        _ => {},
    }
}

proof fn lemma_prune_rank(c: Context, p: Seq<char>, lease: LeaseView, names: Seq<Seq<char>>, i: nat)
    ensures
        prune_from(c, p, lease, names, i).0 matches Some(n) && (n is Removing || n is RemoveCheckout),
{
}

/// `put` changes the NAS source only after saving it: the snapshot is made once
/// the lease has been checked and the project found, and the upload starts only
/// after the snapshot copy succeeded.
pub proof fn put_snapshots_before_upload(c: Context, p: Seq<char>, s: PutStepView, e: EventView, name: Seq<char>)
    requires
        put_answers(s, e),
    ensures
        put_next(c, p, s, e, name).0 matches Some(PutStepView::CheckRemote { lease }) ==> (s matches PutStepView::Checking {
            lease: l,
            check,
        } && l == lease && check_next(c, p, lease.token, check, e) == CheckOutcomeView::Matched),
        put_next(c, p, s, e, name).0 matches Some(PutStepView::SnapshotRoot { .. }) ==> s is CheckRemote && (
        e matches EventView::Ran(Ok(o)) && o.success),
        put_next(c, p, s, e, name).0 matches Some(PutStepView::SnapshotDir { .. }) ==> s is SnapshotRoot && (
        e matches EventView::Ran(r) && remote_checked(c, "mkdir"@, r) is Ok),
        put_next(c, p, s, e, name).0 matches Some(PutStepView::SnapshotCopy { .. }) ==> s is SnapshotDir && (
        e matches EventView::Ran(r) && remote_checked(c, "mkdir"@, r) is Ok),
        put_next(c, p, s, e, name).0 matches Some(PutStepView::Upload { .. }) ==> s is SnapshotCopy && (
        e matches EventView::Ran(r) && remote_checked(c, "rsync"@, r) is Ok),
{
    match s {
        PutStepView::Pruning { lease, listing } => {
            match crate::service::listing_next(c, snapshots_root(c, p), listing, e) {
                crate::service::ListingOutcomeView::Listed(names) => lemma_prune_rank(c, p, lease, names, 0),
                _ => {},
            }
        },
        PutStepView::Removing { lease, names, next } => {
            lemma_prune_rank(c, p, lease, names, next + 1);
        },
        _ => {},
    }
}

/// The local checkout goes only after the transfer was verified: pruning starts
/// only after a verifying dry run that listed no difference, and the checkout is
/// removed only once pruning is over.
pub proof fn put_removes_checkout_only_after_verify(c: Context, p: Seq<char>, s: PutStepView, e: EventView, name: Seq<char>)
    requires
        put_answers(s, e),
    ensures
        put_next(c, p, s, e, name).0 matches Some(PutStepView::Verify { .. }) ==> s is Upload && (
        e matches EventView::Ran(r) && checked(c.programs.rsync@, r) is Ok),
        (put_next(c, p, s, e, name).0 matches Some(PutStepView::Pruning { .. }) && !(s is Pruning)) ==> s is Verify
            && (e matches EventView::Ran(r) && checked(c.programs.rsync@, r) matches Ok(o) && all_ws(
            crate::process::lossy_text(o.stdout),
        )),
        put_next(c, p, s, e, name).0 matches Some(PutStepView::RemoveCheckout { .. }) ==> s is Pruning
            || s is Removing,
        put_next(c, p, s, e, name).1.effect matches EffectView::RemoveTree(path, missing_ok) ==> path
            == checkout_path(c, p) && !missing_ok && put_next(c, p, s, e, name).0 matches Some(
            PutStepView::RemoveCheckout { .. },
        ),
{
    match s {
        PutStepView::Pruning { lease, listing } => {
            match crate::service::listing_next(c, snapshots_root(c, p), listing, e) {
                crate::service::ListingOutcomeView::Listed(names) => lemma_prune_effect(c, p, lease, names, 0),
                _ => {},
            }
        },
        PutStepView::Removing { lease, names, next } => {
            lemma_prune_effect(c, p, lease, names, next + 1);
        },
        _ => {},
    }
}

proof fn lemma_prune_effect(c: Context, p: Seq<char>, lease: LeaseView, names: Seq<Seq<char>>, i: nat)
    ensures
        prune_from(c, p, lease, names, i).1.effect matches EffectView::RemoveTree(path, missing_ok) ==> path
            == checkout_path(c, p) && !missing_ok && prune_from(c, p, lease, names, i).0 matches Some(
            PutStepView::RemoveCheckout { .. },
        ),
        prune_from(c, p, lease, names, i).0 matches Some(n) && (n is Removing || n is RemoveCheckout),
{
}

/// The lease is given back only after the checkout is gone, and the local record
/// is forgotten only after the NAS lease is removed.
pub proof fn put_releases_after_cleanup(c: Context, p: Seq<char>, s: PutStepView, e: EventView, name: Seq<char>)
    requires
        put_answers(s, e),
    ensures
        (put_next(c, p, s, e, name).0 matches Some(PutStepView::Releasing { .. }) && !(s is Releasing)) ==> s is RemoveCheckout
            && e matches EventView::Done(Ok(_)),
        put_next(c, p, s, e, name).0 matches Some(PutStepView::Forget) ==> (s matches PutStepView::Releasing {
            lease,
            release,
        } && release_next(c, p, lease.token, release, e) == ReleaseOutcomeView::Released),
{
    match s {
        PutStepView::Pruning { lease, listing } => {
            match crate::service::listing_next(c, snapshots_root(c, p), listing, e) {
                crate::service::ListingOutcomeView::Listed(names) => lemma_prune_rank(c, p, lease, names, 0),
                _ => {},
            }
        },
        PutStepView::Removing { lease, names, next } => {
            lemma_prune_rank(c, p, lease, names, next + 1);
        },
        _ => {},
    }
}

/// Listing a directory on the NAS gives its subdirectory names in sorted order.
pub proof fn listings_are_sorted(c: Context, path: Seq<char>, s: Listing, e: EventView)
    requires
        e is Ran,
    ensures
        listing_next(c, path, s, e) matches ListingOutcomeView::Listed(names) ==> sorted(names),
{
    match (s, e) {
        (Listing::Finding, EventView::Ran(r)) => match remote_checked(c, "find"@, r) {
            Ok(o) => lemma_in_sorted_order_sorted(listed_names(lines(lossy_text(o.stdout)))),
            Err(_) => {},
        },
        _ => {},
    }
}

/// Every snapshot that `put` removes is among the oldest: of the sorted listing
/// it removes `names[i]` only for `i` below the excess over the retention.
pub proof fn put_prunes_only_the_oldest(c: Context, p: Seq<char>, s: PutStepView, e: EventView, name: Seq<char>)
    requires
        put_answers(s, e),
        s matches PutStepView::Removing { names, .. } ==> sorted(names),
    ensures
        put_next(c, p, s, e, name).0 matches Some(PutStepView::Removing { names, next, .. }) ==> sorted(names)
            && next < excess(names.len(), c.config.snapshot_retention as nat),
{
    match s {
        PutStepView::Pruning { lease, listing } => {
            listings_are_sorted(c, snapshots_root(c, p), listing, e);
        },
        _ => {},
    }
}

/// Pruning keeps the `retention` newest snapshots: of the listed names (sorted,
/// and a name starts with its time), the first `excess` go, one at a time, and
/// each of them sorts before every one that stays.
pub proof fn prune_keeps_the_newest(c: Context, p: Seq<char>, lease: LeaseView, names: Seq<Seq<char>>, i: nat, j: int)
    ensures
        i < excess(names.len(), c.config.snapshot_retention as nat) ==> prune_from(c, p, lease, names, i) == (
            Some(PutStepView::Removing { lease, names, next: i }),
            plain(run_effect(rm_rf(ssh(c), target(c), path_join(snapshots_root(c, p), names[i as int])))),
        ),
        i >= excess(names.len(), c.config.snapshot_retention as nat) ==> prune_from(c, p, lease, names, i).0
            == Some(PutStepView::RemoveCheckout { lease }),
        names.len() - excess(names.len(), c.config.snapshot_retention as nat) == if names.len()
            < c.config.snapshot_retention {
            names.len() as int
        } else {
            c.config.snapshot_retention as int
        },
        sorted(names) && i < excess(names.len(), c.config.snapshot_retention as nat) <= j < names.len()
            ==> lex_le(names[i as int], names[j]),
{
}

/// An upload deletes on the NAS what the checkout no longer has, except the
/// excluded patterns, which rsync neither sends nor deletes; downloads and the
/// verifying dry run carry the same exclusions, and the dry run itemizes what
/// would still change.
pub proof fn uploads_propagate_deletions_but_keep_exclusions(c: Context, p: Seq<char>)
    ensures
        upload_command(c, p).args.subrange(2, 14) == filter_args(exclude_patterns()),
        upload_command(c, p).args[14] == "--delete"@,
        download_command(c, p).args.subrange(2, 14) == filter_args(exclude_patterns()),
        verify_command(c, p).args.subrange(2, 17) == filter_args(exclude_patterns()) + seq![
            "--delete"@,
            "--dry-run"@,
            "--itemize-changes"@,
        ],
        !verify_command(c, p).stream_output,
{
    let f = filter_args(exclude_patterns());
    assert(f.len() == 12);
    assert(upload_command(c, p).args.subrange(2, 14) =~= f);
    assert(download_command(c, p).args.subrange(2, 14) =~= f);
    assert(verify_command(c, p).args.subrange(2, 17) =~= f + seq!["--delete"@, "--dry-run"@, "--itemize-changes"@]);
}

// ---------------------------------------------------------------------------
// discard
// ---------------------------------------------------------------------------

/// `discard` leaves the NAS source alone: the only commands that it runs on the
/// NAS read the lease and remove the lease directory, and the only local tree
/// that it removes is the checkout.
pub proof fn discard_touches_only_the_lease(c: Context, p: Seq<char>, s: DiscardStepView, e: EventView)
    requires
        discard_answers(s, e),
    ensures
        discard_next(c, p, s, e).1.effect matches EffectView::Run(command) ==> (command == cat(
            ssh(c),
            target(c),
            lease_metadata_path(c, p),
        ) || command == cat(ssh(c), target(c), legacy_token_path(c, p)) || command == rm_rf(
            ssh(c),
            target(c),
            lease_path(c, p),
        )),
        discard_next(c, p, s, e).1.effect matches EffectView::RemoveTree(path, _) ==> path == checkout_path(c, p),
{
}

/// `discard` removes the checkout only after the NAS confirmed that the lease is
/// ours, and gives the lease back only after that.
pub proof fn discard_checks_the_lease_first(c: Context, p: Seq<char>, s: DiscardStepView, e: EventView)
    requires
        discard_answers(s, e),
    ensures
        discard_next(c, p, s, e).0 matches Some(DiscardStepView::Reinspect { lease }) ==> (s matches DiscardStepView::Checking {
            lease: l,
            check,
        } && l == lease && check_next(c, p, lease.token, check, e) == CheckOutcomeView::Matched),
        discard_next(c, p, s, e).0 matches Some(DiscardStepView::RemoveCheckout { .. }) ==> s is Reinspect && e
            == EventView::Path(PathKind::Directory),
        (discard_next(c, p, s, e).0 matches Some(DiscardStepView::Releasing { .. }) && !(s is Releasing)) ==> (
        s is Reinspect || s is RemoveCheckout),
{
}

// ---------------------------------------------------------------------------
// status
// ---------------------------------------------------------------------------

/// What `status` has gathered so far is in order: the projects sorted and without
/// the control directory, and the NAS leases sorted.
pub open spec fn status_gathered_in_order(s: StatusStepView) -> bool {
    match s {
        StatusStepView::Projects(_) => true,
        StatusStepView::Leases { projects, .. } => sorted(projects) && !projects.contains(".busy-nas"@),
        StatusStepView::Local { projects, nas } => sorted(projects) && !projects.contains(".busy-nas"@)
            && sorted(nas),
        StatusStepView::Legacy { projects, nas, .. } => sorted(projects) && !projects.contains(
            ".busy-nas"@,
        ) && sorted(nas),
    }
}

/// `status` lists the projects on the NAS in order and without its control
/// directory, the NAS leases in order, and each local lease record once, in order.
pub proof fn status_lists_in_order(c: Context, s: StatusStepView, e: EventView)
    requires
        status_answers(s, e),
        status_gathered_in_order(s),
    ensures
        status_next(c, s, e).0 matches Some(n) ==> status_gathered_in_order(n),
        status_next(c, s, e).1.effect matches EffectView::FinishStatus(Ok(st)) ==> sorted(st.projects)
            && !st.projects.contains(".busy-nas"@) && sorted(st.nas_leases) && strictly_sorted(
            st.local_leases,
        ),
{
    match s {
        StatusStepView::Projects(listing) => {
            match listing_next(c, c.config.nas.root@, listing, e) {
                ListingOutcomeView::Listed(names) => {
                    let kept = without_control(names);
                    lemma_without_control(names);
                    lemma_in_sorted_order_sorted(kept);
                    let projects = in_sorted_order(kept);
                    if projects.contains(".busy-nas"@) {
                        to_multiset_contains(projects, ".busy-nas"@);
                        to_multiset_contains(kept, ".busy-nas"@);
                    }
                },
                _ => {},
            }
        },
        StatusStepView::Leases { projects, listing } => {
            match listing_next(c, leases_root(c), listing, e) {
                ListingOutcomeView::Listed(names) => lemma_in_sorted_order_sorted(names),
                _ => {},
            }
        },
        StatusStepView::Local { .. } => {},
        StatusStepView::Legacy { projects, nas, local } => {
            match e {
                EventView::LocalFiles(Ok(files)) => lemma_in_order_exists(local + stems(files)),
                _ => {},
            }
        },
    }
}

/// The status table has one row for each project named anywhere (on the NAS, in a
/// NAS lease, or in a local record), in order.
pub proof fn status_table_has_one_row_per_project(st: StatusView)
    ensures
        strictly_sorted(row_names(st)),
        row_names(st).to_set() == (st.projects + st.nas_leases + st.local_leases).to_set(),
{
    lemma_in_order_exists(st.projects + st.nas_leases + st.local_leases);
}

proof fn lemma_without_control(names: Seq<Seq<char>>)
    ensures
        !without_control(names).contains(".busy-nas"@),
    decreases names.len(),
{
    if names.len() > 0 {
        lemma_without_control(names.drop_last());
        let prev = without_control(names.drop_last());
        if names.last() != ".busy-nas"@ {
            assert forall|k: int| 0 <= k < prev.push(names.last()).len() implies prev.push(names.last())[k]
                != ".busy-nas"@ by {
                if k < prev.len() {
                    assert(prev.push(names.last())[k] == prev[k]);
                }
            }
        }
    }
}

// ---------------------------------------------------------------------------
// The service
// ---------------------------------------------------------------------------

/// Every command ends with one last action that reports its outcome, and the
/// service is idle exactly after that action: no step ends a command silently,
/// and no outcome is reported while work remains.
pub proof fn idle_exactly_when_finished(c: Context, t: TaskView, e: EventView, fresh: LeaseView, name: Seq<char>)
    requires
        answers(t, e),
    ensures
        next(c, t, e, fresh, name).0 is Idle <==> (next(c, t, e, fresh, name).1.effect is Finish
            || next(c, t, e, fresh, name).1.effect is FinishStatus),
{
    match t {
        TaskView::Put { project, step } => match step {
            PutStepView::Pruning { lease, listing } => {
                match listing_next(c, snapshots_root(c, project), listing, e) {
                    ListingOutcomeView::Listed(names) => lemma_prune_rank(c, project, lease, names, 0),
                    _ => {},
                }
            },
            PutStepView::Removing { lease, names, next } => {
                lemma_prune_rank(c, project, lease, names, next + 1);
            },
            _ => {},
        },
        _ => {},
    }
}

/// The service accepts exactly the answer to what it asked: whenever a step
/// leaves a command under way, the events that the task accepts next are those of
/// the kind that the step's effect asks for. A caller that answers each effect
/// with its kind of event thus always meets `resume`'s precondition.
pub proof fn accepts_the_answer_to_what_it_asked(
    c: Context,
    t: TaskView,
    e: EventView,
    fresh: LeaseView,
    name: Seq<char>,
    e2: EventView,
)
    requires
        answers(t, e),
    ensures
        !(next(c, t, e, fresh, name).0 is Idle) ==> (answers(next(c, t, e, fresh, name).0, e2)
            <==> answered_by(next(c, t, e, fresh, name).1.effect, e2)),
{
    match t {
        TaskView::Get { project, step } => lemma_get_asks(c, project, step, e, fresh, e2),
        TaskView::Put { project, step } => lemma_put_asks(c, project, step, e, name, e2),
        TaskView::Discard { project, step } => lemma_discard_asks(c, project, step, e, e2),
        TaskView::Reclaim { project, step } => lemma_reclaim_asks(c, project, step, e, fresh, e2),
        TaskView::Status(step) => lemma_status_asks(c, step, e, e2),
        TaskView::Idle => {},
    }
}

/// Each command starts by asking for the answer that its first step accepts.
pub proof fn commands_start_by_asking_their_first_answer(c: Context, p: Seq<char>, e2: EventView)
    ensures
        answers(TaskView::Get { project: p, step: GetStepView::Workspace }, e2) <==> answered_by(
            get_begin(c, p).effect,
            e2,
        ),
        answers(TaskView::Put { project: p, step: PutStepView::Workspace }, e2) <==> answered_by(
            put_begin(c, p).effect,
            e2,
        ),
        answers(TaskView::Discard { project: p, step: DiscardStepView::Workspace }, e2)
            <==> answered_by(discard_begin(c, p).effect, e2),
        answers(TaskView::Reclaim { project: p, step: ReclaimStepView::Workspace }, e2)
            <==> answered_by(reclaim_begin(c, p).effect, e2),
        answers(TaskView::Status(StatusStepView::Projects(Listing::Testing)), e2) <==> answered_by(
            status_begin(c).effect,
            e2,
        ),
{
}

proof fn lemma_check_asks(c: Context, p: Seq<char>, expected: Seq<char>, s: Check, e: EventView, e2: EventView)
    requires
        check_answers(s, e),
    ensures
        check_next(c, p, expected, s, e) matches CheckOutcomeView::Continue(n, eff) ==> (check_answers(n, e2)
            <==> answered_by(eff, e2)),
{
}

proof fn lemma_acquire_asks(c: Context, p: Seq<char>, s: AcquireView, e: EventView, fresh: LeaseView, e2: EventView)
    requires
        acquire_answers(s, e),
    ensures
        acquire_next(c, p, s, e, fresh) matches AcquireOutcomeView::Continue(n, eff) ==> (acquire_answers(n, e2)
            <==> answered_by(eff, e2)),
{
    match s {
        AcquireView::Resume { lease, check } => lemma_check_asks(c, p, lease.token, check, e, e2),
        _ => {},
    }
}

proof fn lemma_release_asks(c: Context, p: Seq<char>, token: Seq<char>, s: Release, e: EventView, e2: EventView)
    requires
        release_answers(s, e),
    ensures
        release_next(c, p, token, s, e) matches ReleaseOutcomeView::Continue(n, eff) ==> (release_answers(n, e2)
            <==> answered_by(eff, e2)),
{
    match s {
        Release::Checking(check) => lemma_check_asks(c, p, token, check, e, e2),
        _ => {},
    }
}

proof fn lemma_get_asks(c: Context, p: Seq<char>, s: GetStepView, e: EventView, fresh: LeaseView, e2: EventView)
    requires
        get_answers(s, e),
    ensures
        get_next(c, p, s, e, fresh).0 matches Some(n) ==> (get_answers(n, e2) <==> answered_by(
            get_next(c, p, s, e, fresh).1.effect,
            e2,
        )),
{
    match s {
        GetStepView::Acquiring(a) => lemma_acquire_asks(c, p, a, e, fresh, e2),
        GetStepView::CleanupRelease { token, release, .. } => lemma_release_asks(c, p, token, release, e, e2),
        _ => {},
    }
}

proof fn lemma_put_asks(c: Context, p: Seq<char>, s: PutStepView, e: EventView, name: Seq<char>, e2: EventView)
    requires
        put_answers(s, e),
    ensures
        put_next(c, p, s, e, name).0 matches Some(n) ==> (put_answers(n, e2) <==> answered_by(
            put_next(c, p, s, e, name).1.effect,
            e2,
        )),
{
    match s {
        PutStepView::Checking { lease, check } => lemma_check_asks(c, p, lease.token, check, e, e2),
        PutStepView::Releasing { lease, release } => lemma_release_asks(c, p, lease.token, release, e, e2),
        _ => {},
    }
}

proof fn lemma_discard_asks(c: Context, p: Seq<char>, s: DiscardStepView, e: EventView, e2: EventView)
    requires
        discard_answers(s, e),
    ensures
        discard_next(c, p, s, e).0 matches Some(n) ==> (discard_answers(n, e2) <==> answered_by(
            discard_next(c, p, s, e).1.effect,
            e2,
        )),
{
    match s {
        DiscardStepView::Checking { lease, check } => lemma_check_asks(c, p, lease.token, check, e, e2),
        DiscardStepView::Releasing { lease, release } => lemma_release_asks(c, p, lease.token, release, e, e2),
        _ => {},
    }
}

proof fn lemma_reclaim_asks(c: Context, p: Seq<char>, s: ReclaimStepView, e: EventView, fresh: LeaseView, e2: EventView)
    requires
        reclaim_answers(s, e),
    ensures
        reclaim_next(c, p, s, e, fresh).0 matches Some(n) ==> (reclaim_answers(n, e2) <==> answered_by(
            reclaim_next(c, p, s, e, fresh).1.effect,
            e2,
        )),
{
    match s {
        ReclaimStepView::Acquiring(a) => lemma_acquire_asks(c, p, a, e, fresh, e2),
        _ => {},
    }
}

proof fn lemma_status_asks(c: Context, s: StatusStepView, e: EventView, e2: EventView)
    requires
        status_answers(s, e),
    ensures
        status_next(c, s, e).0 matches Some(n) ==> (status_answers(n, e2) <==> answered_by(
            status_next(c, s, e).1.effect,
            e2,
        )),
{
}

// ---------------------------------------------------------------------------
// Where each transfer goes
// ---------------------------------------------------------------------------

/// `<target>:<NAS project path>/`: the contents of the project's tree on the NAS.
pub open spec fn nas_tree(c: Context, p: Seq<char>) -> Seq<char> {
    crate::config::remote_target_of(c.config@) + seq![':'] + path_join(c.config.nas.root@, p).push('/')
}

/// The options of an rsync command: everything before `-e <ssh> <source> <destination>`.
pub open spec fn rsync_options(cmd: crate::process::CommandView) -> Seq<Seq<char>> {
    cmd.args.subrange(0, cmd.args.len() - 4)
}

/// `put` uploads the contents of the checkout (its path followed by one `/`)
/// into the project's tree on the NAS, with rsync, deleting what the checkout no
/// longer has; the verifying dry run compares exactly the same pair.
pub proof fn put_uploads_the_checkout_into_the_nas_tree(
    c: Context,
    p: Seq<char>,
    lease: LeaseView,
    r: core::result::Result<crate::process::OutputView, ErrorView>,
    name: Seq<char>,
)
    ensures
        remote_checked(c, "rsync"@, r) is Ok ==> (put_next(c, p, PutStepView::SnapshotCopy { lease }, EventView::Ran(r), name).1.effect matches EffectView::Run(
            cmd,
        ) && cmd.program == c.programs.rsync@ && cmd.args.len() >= 4 && cmd.args[cmd.args.len() - 2]
            == path_join(c.config.workspace_root@, p).push('/') && cmd.args[cmd.args.len() - 1]
            == nas_tree(c, p) && rsync_options(cmd).contains("--delete"@) && !rsync_options(cmd).contains(
            "--dry-run"@,
        )),
        checked(c.programs.rsync@, r) is Ok ==> (put_next(c, p, PutStepView::Upload { lease }, EventView::Ran(r), name).1.effect matches EffectView::Run(
            cmd,
        ) && cmd.program == c.programs.rsync@ && cmd.args.len() >= 4 && cmd.args[cmd.args.len() - 2]
            == path_join(c.config.workspace_root@, p).push('/') && cmd.args[cmd.args.len() - 1]
            == nas_tree(c, p) && rsync_options(cmd).contains("--delete"@) && rsync_options(cmd).contains(
            "--dry-run"@,
        )),
{
    lemma_nas_tree(c, p);
    lemma_transfer_args(c, checkout_path(c, p).push('/'), nas_tree(c, p), true, false, c.show_progress);
    lemma_transfer_args(c, checkout_path(c, p).push('/'), nas_tree(c, p), true, true, false);
}

/// `get` downloads the contents of the project's tree on the NAS (`<target>:<path>/`)
/// into the checkout path, with rsync, deleting nothing.
pub proof fn get_downloads_the_nas_tree_into_the_checkout(
    c: Context,
    p: Seq<char>,
    lease: LeaseView,
    newly: bool,
    o: crate::process::OutputView,
    fresh: LeaseView,
)
    requires
        o.success,
    ensures
        get_next(c, p, GetStepView::CheckRemote { lease, newly }, EventView::Ran(Ok(o)), fresh).1.effect matches EffectView::Run(
            cmd,
        ) && cmd.program == c.programs.rsync@ && cmd.args.len() >= 4 && cmd.args[cmd.args.len() - 2]
            == nas_tree(c, p) && cmd.args[cmd.args.len() - 1] == path_join(c.config.workspace_root@, p)
            && !rsync_options(cmd).contains("--delete"@),
{
    lemma_nas_tree(c, p);
    lemma_transfer_args(c, nas_tree(c, p), checkout_path(c, p), false, false, c.show_progress);
}

proof fn lemma_nas_tree(c: Context, p: Seq<char>)
    ensures
        crate::service::remote_endpoint(c, crate::service::remote_project_path(c, p), true) == nas_tree(c, p),
{
    reveal_strlit(":");
    assert(crate::service::remote_endpoint(c, crate::service::remote_project_path(c, p), true) =~= nas_tree(c, p));
}

proof fn lemma_transfer_args(c: Context, source: Seq<char>, destination: Seq<char>, delete: bool, dry_run: bool, progress: bool)
    ensures
        ({
            let cmd = crate::service::rsync_command(c, source, destination, delete, dry_run, progress);
            &&& cmd.program == c.programs.rsync@
            &&& cmd.args.len() >= 4
            &&& cmd.args[cmd.args.len() - 2] == source
            &&& cmd.args[cmd.args.len() - 1] == destination
            &&& rsync_options(cmd).contains("--delete"@) == delete
            &&& rsync_options(cmd).contains("--dry-run"@) == dry_run
        }),
{
    reveal_strlit("--delete");
    reveal_strlit("--dry-run");
    reveal_strlit("-a");
    reveal_strlit("--protect-args");
    reveal_strlit("--itemize-changes");
    reveal_strlit("--info=progress2");
    reveal_strlit("--exclude");
    reveal_strlit("node_modules/");
    reveal_strlit("target/");
    reveal_strlit(".direnv/");
    reveal_strlit(".devenv/");
    reveal_strlit("result");
    reveal_strlit("result-*");
    let cmd = crate::service::rsync_command(c, source, destination, delete, dry_run, progress);
    assert("--dry-run"@[3] != "--delete"@[3]);
    assert("--itemize-changes"@[2] != "--delete"@[2]);
    assert("--itemize-changes"@[2] != "--dry-run"@[2]);
    assert("--protect-args"@[2] != "--dry-run"@[2]);
    assert("--exclude"@[2] != "--dry-run"@[2]);
    assert("--info=progress2"@[2] != "--dry-run"@[2]);
    assert("--protect-args"@[2] != "--delete"@[2]);
    assert("--exclude"@[2] != "--delete"@[2]);
    assert("--info=progress2"@[2] != "--delete"@[2]);
    let f = filter_args(exclude_patterns());
    let d: Seq<Seq<char>> = if delete { seq!["--delete"@] } else { Seq::empty() };
    let y: Seq<Seq<char>> = if dry_run { seq!["--dry-run"@, "--itemize-changes"@] } else { Seq::empty() };
    let g: Seq<Seq<char>> = if progress { seq!["--info=progress2"@] } else { Seq::empty() };
    let tail = seq!["-e"@, c.programs.ssh@, source, destination];
    let opts = seq!["-a"@, "--protect-args"@] + f + d + y + g;
    assert(cmd.args =~= opts + tail);
    let n = cmd.args.len();
    assert(cmd.args[n - 2] == source);
    assert(cmd.args[n - 1] == destination);
    assert(rsync_options(cmd) =~= opts);
    assert(f.len() == 12);
    assert(forall|j: int| 0 <= j < 6 ==> (#[trigger] exclude_patterns()[j]).len() > 1 && exclude_patterns()[j][1] != '-') by {
        assert(exclude_patterns()[0] == "node_modules/"@);
        assert(exclude_patterns()[1] == "target/"@);
        assert(exclude_patterns()[2] == ".direnv/"@);
        assert(exclude_patterns()[3] == ".devenv/"@);
        assert(exclude_patterns()[4] == "result"@);
        assert(exclude_patterns()[5] == "result-*"@);
    }
    assert(forall|w: Seq<char>| #![trigger opts.contains(w)] w.len() > 1 && w[1] == '-' && w != "--protect-args"@ && w != "--exclude"@
        && w != "--itemize-changes"@ && w != "--info=progress2"@ ==> (opts.contains(w) ==> (d.contains(w) || y.contains(w)))) by {
        assert forall|w: Seq<char>| w.len() > 1 && w[1] == '-' && w != "--protect-args"@ && w != "--exclude"@
            && w != "--itemize-changes"@ && w != "--info=progress2"@ && #[trigger] opts.contains(w) implies (d.contains(w) || y.contains(w)) by {
            let k = choose|k: int| 0 <= k < opts.len() && opts[k] == w;
            if 2 <= k < 14 {
                let m = k - 2;
                assert(f[m] == (if m % 2 == 0 { "--exclude"@ } else { exclude_patterns()[m / 2] }));
            } else if k >= 14 + d.len() + y.len() {
                assert(progress && opts[k] == "--info=progress2"@);
            } else if k >= 14 + d.len() {
                assert(y[k - 14 - d.len()] == w);
            } else if k >= 14 {
                assert(d[k - 14] == w);
            }
        }
    }
    if delete {
        assert(opts[14] == "--delete"@);
    } else {
        assert(!d.contains("--delete"@));
        assert(!y.contains("--delete"@)) by {
            if dry_run {
                assert(y[0] != "--delete"@ && y[1] != "--delete"@);
            }
        }
    }
    if dry_run {
        assert(opts[14 + d.len() as int] == "--dry-run"@);
    } else {
        assert(!y.contains("--dry-run"@));
        assert(!d.contains("--dry-run"@)) by {
            if delete {
                assert(d[0] != "--dry-run"@);
            }
        }
    }
}

// ---------------------------------------------------------------------------
// reclaim, discard and status, step by step
// ---------------------------------------------------------------------------

/// Once `reclaim` has removed the NAS lease directory, it forgets this machine's
/// record of the old lease before it takes a lease again, so that the old record
/// is never resumed; the lease is taken (read of the record, then the claim) only
/// after forgetting succeeded, and `reclaim` reports success only once a lease was
/// acquired.
pub proof fn reclaim_forgets_the_old_record_before_taking_a_lease(
    c: Context,
    p: Seq<char>,
    s: ReclaimStepView,
    e: EventView,
    fresh: LeaseView,
)
    requires
        reclaim_answers(s, e),
    ensures
        (s is DropRemote && (e matches EventView::Ran(r) && remote_checked(c, "rm"@, r) is Ok)) ==> (
        reclaim_next(c, p, s, e, fresh).0 == Some(ReclaimStepView::Forget) && reclaim_next(
            c,
            p,
            s,
            e,
            fresh,
        ).1.effect == EffectView::RemoveLocalLease(p)),
        reclaim_next(c, p, s, e, fresh).1.effect is ReadLocalLease ==> s is Forget && e matches EventView::Done(Ok(_)),
        reclaim_next(c, p, s, e, fresh).0 matches Some(ReclaimStepView::Forget) ==> s is DropRemote,
        reclaim_next(c, p, s, e, fresh).1.effect == EffectView::Finish(Ok(())) ==> (s matches ReclaimStepView::Acquiring(
            a,
        ) && acquire_next(c, p, a, e, fresh) is Acquired),
{
}

/// `discard` stops at the checkout only when something other than a directory is
/// there; with no checkout at all it goes on to the lease, and after the lease
/// check it removes a tree only when the checkout is a directory.
pub proof fn discard_goes_on_without_a_checkout(c: Context, p: Seq<char>, k: PathKind, lease: LeaseView)
    ensures
        (discard_next(c, p, DiscardStepView::Inspect, EventView::Path(k)).0 is None) <==> k == PathKind::Other,
        k != PathKind::Other ==> discard_next(c, p, DiscardStepView::Inspect, EventView::Path(k)).1.effect
            == EffectView::ReadLocalLease(p),
        k == PathKind::Other ==> discard_next(c, p, DiscardStepView::Inspect, EventView::Path(k)).1.effect
            == EffectView::Finish(Err(ErrorView::CheckoutMissing(path_join(c.config.workspace_root@, p)))),
        (discard_next(c, p, DiscardStepView::Reinspect { lease }, EventView::Path(k)).1.effect is RemoveTree)
            <==> k == PathKind::Directory,
        discard_next(c, p, DiscardStepView::Reinspect { lease }, EventView::Path(k)).0 is Some,
{
}

/// The projects that `status` has gathered, once it has them.
pub open spec fn gathered_projects(s: StatusStepView) -> Option<Seq<Seq<char>>> {
    match s {
        StatusStepView::Projects(_) => None,
        StatusStepView::Leases { projects, .. } => Some(projects),
        StatusStepView::Local { projects, .. } => Some(projects),
        StatusStepView::Legacy { projects, .. } => Some(projects),
    }
}

/// `status` reports as projects exactly the names listed under the NAS root other
/// than the control directory `.busy-nas`, and carries them unchanged to the end.
pub proof fn status_reports_every_listed_project(c: Context, s: StatusStepView, e: EventView)
    requires
        status_answers(s, e),
    ensures
        s matches StatusStepView::Projects(listing) ==> (listing_next(c, c.config.nas.root@, listing, e) matches ListingOutcomeView::Listed(
            names,
        ) ==> (gathered_projects(status_next(c, s, e).0->0) matches Some(projects) && projects.to_set()
            == names.to_set().remove(".busy-nas"@))),
        gathered_projects(s) matches Some(projects) ==> ((status_next(c, s, e).0 matches Some(n) ==> gathered_projects(n)
            == Some(projects)) && (status_next(c, s, e).1.effect matches EffectView::FinishStatus(Ok(st))
            ==> st.projects == projects)),
{
    match s {
        StatusStepView::Projects(listing) => {
            match listing_next(c, c.config.nas.root@, listing, e) {
                ListingOutcomeView::Listed(names) => {
                    let kept = without_control(names);
                    lemma_without_control_set(names);
                    lemma_in_sorted_order_sorted(kept);
                    let projects = in_sorted_order(kept);
                    assert forall|x: Seq<char>| projects.to_set().contains(x) <==> kept.to_set().contains(x) by {
                        to_multiset_contains(projects, x);
                        to_multiset_contains(kept, x);
                    }
                    assert(projects.to_set() =~= kept.to_set());
                },
                _ => {},
            }
        },
        _ => {},
    }
}

proof fn lemma_without_control_set(names: Seq<Seq<char>>)
    ensures
        without_control(names).to_set() == names.to_set().remove(".busy-nas"@),
    decreases names.len(),
{
    if names.len() == 0 {
        assert(without_control(names).to_set() =~= names.to_set().remove(".busy-nas"@));
    } else {
        let init = names.drop_last();
        lemma_without_control_set(init);
        let prev = without_control(init);
        assert(names =~= init.push(names.last()));
        assert(names.to_set() =~= init.to_set().insert(names.last())) by {
            assert forall|x: Seq<char>| names.to_set().contains(x) implies init.to_set().insert(names.last()).contains(x) by {
                let k = choose|k: int| 0 <= k < names.len() && names[k] == x;
                if k < init.len() {
                    assert(init[k] == x);
                }
            }
            assert forall|x: Seq<char>| init.to_set().insert(names.last()).contains(x) implies names.to_set().contains(x) by {
                if x == names.last() {
                    assert(names[names.len() - 1] == x);
                } else {
                    let k = choose|k: int| 0 <= k < init.len() && init[k] == x;
                    assert(names[k] == x);
                }
            }
        }
        if names.last() != ".busy-nas"@ {
            assert(prev.push(names.last()).to_set() =~= prev.to_set().insert(names.last())) by {
                assert forall|x: Seq<char>| prev.push(names.last()).to_set().contains(x) implies prev.to_set().insert(names.last()).contains(x) by {
                    let k = choose|k: int| 0 <= k < prev.len() + 1 && prev.push(names.last())[k] == x;
                    if k < prev.len() {
                        assert(prev[k] == x);
                    }
                }
                assert forall|x: Seq<char>| prev.to_set().insert(names.last()).contains(x) implies prev.push(names.last()).to_set().contains(x) by {
                    if x == names.last() {
                        assert(prev.push(names.last())[prev.len() as int] == x);
                    } else {
                        let k = choose|k: int| 0 <= k < prev.len() && prev[k] == x;
                        assert(prev.push(names.last())[k] == x);
                    }
                }
            }
        }
        assert(without_control(names).to_set() =~= names.to_set().remove(".busy-nas"@));
    }
}

} // verus!

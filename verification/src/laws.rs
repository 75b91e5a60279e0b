//! Session-wide laws: facts that hold across any sequence of mutations,
//! proved from the mutation relation that every `mark_*` operation
//! guarantees in its contract.

use vstd::prelude::*;

use crate::engine::{spec_max, spec_min};
use crate::session::{step_rel, BisectData, SessionEvent};

verus! {

/// A state reached from `d0` by some chain of mutations, each one
/// admitted by [`step_rel`].
pub open spec fn reach(d0: BisectData, es: Seq<SessionEvent>, d: BisectData) -> bool
    decreases es.len(),
{
    if es.len() == 0 {
        d == d0
    } else {
        exists|mid: BisectData| reach(d0, es.drop_last(), mid) && step_rel(mid, es.last(), d)
    }
}

/// One mutation keeps the session well-formed and never touches the
/// original revision or the configured terms.
pub proof fn lemma_step_preserves(pre: BisectData, e: SessionEvent, post: BisectData)
    requires
        pre.wf(),
        step_rel(pre, e, post),
    ensures
        post.wf(),
        post.original_rev == pre.original_rev,
        post.term_good == pre.term_good,
        post.term_bad == pre.term_bad,
{
}

/// No chain of mutations can break the session invariant, and none can
/// move the revision captured at `start`.
pub proof fn lemma_reach_preserves(d0: BisectData, es: Seq<SessionEvent>, d: BisectData)
    requires
        d0.wf(),
        reach(d0, es, d),
    ensures
        d.wf(),
        d.original_rev == d0.original_rev,
    decreases es.len(),
{
    if es.len() > 0 {
        let mid = choose|mid: BisectData|
            reach(d0, es.drop_last(), mid) && step_rel(mid, es.last(), d);
        lemma_reach_preserves(d0, es.drop_last(), mid);
        lemma_step_preserves(mid, es.last(), d);
    }
}

/// The ordering invariant: however the session was mutated, whenever both
/// bounds are set the lower bound strictly precedes the upper bound —
/// mutations that would violate this are rejected, never applied.
pub proof fn lemma_bounds_stay_ordered(d0: BisectData, es: Seq<SessionEvent>, d: BisectData)
    requires
        d0.wf(),
        reach(d0, es, d),
        d.spec_is_ready(),
    ensures
        spec_min(d) < spec_max(d),
{
    lemma_reach_preserves(d0, es, d);
}

/// Reset restores: after any chain of mutations, a reset without an
/// explicit target goes back to the revision captured when the session
/// started.
pub proof fn lemma_reset_restores_original(d0: BisectData, es: Seq<SessionEvent>, d: BisectData)
    requires
        d0.wf(),
        reach(d0, es, d),
    ensures
        crate::session::spec_reset_revision(d, None) == d0.original_rev,
{
    lemma_reach_preserves(d0, es, d);
}

/// Skipping is idempotent: when every incoming revision is already in the
/// skip set, the newly-skipped list that `mark_skipped_revisions` reports
/// is empty — so the caller writes no log line and triggers no narrowing,
/// and the state is unchanged.
pub proof fn lemma_reskip_yields_nothing(pre: BisectData, incoming: Seq<u64>, newly: Seq<u64>)
    requires
        forall|y: u64| #[trigger] incoming.contains(y) ==> pre.skipped@.contains(y),
        forall|y: u64| #[trigger]
            newly.contains(y) <==> (incoming.contains(y) && !pre.skipped@.contains(y)),
    ensures
        newly.len() == 0,
{
    if newly.len() > 0 {
        assert(newly.contains(newly[0]));
    }
}

} // verus!

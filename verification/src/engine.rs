//! The narrowing algorithm: one step of the binary search over the
//! candidate revisions between the two bounds.

use vstd::prelude::*;

use vstd::arithmetic::power2::{lemma_pow2_strictly_increases, lemma2_to64, pow2};

use crate::revset::{contains_rev, sorted_desc};
use crate::session::BisectData;

verus! {

/// What one narrowing step reports.
#[derive(Debug)]
pub enum BisectOutcome {
    /// No candidate is left between the bounds: the upper bound is the
    /// first bad revision.
    Found { revision: u64 },
    /// Candidates remain but every one of them is skipped: the first bad
    /// revision is the upper bound or any of the candidates.
    Inconclusive { revision: u64, candidates: Vec<u64> },
    /// Test `next`; `remaining` testable revisions are left, roughly
    /// `steps` more rounds.
    Continue { next: u64, remaining: usize, steps: u32 },
}

/// The upper bound of a ready session.
pub open spec fn spec_max(d: BisectData) -> u64
    recommends
        d.max_rev is Some,
{
    d.max_rev.unwrap()
}

/// The lower bound of a ready session.
pub open spec fn spec_min(d: BisectData) -> u64
    recommends
        d.min_rev is Some,
{
    d.min_rev.unwrap()
}

/// The candidates: the supplied list with both endpoints (the bounds
/// themselves) removed.
pub open spec fn spec_candidates(extant: Seq<u64>) -> Seq<u64>
    recommends
        extant.len() >= 2,
{
    extant.subrange(1, extant.len() - 1)
}

/// The candidates with the skipped revisions filtered out, in order.
pub open spec fn spec_testable(cands: Seq<u64>, skipped: Seq<u64>) -> Seq<u64>
    decreases cands.len(),
{
    if cands.len() == 0 {
        Seq::<u64>::empty()
    } else {
        let rest = spec_testable(cands.drop_last(), skipped);
        if skipped.contains(cands.last()) {
            rest
        } else {
            rest.push(cands.last())
        }
    }
}

/// The testable list of a session against a fetched revision list.
pub open spec fn spec_engine_testable(d: BisectData, extant: Seq<u64>) -> Seq<u64> {
    spec_testable(spec_candidates(extant), d.skipped@)
}

/// The number of rounds a binary search needs: the least `r` with
/// `pow2(r) >= n`.
fn ceil_log2(n: usize) -> (r: u32)
    requires
        n >= 1,
    ensures
        pow2(r as nat) >= n,
        r > 0 ==> pow2((r - 1) as nat) < n,
{
    let mut m: usize = n - 1;
    let mut r: u32 = 0;
    proof {
        lemma2_to64();
    }
    while m > 0
        invariant
            n >= 1,
            m * pow2(r as nat) <= n - 1,
            n - 1 < (m + 1) * pow2(r as nat),
            r > 0 ==> pow2((r - 1) as nat) <= n - 1,
            r <= 64,
        decreases m,
    {
        proof {
            assert(pow2((r + 1) as nat) == 2 * pow2(r as nat)) by {
                vstd::arithmetic::power2::lemma_pow2_unfold((r + 1) as nat);
            }
            let p = pow2(r as nat) as int;
            let m2 = (m / 2) as int;
            assert(m == 2 * m2 || m == 2 * m2 + 1);
            assert(m2 * (2 * p) <= m * p) by (nonlinear_arith)
                requires
                    p >= 0,
                    m == 2 * m2 || m == 2 * m2 + 1,
                    m2 >= 0,
            ;
            assert((m + 1) * p <= (m2 + 1) * (2 * p)) by (nonlinear_arith)
                requires
                    p >= 0,
                    m == 2 * m2 || m == 2 * m2 + 1,
                    m2 >= 0,
            ;
            assert(1 * p <= m * p) by (nonlinear_arith)
                requires
                    m >= 1,
                    p >= 0,
            ;
            if r >= 64 {
                lemma2_to64();
                vstd::arithmetic::power2::lemma2_to64_rest();
                if r > 64 {
                    lemma_pow2_strictly_increases(64, r as nat);
                }
                assert(pow2(64) <= pow2(r as nat));
                assert(m * pow2(r as nat) >= pow2(r as nat)) by (nonlinear_arith)
                    requires
                        m >= 1,
                        pow2(r as nat) >= 0,
                ;
                assert(false);
            }
        }
        m = m / 2;
        r = r + 1;
    }
    proof {
        assert(m == 0);
        assert((m + 1) * pow2(r as nat) == pow2(r as nat)) by (nonlinear_arith)
            requires
                m == 0,
        ;
        assert(n - 1 < pow2(r as nat));
    }
    r
}

/// One narrowing step.
///
/// `extant` is the externally fetched list of every revision from the
/// upper bound down to the lower bound, inclusive, newest first.  The
/// endpoints are dropped, the skipped revisions are filtered out with the
/// order kept, and the step reports: the upper bound as the answer when
/// nothing is left between the bounds; the whole candidate list when all
/// of it is skipped; otherwise the middle testable revision to try next,
/// so that repeating this step performs a binary search over the
/// unskipped candidates.
pub fn perform_bisect(data: &BisectData, extant: &Vec<u64>) -> (r: BisectOutcome)
    requires
        data.wf(),
        data.spec_is_ready(),
        extant@.len() >= 2,
        sorted_desc(extant@),
        extant@[0] == spec_max(*data),
        extant@[extant@.len() - 1] == spec_min(*data),
    ensures
        spec_candidates(extant@).len() == 0 ==> (r matches BisectOutcome::Found { revision }
            && revision == spec_max(*data)),
        spec_candidates(extant@).len() > 0 && spec_engine_testable(*data, extant@).len() == 0 ==> (
        r matches BisectOutcome::Inconclusive { revision, candidates } && revision == spec_max(
            *data,
        ) && candidates@ == spec_candidates(extant@)),
        spec_engine_testable(*data, extant@).len() > 0 ==> (r matches BisectOutcome::Continue {
            next,
            remaining,
            steps,
        } && next == spec_engine_testable(*data, extant@)[spec_engine_testable(
            *data,
            extant@,
        ).len() as int / 2] && remaining == spec_engine_testable(*data, extant@).len() && pow2(
            steps as nat,
        ) >= remaining && (steps > 0 ==> pow2((steps - 1) as nat) < remaining)),
{
    let len = extant.len();
    let mut candidates: Vec<u64> = Vec::new();
    let mut i: usize = 1;
    while i < len - 1
        invariant
            1 <= i <= len - 1,
            len == extant@.len(),
            len >= 2,
            candidates@ == extant@.subrange(1, i as int),
        decreases len - 1 - i,
    {
        candidates.push(extant[i]);
        assert(candidates@ =~= extant@.subrange(1, i as int + 1));
        i = i + 1;
    }
    assert(candidates@ == spec_candidates(extant@));
    let mut testable: Vec<u64> = Vec::new();
    let mut j: usize = 0;
    while j < candidates.len()
        invariant
            0 <= j <= candidates@.len(),
            testable@ == spec_testable(candidates@.take(j as int), data.skipped@),
        decreases candidates@.len() - j,
    {
        let x = candidates[j];
        assert(candidates@.take(j as int + 1).drop_last() =~= candidates@.take(j as int));
        assert(candidates@.take(j as int + 1).last() == x);
        if !contains_rev(&data.skipped, x) {
            testable.push(x);
        }
        j = j + 1;
    }
    assert(candidates@.take(candidates@.len() as int) =~= candidates@);
    assert(testable@ == spec_engine_testable(*data, extant@));
    let max_rev = data.max_rev.unwrap();
    if candidates.len() == 0 {
        BisectOutcome::Found { revision: max_rev }
    } else if testable.len() == 0 {
        BisectOutcome::Inconclusive { revision: max_rev, candidates }
    } else {
        let remaining = testable.len();
        let steps = ceil_log2(remaining);
        let next = testable[remaining / 2];
        BisectOutcome::Continue { next, remaining, steps }
    }
}

} // verus!

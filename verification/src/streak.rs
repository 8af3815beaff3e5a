//! Counting failures in a row: the rule behind both the liveness watch and
//! the restart policy, which give up once a run of failures grows long enough.

use vstd::prelude::*;

verus! {

/// One outcome: `None` once this failure completes a run of `limit` failures
/// in a row, else the new length of the current run.
pub open spec fn streak_step(limit: nat, run: nat, ok: bool) -> Option<nat> {
    if ok {
        Some(0)
    } else if run + 1 >= limit {
        None
    } else {
        Some(run + 1)
    }
}

/// Starting with a run of `run` failures, the index in `outcomes` (from `i`
/// on) at which the counting gives up.
pub open spec fn streak_gives_up_at(limit: nat, run: nat, outcomes: Seq<bool>, i: int) -> Option<
    int,
>
    decreases outcomes.len() - i,
{
    if i < 0 || i >= outcomes.len() {
        None
    } else {
        match streak_step(limit, run, outcomes[i]) {
            None => Some(i),
            Some(r) => streak_gives_up_at(limit, r, outcomes, i + 1),
        }
    }
}

/// Outcome `k` is a failure that ends a run of `limit` failures in a row.
pub open spec fn ends_failure_run(outcomes: Seq<bool>, k: int, limit: nat) -> bool {
    &&& 0 <= k < outcomes.len()
    &&& limit <= k + 1
    &&& forall|j: int| k - limit < j <= k ==> !#[trigger] outcomes[j]
}

/// The number of failures in a row just before index `i`.
pub open spec fn failures_before(outcomes: Seq<bool>, i: int) -> nat
    decreases i,
{
    if i <= 0 || i > outcomes.len() || outcomes[i - 1] {
        0
    } else {
        1 + failures_before(outcomes, i - 1)
    }
}

proof fn lemma_failures_before(outcomes: Seq<bool>, i: int, m: nat)
    requires
        0 <= i <= outcomes.len(),
        m <= i,
    ensures
        failures_before(outcomes, i) >= m <==> forall|j: int| i - m <= j < i ==> !#[trigger] outcomes[j],
    decreases m,
{
    if m > 0 {
        if !outcomes[i - 1] {
            lemma_failures_before(outcomes, i - 1, (m - 1) as nat);
            if forall|j: int| i - 1 - (m - 1) <= j < i - 1 ==> !#[trigger] outcomes[j] {
                assert forall|j: int| i - m <= j < i implies !#[trigger] outcomes[j] by {
                    if j < i - 1 {
                    }
                }
            }
        } else {
            assert(failures_before(outcomes, i) == 0);
            assert(i - m <= i - 1 < i);
        }
    }
}

proof fn lemma_ends_run(outcomes: Seq<bool>, k: int, limit: nat)
    requires
        0 <= k < outcomes.len(),
        limit >= 1,
    ensures
        ends_failure_run(outcomes, k, limit) <==> failures_before(outcomes, k + 1) >= limit,
{
    if limit <= k + 1 {
        lemma_failures_before(outcomes, k + 1, limit);
    } else {
        if failures_before(outcomes, k + 1) >= limit {
            lemma_failures_before_bound(outcomes, k + 1);
        }
    }
}

proof fn lemma_failures_before_bound(outcomes: Seq<bool>, i: int)
    ensures
        failures_before(outcomes, i) <= if i < 0 {
            0
        } else {
            i
        },
    decreases i,
{
    if i > 0 && i <= outcomes.len() && !outcomes[i - 1] {
        lemma_failures_before_bound(outcomes, i - 1);
    }
}

proof fn lemma_streak_run(limit: nat, outcomes: Seq<bool>, run: nat, i: int)
    requires
        limit >= 1,
        0 <= i <= outcomes.len(),
        run == failures_before(outcomes, i),
        run < limit,
        forall|j: int| 0 <= j < i ==> !ends_failure_run(outcomes, j, limit),
    ensures
        match streak_gives_up_at(limit, run, outcomes, i) {
            Some(k) => ends_failure_run(outcomes, k, limit) && forall|j: int|
                0 <= j < k ==> !ends_failure_run(outcomes, j, limit),
            None => forall|j: int|
                0 <= j < outcomes.len() ==> !ends_failure_run(outcomes, j, limit),
        },
    decreases outcomes.len() - i,
{
    if i < outcomes.len() {
        lemma_ends_run(outcomes, i, limit);
        if outcomes[i] {
            assert(failures_before(outcomes, i + 1) == 0);
            lemma_streak_run(limit, outcomes, 0, i + 1);
        } else {
            assert(failures_before(outcomes, i + 1) == run + 1);
            if run + 1 < limit {
                lemma_streak_run(limit, outcomes, run + 1, i + 1);
            }
        }
    } else {
        assert forall|j: int| 0 <= j < outcomes.len() implies !ends_failure_run(
            outcomes,
            j,
            limit,
        ) by {}
    }
}

/// Counting failures in a row gives up exactly at the first failure that ends
/// a run of `limit` failures in a row, and never while no such run happened.
pub proof fn law_gives_up_at_first_full_run(limit: nat, outcomes: Seq<bool>)
    requires
        limit >= 1,
    ensures
        match streak_gives_up_at(limit, 0, outcomes, 0) {
            Some(k) => ends_failure_run(outcomes, k, limit) && forall|j: int|
                0 <= j < k ==> !ends_failure_run(outcomes, j, limit),
            None => forall|j: int|
                0 <= j < outcomes.len() ==> !ends_failure_run(outcomes, j, limit),
        },
{
    lemma_streak_run(limit, outcomes, 0, 0);
}

/// One step of the count, taken at outcome `i` with the run that precedes it:
/// it gives up exactly when outcome `i` ends a run of `limit` failures, and
/// otherwise moves to the run that precedes outcome `i + 1`.
pub proof fn lemma_step_tracks_run(limit: nat, outcomes: Seq<bool>, i: int)
    requires
        limit >= 1,
        0 <= i < outcomes.len(),
    ensures
        match streak_step(limit, failures_before(outcomes, i), outcomes[i]) {
            None => ends_failure_run(outcomes, i, limit),
            Some(r) => r == failures_before(outcomes, i + 1) && !ends_failure_run(
                outcomes,
                i,
                limit,
            ),
        },
{
    lemma_ends_run(outcomes, i, limit);
    if !outcomes[i] {
        assert(failures_before(outcomes, i + 1) == failures_before(outcomes, i) + 1);
    } else {
        assert(failures_before(outcomes, i + 1) == 0);
    }
}

} // verus!

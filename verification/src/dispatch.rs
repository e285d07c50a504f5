//! The action dispatcher and response aggregator.
//!
//! Each target of an authorized batch is attempted once and independently:
//! one target's failure never aborts the batch or rolls back earlier
//! successes. The external calls themselves happen outside the engine; the
//! engine plans one action per target, and afterwards takes the per-target
//! outcomes, writes exactly one audit record per confirmed success, and
//! partitions the batch into succeeded and failed targets in input order.

use vstd::prelude::*;

use crate::audit::AuditLog;
use crate::duration::to_absolute;
use crate::models::{InfractionModel, Punishment, PunishmentModel, UserInfractionModel};

verus! {

/// One dispatchable action, carrying its own payload.
#[derive(Clone, Copy, Debug, PartialEq, Eq, Structural)]
pub enum Action {
    /// Deliver the reason to the target as a private warning.
    Strike,
    /// Restrict the target until the absolute expiry instant.
    Timeout { until: u64 },
    /// Remove the target, purging its messages of the given window.
    Ban { purge_window_seconds: u64 },
    /// Remove the target from the community.
    Kick,
    /// Compensating action: lift a ban.
    Unban,
    /// Compensating action: clear a timeout.
    Untimeout,
}

/// The action a punishment kind dispatches. Only a timeout carries the
/// duration, converted to an absolute expiry; a policy ban purges nothing.
pub open spec fn spec_action_for(kind: Punishment, now: int, duration_seconds: int) -> Action {
    match kind {
        Punishment::Strike => Action::Strike,
        Punishment::Timeout => Action::Timeout { until: (now + duration_seconds) as u64 },
        Punishment::Ban => Action::Ban { purge_window_seconds: 0 },
        Punishment::Kick => Action::Kick,
        Punishment::Unban => Action::Unban,
        Punishment::Untimeout => Action::Untimeout,
    }
}

/// Turn a punishment kind into the action to dispatch, computing a timeout's
/// absolute expiry from the current instant and the policy duration.
pub fn action_for(kind: Punishment, now: u64, duration_seconds: u64) -> (a: Action)
    requires
        now + duration_seconds <= u64::MAX,
    ensures
        a == spec_action_for(kind, now as int, duration_seconds as int),
{
    match kind {
        Punishment::Strike => Action::Strike,
        Punishment::Timeout => Action::Timeout { until: to_absolute(now, duration_seconds) },
        Punishment::Ban => Action::Ban { purge_window_seconds: 0 },
        Punishment::Kick => Action::Kick,
        Punishment::Unban => Action::Unban,
        Punishment::Untimeout => Action::Untimeout,
    }
}

/// Plan one action per target, in input order.
pub fn plan_actions(targets: &Vec<u64>, kind: Punishment, now: u64, duration_seconds: u64) -> (r:
    Vec<(u64, Action)>)
    requires
        now + duration_seconds <= u64::MAX,
    ensures
        r@.len() == targets@.len(),
        forall|k: int|
            0 <= k < targets@.len() ==> #[trigger] r@[k] == (
            targets@[k],
            spec_action_for(kind, now as int, duration_seconds as int),
            ),
{
    let a = action_for(kind, now, duration_seconds);
    let mut r: Vec<(u64, Action)> = Vec::new();
    let mut i: usize = 0;
    while i < targets.len()
        invariant
            0 <= i <= targets@.len(),
            r@.len() == i,
            forall|k: int|
                0 <= k < i ==> #[trigger] r@[k] == (
                targets@[k],
                spec_action_for(kind, now as int, duration_seconds as int),
                ),
            a == spec_action_for(kind, now as int, duration_seconds as int),
        decreases targets@.len() - i,
    {
        r.push((targets[i], a));
        i = i + 1;
    }
    r
}

/// The targets whose dispatch succeeded, in input order.
pub open spec fn succeeded_of(targets: Seq<u64>, ok: Seq<bool>) -> Seq<u64>
    recommends
        targets.len() == ok.len(),
    decreases targets.len(),
{
    if targets.len() == 0 {
        Seq::empty()
    } else {
        let pre = succeeded_of(targets.drop_last(), ok.drop_last());
        if ok.last() {
            pre.push(targets.last())
        } else {
            pre
        }
    }
}

/// The targets whose dispatch failed, in input order.
pub open spec fn failed_of(targets: Seq<u64>, ok: Seq<bool>) -> Seq<u64>
    recommends
        targets.len() == ok.len(),
    decreases targets.len(),
{
    if targets.len() == 0 {
        Seq::empty()
    } else {
        let pre = failed_of(targets.drop_last(), ok.drop_last());
        if !ok.last() {
            pre.push(targets.last())
        } else {
            pre
        }
    }
}

/// How many outcomes of the batch were successes.
pub open spec fn count_true(ok: Seq<bool>) -> nat
    decreases ok.len(),
{
    if ok.len() == 0 {
        0
    } else {
        count_true(ok.drop_last()) + if ok.last() {
            1nat
        } else {
            0nat
        }
    }
}

/// Every target lands in exactly one half of the report: the succeeded
/// sequence holds one entry per successful outcome and the failed sequence
/// the rest, so together they partition the batch.
pub proof fn lemma_report_partition(targets: Seq<u64>, ok: Seq<bool>)
    requires
        targets.len() == ok.len(),
    ensures
        succeeded_of(targets, ok).len() == count_true(ok),
        succeeded_of(targets, ok).len() + failed_of(targets, ok).len() == targets.len(),
    decreases targets.len(),
{
    if targets.len() > 0 {
        lemma_report_partition(targets.drop_last(), ok.drop_last());
    }
}

/// Partition per-target outcomes into succeeded and failed targets, both in
/// the order the targets were given.
pub fn aggregate(targets: &Vec<u64>, ok: &Vec<bool>) -> (r: (Vec<u64>, Vec<u64>))
    requires
        targets@.len() == ok@.len(),
    ensures
        r.0@ == succeeded_of(targets@, ok@),
        r.1@ == failed_of(targets@, ok@),
{
    let mut succeeded: Vec<u64> = Vec::new();
    let mut failed: Vec<u64> = Vec::new();
    let mut i: usize = 0;
    while i < targets.len()
        invariant
            0 <= i <= targets@.len(),
            targets@.len() == ok@.len(),
            succeeded@ == succeeded_of(targets@.take(i as int), ok@.take(i as int)),
            failed@ == failed_of(targets@.take(i as int), ok@.take(i as int)),
        decreases targets@.len() - i,
    {
        proof {
            assert(targets@.take(i + 1 as int).drop_last() =~= targets@.take(i as int));
            assert(ok@.take(i + 1 as int).drop_last() =~= ok@.take(i as int));
            assert(targets@.take(i + 1 as int).last() == targets@[i as int]);
            assert(ok@.take(i + 1 as int).last() == ok@[i as int]);
        }
        if ok[i] {
            succeeded.push(targets[i]);
        } else {
            failed.push(targets[i]);
        }
        i = i + 1;
    }
    proof {
        assert(targets@.take(targets@.len() as int) =~= targets@);
        assert(ok@.take(ok@.len() as int) =~= ok@);
    }
    (succeeded, failed)
}

/// Record the outcome of a policy-driven batch: one policy-linked audit
/// record per confirmed success, written in input order, none for failures;
/// then the partitioned report.
pub fn record_policy_outcomes(
    log: &mut AuditLog,
    infraction_id: i32,
    targets: &Vec<u64>,
    ok: &Vec<bool>,
    created_at: i64,
) -> (r: (Vec<u64>, Vec<u64>))
    requires
        old(log).wf(),
        targets@.len() == ok@.len(),
        old(log).next_linked_id() + targets@.len() <= i32::MAX,
    ensures
        final(log).wf(),
        r.0@ == succeeded_of(targets@, ok@),
        r.1@ == failed_of(targets@, ok@),
        final(log).ad_hoc() == old(log).ad_hoc(),
        final(log).next_ad_hoc_id() == old(log).next_ad_hoc_id(),
        final(log).linked().len() == old(log).linked().len() + r.0@.len(),
        final(log).next_linked_id() == old(log).next_linked_id() + r.0@.len(),
        forall|k: int|
            0 <= k < old(log).linked().len() ==> #[trigger] final(log).linked()[k] == old(
                log,
            ).linked()[k],
        forall|k: int|
            0 <= k < r.0@.len() ==> #[trigger] final(log).linked()[old(log).linked().len() + k]
                == (UserInfractionModel {
                id: (old(log).next_linked_id() + k) as i32,
                user_id: succeeded_of(targets@, ok@)[k],
                infraction_id,
                created_at,
            }),
{
    let ghost base = log.linked();
    let ghost base_next = log.next_linked_id();
    let mut succeeded: Vec<u64> = Vec::new();
    let mut failed: Vec<u64> = Vec::new();
    let mut i: usize = 0;
    while i < targets.len()
        invariant
            0 <= i <= targets@.len(),
            targets@.len() == ok@.len(),
            log.wf(),
            base == old(log).linked(),
            base_next == old(log).next_linked_id(),
            base_next + targets@.len() <= i32::MAX,
            succeeded@ == succeeded_of(targets@.take(i as int), ok@.take(i as int)),
            failed@ == failed_of(targets@.take(i as int), ok@.take(i as int)),
            log.ad_hoc() == old(log).ad_hoc(),
            log.next_ad_hoc_id() == old(log).next_ad_hoc_id(),
            log.linked().len() == base.len() + succeeded@.len(),
            log.next_linked_id() == base_next + succeeded@.len(),
            forall|k: int| 0 <= k < base.len() ==> #[trigger] log.linked()[k] == base[k],
            forall|k: int|
                0 <= k < succeeded@.len() ==> #[trigger] log.linked()[base.len() + k] == (
                UserInfractionModel {
                    id: (base_next + k) as i32,
                    user_id: succeeded@[k],
                    infraction_id,
                    created_at,
                }),
        decreases targets@.len() - i,
    {
        proof {
            assert(targets@.take(i + 1 as int).drop_last() =~= targets@.take(i as int));
            assert(ok@.take(i + 1 as int).drop_last() =~= ok@.take(i as int));
            assert(targets@.take(i + 1 as int).last() == targets@[i as int]);
            assert(ok@.take(i + 1 as int).last() == ok@[i as int]);
            lemma_report_partition(targets@.take(i as int), ok@.take(i as int));
        }
        if ok[i] {
            let ghost lk = log.linked();
            log.log_for_policy(targets[i], infraction_id, created_at);
            succeeded.push(targets[i]);
            proof {
                assert(forall|k: int|
                    0 <= k < lk.len() ==> #[trigger] log.linked()[k] == lk[k]);
            }
        } else {
            failed.push(targets[i]);
        }
        i = i + 1;
    }
    proof {
        assert(targets@.take(targets@.len() as int) =~= targets@);
        assert(ok@.take(ok@.len() as int) =~= ok@);
    }
    (succeeded, failed)
}

/// Record the outcome of an ad hoc batch: one ad hoc audit record per
/// confirmed success, written in input order, none for failures; then the
/// partitioned report.
pub fn record_ad_hoc_outcomes(
    log: &mut AuditLog,
    punishment: Punishment,
    duration: i32,
    targets: &Vec<u64>,
    ok: &Vec<bool>,
    created_at: i64,
) -> (r: (Vec<u64>, Vec<u64>))
    requires
        old(log).wf(),
        targets@.len() == ok@.len(),
        old(log).next_ad_hoc_id() + targets@.len() <= i32::MAX,
    ensures
        final(log).wf(),
        r.0@ == succeeded_of(targets@, ok@),
        r.1@ == failed_of(targets@, ok@),
        final(log).linked() == old(log).linked(),
        final(log).next_linked_id() == old(log).next_linked_id(),
        final(log).ad_hoc().len() == old(log).ad_hoc().len() + r.0@.len(),
        final(log).next_ad_hoc_id() == old(log).next_ad_hoc_id() + r.0@.len(),
        forall|k: int|
            0 <= k < old(log).ad_hoc().len() ==> #[trigger] final(log).ad_hoc()[k] == old(
                log,
            ).ad_hoc()[k],
        forall|k: int|
            0 <= k < r.0@.len() ==> #[trigger] final(log).ad_hoc()[old(log).ad_hoc().len() + k]
                == (PunishmentModel {
                id: (old(log).next_ad_hoc_id() + k) as i32,
                user_id: succeeded_of(targets@, ok@)[k],
                punishment,
                duration,
                created_at,
            }),
{
    let ghost base = log.ad_hoc();
    let ghost base_next = log.next_ad_hoc_id();
    let mut succeeded: Vec<u64> = Vec::new();
    let mut failed: Vec<u64> = Vec::new();
    let mut i: usize = 0;
    while i < targets.len()
        invariant
            0 <= i <= targets@.len(),
            targets@.len() == ok@.len(),
            log.wf(),
            base == old(log).ad_hoc(),
            base_next == old(log).next_ad_hoc_id(),
            base_next + targets@.len() <= i32::MAX,
            succeeded@ == succeeded_of(targets@.take(i as int), ok@.take(i as int)),
            failed@ == failed_of(targets@.take(i as int), ok@.take(i as int)),
            log.linked() == old(log).linked(),
            log.next_linked_id() == old(log).next_linked_id(),
            log.ad_hoc().len() == base.len() + succeeded@.len(),
            log.next_ad_hoc_id() == base_next + succeeded@.len(),
            forall|k: int| 0 <= k < base.len() ==> #[trigger] log.ad_hoc()[k] == base[k],
            forall|k: int|
                0 <= k < succeeded@.len() ==> #[trigger] log.ad_hoc()[base.len() + k] == (
                PunishmentModel {
                    id: (base_next + k) as i32,
                    user_id: succeeded@[k],
                    punishment,
                    duration,
                    created_at,
                }),
        decreases targets@.len() - i,
    {
        proof {
            assert(targets@.take(i + 1 as int).drop_last() =~= targets@.take(i as int));
            assert(ok@.take(i + 1 as int).drop_last() =~= ok@.take(i as int));
            assert(targets@.take(i + 1 as int).last() == targets@[i as int]);
            assert(ok@.take(i + 1 as int).last() == ok@[i as int]);
            lemma_report_partition(targets@.take(i as int), ok@.take(i as int));
        }
        if ok[i] {
            let ghost lk = log.ad_hoc();
            log.log_ad_hoc(targets[i], punishment, duration, created_at);
            succeeded.push(targets[i]);
            proof {
                assert(forall|k: int| 0 <= k < lk.len() ==> #[trigger] log.ad_hoc()[k] == lk[k]);
            }
        } else {
            failed.push(targets[i]);
        }
        i = i + 1;
    }
    proof {
        assert(targets@.take(targets@.len() as int) =~= targets@);
        assert(ok@.take(ok@.len() as int) =~= ok@);
    }
    (succeeded, failed)
}

} // verus!

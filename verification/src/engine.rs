//! Punish-by-policy orchestration.
//!
//! The canonical order is fixed: resolve targets, look the policy up, run the
//! authorization gate, and only then record dispatch outcomes. A structural
//! failure aborts before any audit record is written, so an unauthorized
//! caller learns nothing beyond the failure itself and leaves no side effect.

use vstd::prelude::*;

use crate::audit::AuditLog;
use crate::auth::{all_outranked, authorize, outranks, rank_targets, ranked_of, AuthDecision,
    RankTable};
use crate::catalog::Catalog;
use crate::dispatch::{failed_of, record_policy_outcomes, succeeded_of};
use crate::errors::EngineError;
use crate::models::{InfractionModel, UserInfractionModel};
use crate::resolver::{ids_in, resolve_targets};

verus! {

/// The outcome of a punish-by-policy batch: which targets succeeded and which
/// failed, both in input order, and the policy that was applied.
pub struct PunishReport {
    pub succeeded: Vec<u64>,
    pub failed: Vec<u64>,
    pub policy: InfractionModel,
}

/// Run one punish-by-policy batch over already-collected external facts: the
/// rank snapshot and the per-target outcomes of the dispatched actions.
///
/// The operation fails `InvalidInput` when the text holds no usable target,
/// else `NotFound` when the policy id is absent, else `Unauthorized` naming
/// the first target the issuer does not outrank; every failure leaves the
/// audit log untouched. When it proceeds, exactly one policy-linked audit
/// record is written per confirmed success, in input order.
pub fn punish(
    catalog: &Catalog,
    log: &mut AuditLog,
    policy_id: i32,
    text: &str,
    issuer_rank: u64,
    ranks: &RankTable,
    action_ok: &Vec<bool>,
    created_at: i64,
) -> (r: Result<PunishReport, EngineError>)
    requires
        catalog.wf(),
        old(log).wf(),
        action_ok@.len() == ids_in(text@).len(),
        old(log).next_linked_id() + ids_in(text@).len() <= i32::MAX,
    ensures
        final(log).wf(),
        final(log).ad_hoc() == old(log).ad_hoc(),
        final(log).next_ad_hoc_id() == old(log).next_ad_hoc_id(),
        r is Err ==> final(log).linked() == old(log).linked() && final(log).next_linked_id()
            == old(log).next_linked_id(),
        r == Err::<PunishReport, EngineError>(EngineError::InvalidInput) <==> ids_in(
            text@,
        ).len() == 0,
        r == Err::<PunishReport, EngineError>(EngineError::NotFound) <==> ids_in(text@).len() > 0
            && !catalog.contains_id(policy_id as int),
        (r matches Err(EngineError::Unauthorized { .. })) <==> ids_in(text@).len() > 0
            && catalog.contains_id(policy_id as int) && !all_outranked(
            issuer_rank,
            ranked_of(*ranks, ids_in(text@)),
        ),
        r matches Err(EngineError::Unauthorized { target }) ==> exists|i: int|
            0 <= i < ranked_of(*ranks, ids_in(text@)).len() && !outranks(
                issuer_rank,
                (#[trigger] ranked_of(*ranks, ids_in(text@))[i]).rank,
            ) && target == ranked_of(*ranks, ids_in(text@))[i].id && all_outranked(
                issuer_rank,
                ranked_of(*ranks, ids_in(text@)).take(i),
            ),
        r is Ok <==> ids_in(text@).len() > 0 && catalog.contains_id(policy_id as int)
            && all_outranked(issuer_rank, ranked_of(*ranks, ids_in(text@))),
        r matches Ok(rep) ==> {
            &&& rep.policy == catalog.spec_get(policy_id as int)
            &&& rep.succeeded@ == succeeded_of(ids_in(text@), action_ok@)
            &&& rep.failed@ == failed_of(ids_in(text@), action_ok@)
            &&& final(log).linked().len() == old(log).linked().len() + rep.succeeded@.len()
            &&& final(log).next_linked_id() == old(log).next_linked_id() + rep.succeeded@.len()
            &&& forall|k: int|
                0 <= k < old(log).linked().len() ==> #[trigger] final(log).linked()[k] == old(
                    log,
                ).linked()[k]
            &&& forall|k: int|
                0 <= k < rep.succeeded@.len() ==> #[trigger] final(log).linked()[old(
                    log,
                ).linked().len() + k] == (UserInfractionModel {
                    id: (old(log).next_linked_id() + k) as i32,
                    user_id: rep.succeeded@[k],
                    infraction_id: policy_id,
                    created_at,
                })
        },
{
    let targets = match resolve_targets(text) {
        Err(e) => {
            return Err(e);
        },
        Ok(v) => v,
    };
    let policy = match catalog.get(policy_id) {
        Err(e) => {
            return Err(e);
        },
        Ok(m) => m,
    };
    let ranked = rank_targets(ranks, &targets);
    match authorize(issuer_rank, &ranked) {
        AuthDecision::Denied { target } => {
            return Err(EngineError::Unauthorized { target });
        },
        AuthDecision::Authorized => {},
    }
    let (succeeded, failed) = record_policy_outcomes(log, policy_id, &targets, action_ok, created_at);
    Ok(PunishReport { succeeded, failed, policy })
}

} // verus!

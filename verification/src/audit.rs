//! The append-only audit log.
//!
//! Every confirmed action leaves exactly one record: ad hoc when no policy was
//! involved, policy-linked otherwise. The log hands out generated sequence ids
//! and exposes no update or delete surface; each writer's contract extends the
//! recorded sequences and leaves every earlier entry in place.

use vstd::prelude::*;

use crate::models::{Punishment, PunishmentModel, UserInfractionModel};

verus! {

/// The audit trail: ad hoc punishment records and policy-linked infraction
/// records, each with its own sequence-id counter.
pub struct AuditLog {
    punishments: Vec<PunishmentModel>,
    infractions: Vec<UserInfractionModel>,
    next_punishment_id: i32,
    next_infraction_id: i32,
}

impl AuditLog {
    /// The ad hoc records, in the order they were written.
    pub closed spec fn ad_hoc(self) -> Seq<PunishmentModel> {
        self.punishments@
    }

    /// The policy-linked records, in the order they were written.
    pub closed spec fn linked(self) -> Seq<UserInfractionModel> {
        self.infractions@
    }

    /// The sequence id the next ad hoc record will get.
    pub closed spec fn next_ad_hoc_id(self) -> int {
        self.next_punishment_id as int
    }

    /// The sequence id the next policy-linked record will get.
    pub closed spec fn next_linked_id(self) -> int {
        self.next_infraction_id as int
    }

    /// Sequence ids grow along each log and stay below the next free id.
    pub open spec fn wf(self) -> bool {
        &&& forall|i: int, j: int|
            0 <= i < j < self.ad_hoc().len() ==> #[trigger] self.ad_hoc()[i].id
                < #[trigger] self.ad_hoc()[j].id
        &&& forall|i: int| 0 <= i < self.ad_hoc().len() ==> (#[trigger] self.ad_hoc()[i]).id
            < self.next_ad_hoc_id()
        &&& forall|i: int, j: int|
            0 <= i < j < self.linked().len() ==> #[trigger] self.linked()[i].id
                < #[trigger] self.linked()[j].id
        &&& forall|i: int| 0 <= i < self.linked().len() ==> (#[trigger] self.linked()[i]).id
            < self.next_linked_id()
    }

    /// An empty log whose counters start at zero.
    pub fn new() -> (log: AuditLog)
        ensures
            log.wf(),
            log.ad_hoc() == Seq::<PunishmentModel>::empty(),
            log.linked() == Seq::<UserInfractionModel>::empty(),
            log.next_ad_hoc_id() == 0,
            log.next_linked_id() == 0,
    {
        AuditLog {
            punishments: Vec::new(),
            infractions: Vec::new(),
            next_punishment_id: 0,
            next_infraction_id: 0,
        }
    }

    /// Append one ad hoc record for a confirmed action taken without a
    /// policy reference.
    pub fn log_ad_hoc(
        &mut self,
        user_id: u64,
        punishment: Punishment,
        duration: i32,
        created_at: i64,
    ) -> (e: PunishmentModel)
        requires
            old(self).wf(),
            old(self).next_ad_hoc_id() < i32::MAX,
        ensures
            final(self).wf(),
            e == (PunishmentModel {
                id: old(self).next_ad_hoc_id() as i32,
                user_id,
                punishment,
                duration,
                created_at,
            }),
            final(self).ad_hoc() == old(self).ad_hoc().push(e),
            final(self).linked() == old(self).linked(),
            final(self).next_ad_hoc_id() == old(self).next_ad_hoc_id() + 1,
            final(self).next_linked_id() == old(self).next_linked_id(),
    {
        let e = PunishmentModel {
            id: self.next_punishment_id,
            user_id,
            punishment,
            duration,
            created_at,
        };
        self.punishments.push(e);
        self.next_punishment_id = self.next_punishment_id + 1;
        proof {
            let s = old(self).ad_hoc();
            assert(self.linked() == old(self).linked());
            assert forall|i: int, j: int| 0 <= i < j < self.linked().len() implies
                #[trigger] self.linked()[i].id < #[trigger] self.linked()[j].id by {
                assert(old(self).linked()[i].id < old(self).linked()[j].id);
            }
            assert forall|i: int| 0 <= i < self.linked().len() implies
                (#[trigger] self.linked()[i]).id < self.next_linked_id() by {
                assert(old(self).linked()[i].id < old(self).next_linked_id());
            }
            assert forall|i: int, j: int| 0 <= i < j < self.ad_hoc().len() implies
                #[trigger] self.ad_hoc()[i].id < #[trigger] self.ad_hoc()[j].id by {
                assert(self.ad_hoc()[i] == s[i]);
                if j < s.len() {
                    assert(self.ad_hoc()[j] == s[j]);
                }
            }
            assert forall|i: int| 0 <= i < self.ad_hoc().len() implies
                (#[trigger] self.ad_hoc()[i]).id < self.next_ad_hoc_id() by {
                if i < s.len() {
                    assert(self.ad_hoc()[i] == s[i]);
                }
            }
        }
        e
    }

    /// Append one policy-linked record for a confirmed action taken through
    /// the catalog policy with this id.
    pub fn log_for_policy(&mut self, user_id: u64, infraction_id: i32, created_at: i64) -> (e:
        UserInfractionModel)
        requires
            old(self).wf(),
            old(self).next_linked_id() < i32::MAX,
        ensures
            final(self).wf(),
            e == (UserInfractionModel {
                id: old(self).next_linked_id() as i32,
                user_id,
                infraction_id,
                created_at,
            }),
            final(self).linked() == old(self).linked().push(e),
            final(self).ad_hoc() == old(self).ad_hoc(),
            final(self).next_linked_id() == old(self).next_linked_id() + 1,
            final(self).next_ad_hoc_id() == old(self).next_ad_hoc_id(),
    {
        let e = UserInfractionModel { id: self.next_infraction_id, user_id, infraction_id, created_at };
        self.infractions.push(e);
        self.next_infraction_id = self.next_infraction_id + 1;
        proof {
            let s = old(self).linked();
            assert(self.ad_hoc() == old(self).ad_hoc());
            assert forall|i: int, j: int| 0 <= i < j < self.ad_hoc().len() implies
                #[trigger] self.ad_hoc()[i].id < #[trigger] self.ad_hoc()[j].id by {
                assert(old(self).ad_hoc()[i].id < old(self).ad_hoc()[j].id);
            }
            assert forall|i: int| 0 <= i < self.ad_hoc().len() implies
                (#[trigger] self.ad_hoc()[i]).id < self.next_ad_hoc_id() by {
                assert(old(self).ad_hoc()[i].id < old(self).next_ad_hoc_id());
            }
            assert forall|i: int, j: int| 0 <= i < j < self.linked().len() implies
                #[trigger] self.linked()[i].id < #[trigger] self.linked()[j].id by {
                assert(self.linked()[i] == s[i]);
                if j < s.len() {
                    assert(self.linked()[j] == s[j]);
                }
            }
            assert forall|i: int| 0 <= i < self.linked().len() implies
                (#[trigger] self.linked()[i]).id < self.next_linked_id() by {
                if i < s.len() {
                    assert(self.linked()[i] == s[i]);
                }
            }
        }
        e
    }

    /// The sequence id the next ad hoc record will get.
    pub fn next_ad_hoc_sequence(&self) -> (n: i32)
        ensures
            n == self.next_ad_hoc_id(),
    {
        self.next_punishment_id
    }

    /// The sequence id the next policy-linked record will get.
    pub fn next_linked_sequence(&self) -> (n: i32)
        ensures
            n == self.next_linked_id(),
    {
        self.next_infraction_id
    }

    /// The ad hoc records written so far.
    pub fn ad_hoc_entries(&self) -> (v: &Vec<PunishmentModel>)
        ensures
            v@ == self.ad_hoc(),
    {
        &self.punishments
    }

    /// The policy-linked records written so far.
    pub fn linked_entries(&self) -> (v: &Vec<UserInfractionModel>)
        ensures
            v@ == self.linked(),
    {
        &self.infractions
    }
}

} // verus!

//! The authorization gate.
//!
//! A rank is a total order inside one community instance; a member whose rank
//! cannot be determined counts as not-lower-than the issuer (fail closed).
//! Authorization is all-or-nothing: a batch passes only when the issuer
//! strictly outranks every target, and otherwise the first offender is named.

use vstd::prelude::*;

verus! {

/// A target's rank, as the external rank resolver reported it.
#[derive(Clone, Copy, Debug, PartialEq, Eq, Structural)]
pub enum Rank {
    Known(u64),
    Unknown,
}

/// A resolved target paired with its rank.
#[derive(Clone, Copy, Debug, PartialEq, Eq, Structural)]
pub struct RankedTarget {
    pub id: u64,
    pub rank: Rank,
}

/// The authorization outcome for a whole batch.
#[derive(Clone, Copy, Debug, PartialEq, Eq, Structural)]
pub enum AuthDecision {
    Authorized,
    /// The first target, in input order, that the issuer does not outrank.
    Denied { target: u64 },
}

/// The issuer strictly outranks a target; an unknown rank counts as highest.
pub open spec fn outranks(issuer_rank: u64, rank: Rank) -> bool {
    match rank {
        Rank::Known(k) => issuer_rank > k,
        Rank::Unknown => false,
    }
}

/// The issuer strictly outranks every target of the batch.
pub open spec fn all_outranked(issuer_rank: u64, targets: Seq<RankedTarget>) -> bool {
    forall|i: int| 0 <= i < targets.len() ==> outranks(issuer_rank, #[trigger] targets[i].rank)
}

/// Decide whether the issuer may act on the whole batch.
pub fn authorize(issuer_rank: u64, targets: &Vec<RankedTarget>) -> (d: AuthDecision)
    ensures
        d == AuthDecision::Authorized <==> all_outranked(issuer_rank, targets@),
        match d {
            AuthDecision::Authorized => true,
            AuthDecision::Denied { target } => exists|i: int|
                0 <= i < targets@.len() && !outranks(issuer_rank, #[trigger] targets@[i].rank)
                    && target == targets@[i].id && all_outranked(issuer_rank, targets@.take(i)),
        },
{
    let mut i: usize = 0;
    while i < targets.len()
        invariant
            0 <= i <= targets@.len(),
            all_outranked(issuer_rank, targets@.take(i as int)),
        decreases targets@.len() - i,
    {
        let ok = match targets[i].rank {
            Rank::Known(k) => issuer_rank > k,
            Rank::Unknown => false,
        };
        if !ok {
            assert(!outranks(issuer_rank, targets@[i as int].rank));
            return AuthDecision::Denied { target: targets[i].id };
        }
        assert(targets@.take(i + 1 as int).drop_last() =~= targets@.take(i as int));
        i = i + 1;
    }
    assert(targets@.take(targets@.len() as int) =~= targets@);
    AuthDecision::Authorized
}

/// One target the issuer does not outrank denies the whole batch: with a rank
/// violation anywhere in the list, the batch cannot be authorized, so no
/// action is dispatched for any target.
pub proof fn lemma_rank_violation_denies_batch(
    issuer_rank: u64,
    targets: Seq<RankedTarget>,
    i: int,
)
    requires
        0 <= i < targets.len(),
        !outranks(issuer_rank, targets[i].rank),
    ensures
        !all_outranked(issuer_rank, targets),
{
}

/// The ids the issuer strictly outranks, in input order.
pub open spec fn below_ids(issuer_rank: u64, targets: Seq<RankedTarget>) -> Seq<u64>
    decreases targets.len(),
{
    if targets.len() == 0 {
        Seq::empty()
    } else {
        let pre = below_ids(issuer_rank, targets.drop_last());
        if outranks(issuer_rank, targets.last().rank) {
            pre.push(targets.last().id)
        } else {
            pre
        }
    }
}

/// Keep only the targets the issuer strictly outranks, preserving order.
pub fn user_ids_below_user(issuer_rank: u64, targets: &Vec<RankedTarget>) -> (r: Vec<u64>)
    ensures
        r@ == below_ids(issuer_rank, targets@),
{
    let mut r: Vec<u64> = Vec::new();
    let mut i: usize = 0;
    while i < targets.len()
        invariant
            0 <= i <= targets@.len(),
            r@ == below_ids(issuer_rank, targets@.take(i as int)),
        decreases targets@.len() - i,
    {
        let ok = match targets[i].rank {
            Rank::Known(k) => issuer_rank > k,
            Rank::Unknown => false,
        };
        assert(targets@.take(i + 1 as int).drop_last() =~= targets@.take(i as int));
        assert(targets@.take(i + 1 as int).last() == targets@[i as int]);
        if ok {
            r.push(targets[i].id);
        }
        i = i + 1;
    }
    assert(targets@.take(targets@.len() as int) =~= targets@);
    r
}

/// One known rank, as the external rank resolver reported it for a member.
#[derive(Clone, Copy, Debug, PartialEq, Eq, Structural)]
pub struct RankEntry {
    pub id: u64,
    pub rank: u64,
}

/// The first rank recorded for a member; a member without an entry has an
/// unknown rank and counts as highest.
pub open spec fn rank_in(entries: Seq<RankEntry>, id: u64) -> Rank
    decreases entries.len(),
{
    if entries.len() == 0 {
        Rank::Unknown
    } else if entries[0].id == id {
        Rank::Known(entries[0].rank)
    } else {
        rank_in(entries.drop_first(), id)
    }
}

/// A snapshot of the ranks the external resolver reported, one entry per
/// member it could rank.
#[derive(Clone, Debug)]
pub struct RankTable {
    pub entries: Vec<RankEntry>,
}

impl RankTable {
    /// The rank recorded for a member, unknown when none is.
    pub open spec fn spec_rank_of(self, id: u64) -> Rank {
        rank_in(self.entries@, id)
    }

    /// An empty snapshot: every member's rank is unknown.
    pub fn new() -> (t: RankTable)
        ensures
            t.entries@ == Seq::<RankEntry>::empty(),
    {
        RankTable { entries: Vec::new() }
    }

    /// Record a member's rank.
    pub fn push(&mut self, id: u64, rank: u64)
        ensures
            final(self).entries@ == old(self).entries@.push(RankEntry { id, rank }),
    {
        self.entries.push(RankEntry { id, rank });
    }

    /// Look a member's rank up.
    pub fn rank_of(&self, id: u64) -> (r: Rank)
        ensures
            r == self.spec_rank_of(id),
    {
        let ghost s = self.entries@;
        let mut i: usize = 0;
        proof {
            assert(s.skip(0) =~= s);
        }
        while i < self.entries.len()
            invariant
                0 <= i <= s.len(),
                s == self.entries@,
                rank_in(s, id) == rank_in(s.skip(i as int), id),
            decreases s.len() - i,
        {
            proof {
                assert(s.skip(i as int)[0] == s[i as int]);
                assert(s.skip(i as int).drop_first() =~= s.skip(i + 1 as int));
            }
            if self.entries[i].id == id {
                return Rank::Known(self.entries[i].rank);
            }
            i = i + 1;
        }
        Rank::Unknown
    }
}

/// Each resolved target paired with the rank the table reports for it.
pub open spec fn ranked_of(table: RankTable, ids: Seq<u64>) -> Seq<RankedTarget> {
    ids.map_values(|id: u64| RankedTarget { id, rank: table.spec_rank_of(id) })
}

/// Pair every resolved target with its rank from the snapshot, in order.
pub fn rank_targets(table: &RankTable, ids: &Vec<u64>) -> (r: Vec<RankedTarget>)
    ensures
        r@ == ranked_of(*table, ids@),
{
    let mut r: Vec<RankedTarget> = Vec::new();
    let mut i: usize = 0;
    while i < ids.len()
        invariant
            0 <= i <= ids@.len(),
            r@.len() == i,
            forall|k: int|
                0 <= k < i ==> #[trigger] r@[k] == (RankedTarget {
                    id: ids@[k],
                    rank: table.spec_rank_of(ids@[k]),
                }),
        decreases ids@.len() - i,
    {
        let rank = table.rank_of(ids[i]);
        r.push(RankedTarget { id: ids[i], rank });
        i = i + 1;
    }
    proof {
        assert(r@ =~= ranked_of(*table, ids@));
    }
    r
}

} // verus!

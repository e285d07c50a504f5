//! The engine's data model.
//!
//! Identifiers of community members are plain `u64` handles; instants are
//! seconds on an integer timeline. The persistent store and the chat platform
//! translate these at the boundary.

use vstd::prelude::*;

verus! {

/// Informational classification of a policy; it never affects dispatch.
#[derive(Clone, Copy, Debug, PartialEq, Eq, Structural)]
pub enum Severity {
    Low,
    Mid,
    High,
}

/// The category of a punitive action.
///
/// `Strike` is delivered as a private warning; `Timeout` is the only kind that
/// carries a duration; `Unban` and `Untimeout` are compensating actions.
#[derive(Clone, Copy, Debug, PartialEq, Eq, Structural)]
pub enum Punishment {
    Strike,
    Timeout,
    Ban,
    Kick,
    Unban,
    Untimeout,
}

/// A persisted punishment policy: a named definition of severity, action kind
/// and duration, addressable by a caller-assigned integer id.
#[derive(Clone, Copy, Debug, PartialEq, Eq, Structural)]
pub struct InfractionModel {
    pub id: i32,
    pub severity: Severity,
    pub punishment: Punishment,
    /// Duration in seconds; meaningful only for `Timeout`, zero otherwise.
    pub duration: i32,
}

impl InfractionModel {
    /// A policy record never carries a negative duration.
    pub open spec fn wf(self) -> bool {
        self.duration >= 0
    }
}

/// An ad hoc audit entry: an action taken without a policy reference.
#[derive(Clone, Copy, Debug, PartialEq, Eq, Structural)]
pub struct PunishmentModel {
    pub id: i32,
    pub user_id: u64,
    pub punishment: Punishment,
    pub duration: i32,
    pub created_at: i64,
}

/// A policy-linked audit entry: an action taken through a catalog policy.
#[derive(Clone, Copy, Debug, PartialEq, Eq, Structural)]
pub struct UserInfractionModel {
    pub id: i32,
    pub user_id: u64,
    pub infraction_id: i32,
    pub created_at: i64,
}

/// A named text snippet owned by a community member.
#[derive(Clone, Debug)]
pub struct Tag {
    pub id: i64,
    pub name: String,
    pub content: String,
    pub owner: String,
}

/// An entry of the community's animal table, used by the listing commands.
#[derive(Clone, Debug)]
pub struct AnimalModel {
    pub id: i32,
    pub animal: String,
    pub emoji: String,
    pub points: i32,
}

/// A member's score in the ranking listing.
#[derive(Clone, Debug)]
pub struct BangPointModel {
    pub user_id: String,
    pub points: i32,
}

} // verus!

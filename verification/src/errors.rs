//! The engine's error taxonomy.
//!
//! The four structural failures abort an operation before any side effect of
//! that operation; a per-target dispatch failure is never an error value, it
//! only appears inside the aggregated report.

use vstd::prelude::*;

verus! {

/// A structural failure of an engine operation.
#[derive(Clone, Copy, Debug, PartialEq, Eq, Structural)]
pub enum EngineError {
    /// No resolvable targets in the input text.
    InvalidInput,
    /// The issuer does not outrank the named target.
    Unauthorized { target: u64 },
    /// The requested policy id is not in the catalog.
    NotFound,
    /// The policy id handed to `create` is already in the catalog.
    AlreadyExists,
    /// An audit write was refused by the persistent store.
    PersistenceFailed,
}

impl EngineError {
    /// A short human-readable description of the failure.
    pub fn describe(&self) -> (r: &'static str)
        ensures
            r@ == match *self {
                EngineError::InvalidInput => "no targets resolved from the input"@,
                EngineError::Unauthorized { .. } => "issuer does not outrank every target"@,
                EngineError::NotFound => "no policy with the requested id"@,
                EngineError::AlreadyExists => "a policy with this id already exists"@,
                EngineError::PersistenceFailed => "an audit record could not be written"@,
            },
    {
        match self {
            EngineError::InvalidInput => "no targets resolved from the input",
            EngineError::Unauthorized { .. } => "issuer does not outrank every target",
            EngineError::NotFound => "no policy with the requested id",
            EngineError::AlreadyExists => "a policy with this id already exists",
            EngineError::PersistenceFailed => "an audit record could not be written",
        }
    }
}

/// The message a host process aborts with when its startup fails.
///
/// The caller is expected to halt with the returned text; the engine itself
/// never panics.
pub fn handle_setup_error(error: &str) -> (r: String)
    ensures
        r@ == "Failed to start bot: "@ + error@,
{
    let mut message = String::new();
    message.append("Failed to start bot: ");
    message.append(error);
    assert(message@ =~= "Failed to start bot: "@ + error@);
    message
}

} // verus!

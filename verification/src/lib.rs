//! Transactional execution core of a blockchain state layer.
//!
//! A runtime call is executed against an immutable storage snapshot plus an
//! in-memory overlay of pending writes organised as nested transactions.  A
//! failing call leaves the observable state untouched; a successful call
//! merges its writes into the parent overlay frame.

use vstd::prelude::*;

pub mod account;
pub mod backend;
pub mod bytes;
pub mod cache;
pub mod ext;
pub mod extensions;
pub mod hash;
pub mod log;
pub mod machine;
pub mod model;
pub mod overlay;
pub mod rlp_codec;
pub mod uint;

verus! {

/// A discipline violation between the orchestrator and the overlay.
///
/// These indicate a bug in the orchestration or in the executed program's
/// nested-transaction balance, never an expected runtime condition.
#[derive(Clone, Copy, Debug, PartialEq, Eq, Structural)]
pub enum OverlayError {
    /// Commit or rollback was asked for while no transaction that the caller
    /// may close is open.
    NoOpenTransaction,
    /// Runtime scope was entered while already inside runtime scope.
    AlreadyInRuntime,
    /// Runtime scope was exited while transactions opened inside the scope
    /// were still open.
    TransactionsRemainOpen,
    /// Runtime scope was exited without having been entered.
    NotInRuntime,
}

} // verus!

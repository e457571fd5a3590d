//! A custodial escrow state machine for a two-party task marketplace.
//!
//! A poster deposits a fixed amount of native ledger currency into a
//! holding account at an address derived deterministically from a task
//! identifier; the poster later either releases the spendable balance to
//! the worker or cancels and reclaims it.  The ledger itself is modelled
//! as an in-memory set of accounts with insert-only creation and
//! per-operation atomicity; address derivation and the rent-exempt
//! reserve query are the host runtime's and stand behind trusted
//! wrappers.

pub mod codec;
pub mod host;
pub mod ledger;
pub mod ops;
pub mod record;

pub use crate::codec::{deserialize, serialize};
pub use crate::host::{escrow_address, escrow_reserve};
pub use crate::ledger::{HostError, Ledger};
pub use crate::ops::{
    cancel_escrow, create_task_escrow, fund_escrow, release_funds, CancelEscrow, CreateTaskEscrow,
    FundEscrow, OpError, ReleaseFunds,
};
pub use crate::record::{AccountId, EscrowStatus, TaskEscrow, TaskEscrowError};

//! Redemption pool behind a gated fungible transfer hook.
//!
//! Every transfer of the gated fungible asset invokes the redemption
//! callback, which converts whole redemption units of the transferred
//! quantity into custody handoffs of collectible-asset slots.  A one-time
//! setup routine derives the custody account of each slot and emits the
//! registration list of auxiliary accounts that later callback invocations
//! need attached.

use vstd::prelude::*;

pub mod custody;
pub mod ids;
pub mod pool;
pub mod redeem;
pub mod setup;

pub use ids::{all_distinct, AccountId};
pub use pool::HookState;
pub use redeem::{redemption_units, transfer_hook, RedeemError, Redemption};
pub use setup::{
    extra_account_metas, initialize_extra_account_meta_list, MetaDescriptor, ResolutionMethod,
    SetupConfig, SetupError, SetupOutcome,
};

verus! {

/// Minor fungible units that entitle the recipient to one pool slot.
pub const REDEMPTION_UNIT_THRESHOLD: u64 = 1_000_000_000;

/// Number of collectible slots in the redemption pool.
pub const POOL_SLOTS: usize = 10;

} // verus!

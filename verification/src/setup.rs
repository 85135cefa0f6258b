//! The one-time setup routine: derives the custody account of every slot,
//! builds the pool state with all slots available, and emits the
//! registration list of auxiliary accounts that the redemption callback
//! needs attached on every later invocation.

use vstd::prelude::*;

use crate::custody::{
    associated_custody, derive_associated_custody, derive_seeded_account, owner_allows_derivation,
    seed_derived,
};
use crate::ids::{all_distinct, AccountId};
use crate::pool::HookState;
use crate::POOL_SLOTS;

verus! {

/// Fixed configuration of one deployment, passed explicitly: no ambient
/// state takes part in any derivation.
pub struct SetupConfig {
    /// Account permitted to administer the pool.
    pub authority: AccountId,
    /// The deployment's own program address, owner of the seeded derivations.
    pub program_id: AccountId,
    /// Base address of the per-slot collectible-asset derivations.
    pub collectible_base: AccountId,
    /// Owner of the collectible deposit; wallet of the per-slot custody accounts.
    pub deposit_owner: AccountId,
    /// Fungible-deposit custody account named in the registration list.
    pub token_deposit: AccountId,
    /// Collectible-deposit custody account named in the registration list.
    pub collectible_deposit: AccountId,
    /// External liquidity-pool custody account named in the registration list.
    pub liquidity_pool: AccountId,
}

impl SetupConfig {
    pub open spec fn wf(self) -> bool {
        &&& self.authority.wf()
        &&& self.program_id.wf()
        &&& self.collectible_base.wf()
        &&& self.deposit_owner.wf()
        &&& self.token_deposit.wf()
        &&& self.collectible_deposit.wf()
        &&& self.liquidity_pool.wf()
    }
}

/// Custody account that setup assigns to slot `i`: the associated custody
/// address, under the deposit owner, of the collectible asset derived from
/// the slot's 1-based index.
pub open spec fn custody_for_slot(cfg: SetupConfig, i: int) -> Seq<u8> {
    associated_custody(
        cfg.deposit_owner@,
        seed_derived(cfg.collectible_base@, (i + 1) as u64, cfg.program_id@),
    )
}

/// Two distinct slots derive the same custody account.
pub open spec fn custody_collision(cfg: SetupConfig) -> bool {
    exists|i: int, j: int|
        0 <= i < j < POOL_SLOTS && custody_for_slot(cfg, i) == custody_for_slot(cfg, j)
}

/// A pool state exactly as setup creates it for `cfg`: every slot
/// available, every custody account the derived one.
pub open spec fn initialized_pool(s: HookState, cfg: SetupConfig) -> bool {
    &&& s.wf()
    &&& s.authority@ == cfg.authority@
    &&& forall|i: int| 0 <= i < POOL_SLOTS ==> #[trigger] s.avail()[i]
    &&& forall|i: int| 0 <= i < POOL_SLOTS ==> #[trigger] s.custody()[i] == custody_for_slot(cfg, i)
}

/// How the invoking runtime resolves one auxiliary account of the
/// registration list.
#[derive(Debug)]
pub enum ResolutionMethod {
    /// Derived from a literal seed under this program.
    SeedDerived { seed: Vec<u8> },
    /// Supplied as this fixed address.
    FixedAddress { address: AccountId },
}

/// One descriptor of the registration list.
#[derive(Debug)]
pub struct MetaDescriptor {
    pub method: ResolutionMethod,
    pub is_signer: bool,
    pub is_writable: bool,
}

/// ASCII bytes of the literal seed of the pool-state account: `state`.
pub open spec fn state_seed() -> Seq<u8> {
    seq![115u8, 116u8, 97u8, 116u8, 101u8]
}

/// The exact registration list: the pool state (seed-derived), then the
/// fungible deposit, the collectible deposit, and the liquidity-pool
/// custody account, all writable, none a signer, in this order.
pub open spec fn registration_list(metas: Seq<MetaDescriptor>, cfg: SetupConfig) -> bool {
    &&& metas.len() == 4
    &&& metas[0].method matches ResolutionMethod::SeedDerived { seed } && seed@ == state_seed()
    &&& metas[1].method matches ResolutionMethod::FixedAddress { address } && address@
        == cfg.token_deposit@
    &&& metas[2].method matches ResolutionMethod::FixedAddress { address } && address@
        == cfg.collectible_deposit@
    &&& metas[3].method matches ResolutionMethod::FixedAddress { address } && address@
        == cfg.liquidity_pool@
    &&& forall|k: int| 0 <= k < 4 ==> !(#[trigger] metas[k]).is_signer && metas[k].is_writable
}

/// The auxiliary accounts that every redemption callback invocation needs.
pub fn extra_account_metas(cfg: &SetupConfig) -> (metas: Vec<MetaDescriptor>)
    ensures
        registration_list(metas@, *cfg),
{
    let mut seed: Vec<u8> = Vec::new();
    seed.push(115);
    seed.push(116);
    seed.push(97);
    seed.push(116);
    seed.push(101);
    proof {
        assert(seed@ =~= state_seed());
    }
    let mut metas: Vec<MetaDescriptor> = Vec::new();
    metas.push(
        MetaDescriptor {
            method: ResolutionMethod::SeedDerived { seed },
            is_signer: false,
            is_writable: true,
        },
    );
    metas.push(
        MetaDescriptor {
            method: ResolutionMethod::FixedAddress { address: cfg.token_deposit.clone() },
            is_signer: false,
            is_writable: true,
        },
    );
    metas.push(
        MetaDescriptor {
            method: ResolutionMethod::FixedAddress { address: cfg.collectible_deposit.clone() },
            is_signer: false,
            is_writable: true,
        },
    );
    metas.push(
        MetaDescriptor {
            method: ResolutionMethod::FixedAddress { address: cfg.liquidity_pool.clone() },
            is_signer: false,
            is_writable: true,
        },
    );
    metas
}

/// Failure of the setup routine.
#[derive(Clone, Copy, Debug, PartialEq, Eq, Structural)]
pub enum SetupError {
    /// A per-slot derivation was refused.
    Derivation,
    /// Two slots derived the same custody account.
    DerivationCollision,
}

/// What a successful setup hands back.
#[derive(Debug)]
pub struct SetupOutcome {
    pub state: HookState,
    pub metas: Vec<MetaDescriptor>,
}

/// The setup routine.  With `existing` the pool state already created for
/// this mint, it changes nothing and hands that state back; otherwise it
/// derives every slot's custody account, refuses a collision, and returns
/// the fresh pool with all slots available.  Either way it emits the
/// registration list.
pub fn initialize_extra_account_meta_list(cfg: &SetupConfig, existing: Option<HookState>) -> (r:
    Result<SetupOutcome, SetupError>)
    requires
        cfg.wf(),
        existing matches Some(s) ==> s.wf(),
    ensures
        r matches Ok(out) ==> registration_list(out.metas@, *cfg),
        existing matches Some(s) ==> r matches Ok(out) && out.state == s,
        existing is None ==> (r is Ok <==> owner_allows_derivation(cfg.program_id@)
            && !custody_collision(*cfg)),
        existing is None ==> (r matches Ok(out) ==> initialized_pool(out.state, *cfg)),
        existing is None && !owner_allows_derivation(cfg.program_id@) ==> r == Err::<
            SetupOutcome,
            SetupError,
        >(SetupError::Derivation),
        existing is None && owner_allows_derivation(cfg.program_id@) && custody_collision(*cfg)
            ==> r == Err::<SetupOutcome, SetupError>(SetupError::DerivationCollision),
{
    let metas = extra_account_metas(cfg);
    match existing {
        Some(state) => Ok(SetupOutcome { state, metas }),
        None => {
            let mut slot_custody_account: Vec<AccountId> = Vec::new();
            let mut slot_available: Vec<bool> = Vec::new();
            let mut slot: usize = 0;
            while slot < POOL_SLOTS
                invariant
                    existing is None,
                    registration_list(metas@, *cfg),
                    cfg.wf(),
                    slot <= POOL_SLOTS,
                    slot_custody_account@.len() == slot,
                    slot_available@.len() == slot,
                    slot > 0 ==> owner_allows_derivation(cfg.program_id@),
                    forall|i: int|
                        0 <= i < slot ==> (#[trigger] slot_custody_account@[i]).wf(),
                    forall|i: int|
                        0 <= i < slot ==> (#[trigger] slot_custody_account@[i])@
                            == custody_for_slot(*cfg, i),
                    forall|i: int| 0 <= i < slot ==> #[trigger] slot_available@[i],
                decreases POOL_SLOTS - slot,
            {
                match derive_seeded_account(&cfg.collectible_base, slot as u64 + 1, &cfg.program_id) {
                    Some(mint) => {
                        let custody = derive_associated_custody(&cfg.deposit_owner, &mint);
                        proof {
                            assert((slot as int + 1) as u64 == slot as u64 + 1);
                            assert(custody@ == custody_for_slot(*cfg, slot as int));
                        }
                        slot_custody_account.push(custody);
                        slot_available.push(true);
                    },
                    None => {
                        return Err(SetupError::Derivation);
                    },
                }
                slot += 1;
            }
            if !all_distinct(&slot_custody_account) {
                proof {
                    let (i, j) = choose|i: int, j: int|
                        0 <= i < j < slot_custody_account@.len() && slot_custody_account@[i]@
                            == slot_custody_account@[j]@;
                    assert(custody_for_slot(*cfg, i) == custody_for_slot(*cfg, j));
                }
                return Err(SetupError::DerivationCollision);
            }
            let state = HookState {
                authority: cfg.authority.clone(),
                slot_available,
                slot_custody_account,
            };
            proof {
                assert forall|i: int| 0 <= i < POOL_SLOTS implies #[trigger] state.custody()[i]
                    == custody_for_slot(*cfg, i) by {
                    assert(state.custody()[i] == state.slot_custody_account@[i]@);
                }
                assert(initialized_pool(state, *cfg));
                if custody_collision(*cfg) {
                    let (i, j) = choose|i: int, j: int|
                        0 <= i < j < POOL_SLOTS && custody_for_slot(*cfg, i) == custody_for_slot(
                            *cfg,
                            j,
                        );
                    assert(state.slot_custody_account@[i]@ == state.slot_custody_account@[j]@);
                }
            }
            Ok(SetupOutcome { state, metas })
        },
    }
}

/// Law: setup idempotence.  Pool states initialized for the same
/// configuration carry identical slot tables, so re-running setup against
/// an already-populated pool (which setup hands back untouched) could not
/// alter them.
pub proof fn lemma_setup_idempotent(s1: HookState, s2: HookState, cfg: SetupConfig)
    requires
        initialized_pool(s1, cfg),
        initialized_pool(s2, cfg),
    ensures
        s1.avail() == s2.avail(),
        s1.custody() == s2.custody(),
        s1.authority@ == s2.authority@,
{
    assert(s1.avail() =~= s2.avail());
    assert(s1.custody() =~= s2.custody());
}

} // verus!

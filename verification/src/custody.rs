//! Deterministic account derivations performed by the ledger SDK.  The two
//! functions here are trusted wrappers: Verus believes their contracts and
//! does not read their bodies.

use anchor_lang::prelude::Pubkey;
use anchor_spl::associated_token::spl_associated_token_account;
use vstd::prelude::*;

use crate::ids::AccountId;

verus! {

/// Address that `Pubkey::create_with_seed` derives from a base address, the
/// decimal digits of an index, and an owning program's address.
pub uninterp spec fn seed_derived(base: Seq<u8>, index: u64, owner: Seq<u8>) -> Seq<u8>;

/// Associated custody address that `get_associated_token_address` derives
/// from a wallet address and a mint address.
pub uninterp spec fn associated_custody(wallet: Seq<u8>, mint: Seq<u8>) -> Seq<u8>;

/// ASCII bytes of `ProgramDerivedAddress`, the trailing marker that
/// `create_with_seed` refuses in an owner address.
pub open spec fn pda_marker() -> Seq<u8> {
    seq![
        80u8, 114u8, 111u8, 103u8, 114u8, 97u8, 109u8, 68u8, 101u8, 114u8, 105u8, 118u8,
        101u8, 100u8, 65u8, 100u8, 100u8, 114u8, 101u8, 115u8, 115u8,
    ]
}

/// A seeded derivation succeeds exactly when the owner address does not end
/// with the program-derived-address marker.
pub open spec fn owner_allows_derivation(owner: Seq<u8>) -> bool {
    owner.subrange(owner.len() - pda_marker().len(), owner.len() as int) != pda_marker()
}

/// Relies on `Pubkey::create_with_seed` of the ledger SDK: the result is a
/// hash of base, seed and owner, so it depends on the arguments alone; the
/// call fails exactly when the owner ends with the program-derived-address
/// marker (the decimal digits of a 64-bit index never exceed the seed
/// length limit).
#[verifier::external_body]
pub(crate) fn derive_seeded_account(base: &AccountId, index: u64, owner: &AccountId) -> (r:
    Option<AccountId>)
    requires
        base@.len() == 32,
        owner@.len() == 32,
    ensures
        r is Some <==> owner_allows_derivation(owner@),
        r matches Some(id) ==> id@ == seed_derived(base@, index, owner@) && id@.len() == 32,
{
    let base_pk = Pubkey::try_from(base.bytes.as_slice()).ok()?;
    let owner_pk = Pubkey::try_from(owner.bytes.as_slice()).ok()?;
    let derived = Pubkey::create_with_seed(&base_pk, &index.to_string(), &owner_pk).ok()?;
    Some(AccountId { bytes: derived.to_bytes().to_vec() })
}

/// Relies on `get_associated_token_address` of the token-account interface:
/// a program-derived address computed from the wallet and mint addresses
/// alone.
#[verifier::external_body]
pub(crate) fn derive_associated_custody(wallet: &AccountId, mint: &AccountId) -> (r: AccountId)
    requires
        wallet@.len() == 32,
        mint@.len() == 32,
    ensures
        r@ == associated_custody(wallet@, mint@),
        r@.len() == 32,
{
    let wallet_pk = Pubkey::try_from(wallet.bytes.as_slice()).unwrap();
    let mint_pk = Pubkey::try_from(mint.bytes.as_slice()).unwrap();
    let ata = spl_associated_token_account::get_associated_token_address(&wallet_pk, &mint_pk);
    AccountId { bytes: ata.to_bytes().to_vec() }
}

} // verus!

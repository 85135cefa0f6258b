use anchor_lang::prelude::Pubkey;
use anchor_spl::associated_token::spl_associated_token_account;
use transfer_hook::{
    all_distinct, extra_account_metas, initialize_extra_account_meta_list, AccountId,
    ResolutionMethod, SetupConfig, SetupError,
};

fn id(tag: u8) -> AccountId {
    AccountId { bytes: vec![tag; 32] }
}

fn config() -> SetupConfig {
    SetupConfig {
        authority: id(1),
        program_id: id(2),
        collectible_base: id(3),
        deposit_owner: id(4),
        token_deposit: id(5),
        collectible_deposit: id(6),
        liquidity_pool: id(7),
    }
}

fn pk(a: &AccountId) -> Pubkey {
    Pubkey::try_from(a.bytes.as_slice()).unwrap()
}

#[test]
fn fresh_setup_populates_every_slot() {
    let out = initialize_extra_account_meta_list(&config(), None).unwrap();
    assert_eq!(out.state.authority, id(1));
    assert_eq!(out.state.slot_available, vec![true; 10]);
    assert_eq!(out.state.slot_custody_account.len(), 10);
    for custody in &out.state.slot_custody_account {
        assert_eq!(custody.bytes.len(), 32);
    }
    assert!(all_distinct(&out.state.slot_custody_account));
}

#[test]
fn derived_custody_matches_the_ledger_derivation() {
    let cfg = config();
    let out = initialize_extra_account_meta_list(&cfg, None).unwrap();
    for slot in 0..10u64 {
        let mint = Pubkey::create_with_seed(
            &pk(&cfg.collectible_base),
            &(slot + 1).to_string(),
            &pk(&cfg.program_id),
        )
        .unwrap();
        let expected = spl_associated_token_account::get_associated_token_address(
            &pk(&cfg.deposit_owner),
            &mint,
        );
        assert_eq!(
            out.state.slot_custody_account[slot as usize].bytes,
            expected.to_bytes().to_vec()
        );
    }
}

#[test]
fn derived_custody_differs_from_every_input() {
    let cfg = config();
    let out = initialize_extra_account_meta_list(&cfg, None).unwrap();
    for custody in &out.state.slot_custody_account {
        for input in [1u8, 2, 3, 4, 5, 6, 7] {
            assert_ne!(*custody, id(input));
        }
    }
}

#[test]
fn setup_is_deterministic() {
    let first = initialize_extra_account_meta_list(&config(), None).unwrap();
    let second = initialize_extra_account_meta_list(&config(), None).unwrap();
    assert_eq!(first.state.slot_custody_account, second.state.slot_custody_account);
    assert_eq!(first.state.slot_available, second.state.slot_available);
}

#[test]
fn rerunning_setup_leaves_an_existing_pool_unchanged() {
    let fresh = initialize_extra_account_meta_list(&config(), None).unwrap();
    let custody_before = fresh.state.slot_custody_account.clone();
    let mut state = fresh.state;
    // a pool that has already seen redemptions is handed back as-is too
    state.slot_available[0] = false;
    let avail_before = state.slot_available.clone();

    let again = initialize_extra_account_meta_list(&config(), Some(state)).unwrap();
    assert_eq!(again.state.slot_custody_account, custody_before);
    assert_eq!(again.state.slot_available, avail_before);
}

#[test]
fn registration_list_names_the_four_accounts_in_order() {
    let cfg = config();
    let metas = extra_account_metas(&cfg);
    assert_eq!(metas.len(), 4);
    match &metas[0].method {
        ResolutionMethod::SeedDerived { seed } => assert_eq!(seed.as_slice(), b"state" as &[u8]),
        _ => panic!("first descriptor must be seed-derived"),
    }
    let expected = [&cfg.token_deposit, &cfg.collectible_deposit, &cfg.liquidity_pool];
    for (meta, want) in metas[1..].iter().zip(expected) {
        match &meta.method {
            ResolutionMethod::FixedAddress { address } => assert_eq!(address, want),
            _ => panic!("descriptor must be a fixed address"),
        }
    }
    for meta in &metas {
        assert!(!meta.is_signer);
        assert!(meta.is_writable);
    }
}

#[test]
fn marked_program_owner_fails_derivation() {
    let mut cfg = config();
    let mut bytes = vec![9u8; 11];
    bytes.extend_from_slice(b"ProgramDerivedAddress");
    cfg.program_id = AccountId { bytes };

    let err = initialize_extra_account_meta_list(&cfg, None).unwrap_err();
    assert_eq!(err, SetupError::Derivation);
}

#[test]
fn duplicate_identifiers_are_detected() {
    assert!(all_distinct(&vec![id(1), id(2), id(3)]));
    assert!(!all_distinct(&vec![id(1), id(2), id(1)]));
    assert!(all_distinct(&Vec::new()));
}

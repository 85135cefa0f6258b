use transfer_hook::{redemption_units, transfer_hook, AccountId, HookState, RedeemError};

fn id(tag: u8) -> AccountId {
    AccountId { bytes: vec![tag; 32] }
}

fn pool_with_custody(tags: &[u8]) -> HookState {
    HookState {
        authority: id(1),
        slot_available: vec![true; tags.len()],
        slot_custody_account: tags.iter().map(|t| id(*t)).collect(),
    }
}

fn full_pool() -> HookState {
    pool_with_custody(&[100, 101, 102, 103, 104, 105, 106, 107, 108, 109])
}

fn all_custody(state: &HookState) -> Vec<AccountId> {
    state
        .slot_custody_account
        .iter()
        .map(|a| AccountId { bytes: a.bytes.clone() })
        .collect()
}

fn available_count(state: &HookState) -> usize {
    state.slot_available.iter().filter(|b| **b).count()
}

#[test]
fn units_follow_floor_division() {
    assert_eq!(redemption_units(0), 0);
    assert_eq!(redemption_units(999_999_999), 0);
    assert_eq!(redemption_units(1_000_000_000), 1);
    assert_eq!(redemption_units(3_500_000_000), 3);
    assert_eq!(redemption_units(u64::MAX), 18_446_744_073);
}

#[test]
fn concrete_scenario_three_then_eight() {
    let mut state = full_pool();
    let attached = all_custody(&state);

    let reds = transfer_hook(&mut state, 3_500_000_000, &attached).unwrap();
    assert_eq!(reds.len(), 3);
    let slots: Vec<usize> = reds.iter().map(|r| r.slot).collect();
    assert_eq!(slots, vec![0, 1, 2]);
    for r in &reds {
        assert_eq!(attached[r.attached_index], state.slot_custody_account[r.slot]);
    }
    assert_eq!(
        state.slot_available,
        vec![false, false, false, true, true, true, true, true, true, true]
    );

    let before = state.slot_available.clone();
    let err = transfer_hook(&mut state, 8_000_000_000, &attached).unwrap_err();
    assert_eq!(err, RedeemError::InsufficientRedeemableAssets);
    assert_eq!(state.slot_available, before);
    assert_eq!(available_count(&state), 7);
}

#[test]
fn below_threshold_has_no_side_effects() {
    let mut state = full_pool();
    let attached = all_custody(&state);
    let before = state.slot_available.clone();

    let reds = transfer_hook(&mut state, 999_999_999, &attached).unwrap();
    assert!(reds.is_empty());
    assert_eq!(state.slot_available, before);
}

#[test]
fn exact_exhaustion_succeeds_and_one_more_fails() {
    let mut state = full_pool();
    let attached = all_custody(&state);

    let reds = transfer_hook(&mut state, 10_000_000_000, &attached).unwrap();
    assert_eq!(reds.len(), 10);
    assert_eq!(available_count(&state), 0);

    let mut fresh = full_pool();
    let err = transfer_hook(&mut fresh, 11_000_000_000, &attached).unwrap_err();
    assert_eq!(err, RedeemError::InsufficientRedeemableAssets);
    assert_eq!(available_count(&fresh), 10);
}

#[test]
fn unlocatable_slots_are_skipped_in_index_order() {
    let mut state = full_pool();
    // only the custody accounts of slots 2, 5 and 7 are attached,
    // along with two unrelated accounts
    let attached = vec![id(200), id(105), id(107), id(102), id(201)];

    let reds = transfer_hook(&mut state, 2_000_000_000, &attached).unwrap();
    let slots: Vec<usize> = reds.iter().map(|r| r.slot).collect();
    assert_eq!(slots, vec![2, 5]);
    assert_eq!(reds[0].attached_index, 3);
    assert_eq!(reds[1].attached_index, 1);
    assert!(!state.slot_available[2]);
    assert!(!state.slot_available[5]);
    for i in [0, 1, 3, 4, 6, 7, 8, 9] {
        assert!(state.slot_available[i]);
    }
}

#[test]
fn too_few_locatable_slots_fail_atomically() {
    let mut state = full_pool();
    // only two custody accounts attached, three units requested
    let attached = vec![id(100), id(104)];
    let before = state.slot_available.clone();

    let err = transfer_hook(&mut state, 3_000_000_000, &attached).unwrap_err();
    assert_eq!(err, RedeemError::InsufficientRedeemableAssets);
    assert_eq!(state.slot_available, before);
}

#[test]
fn available_count_drops_by_exactly_the_redeemed_count() {
    let mut state = full_pool();
    let attached = all_custody(&state);
    let mut last = available_count(&state);

    for amount in [1_000_000_000u64, 2_500_000_000, 999_999_999, 4_000_000_000] {
        let reds = transfer_hook(&mut state, amount, &attached).unwrap();
        let now = available_count(&state);
        assert_eq!(now, last - reds.len());
        assert!(now <= last);
        last = now;
    }
    assert_eq!(last, 3);
}

#[test]
fn already_redeemed_slots_are_not_selected_again() {
    let mut state = full_pool();
    let attached = all_custody(&state);

    let first = transfer_hook(&mut state, 2_000_000_000, &attached).unwrap();
    let second = transfer_hook(&mut state, 2_000_000_000, &attached).unwrap();
    let first_slots: Vec<usize> = first.iter().map(|r| r.slot).collect();
    let second_slots: Vec<usize> = second.iter().map(|r| r.slot).collect();
    assert_eq!(first_slots, vec![0, 1]);
    assert_eq!(second_slots, vec![2, 3]);
}

use vaultix_escrow::address::Address;
use vaultix_escrow::confirmation::logic::{ConfirmationError, ConfirmationLogic};
use vaultix_escrow::confirmation::storage::{
    ConfirmationStorage, ConfirmationStorageKeys, RecordKind, StorageKey,
};
use vaultix_escrow::confirmation::types::{
    ConfirmationState, ConfirmationThreshold, EscrowConfirmationStatus, PartyConfirmation,
};

fn addr(s: &str) -> Address {
    Address::new(s.to_string())
}

fn three_parties() -> Vec<Address> {
    vec![addr("GPARTYONE"), addr("GPARTYTWO"), addr("GPARTYTHREE")]
}

#[test]
fn test_is_authorized_party() {
    let mut store = ConfirmationStorage::new();
    let outsider = addr("GOUTSIDER");
    let result =
        ConfirmationLogic::confirm(&mut store, 100, 1, &outsider, three_parties(), ConfirmationThreshold::All);
    assert_eq!(result.unwrap_err(), ConfirmationError::UnauthorizedParty);
    assert_eq!(ConfirmationLogic::get_confirmation_count(&store, 1), 0);

    let member = addr("GPARTYTWO");
    let result =
        ConfirmationLogic::confirm(&mut store, 100, 1, &member, three_parties(), ConfirmationThreshold::All);
    assert!(result.is_ok());
}

#[test]
fn test_duplicate_confirmation_detection() {
    let mut store = ConfirmationStorage::new();
    let party = addr("GPARTYONE");
    let first =
        ConfirmationLogic::confirm(&mut store, 10, 4, &party, three_parties(), ConfirmationThreshold::All);
    assert!(first.is_ok());
    assert!(!ConfirmationLogic::can_confirm(&store, 4, &party));
    let second =
        ConfirmationLogic::confirm(&mut store, 11, 4, &party, three_parties(), ConfirmationThreshold::All);
    assert_eq!(second.unwrap_err(), ConfirmationError::DuplicateConfirmation);
    assert_eq!(ConfirmationLogic::get_confirmation_count(&store, 4), 1);
}

#[test]
fn test_threshold_met_triggers_status_update() {
    let mut store = ConfirmationStorage::new();
    let parties = vec![addr("GA"), addr("GB")];
    let a = ConfirmationLogic::confirm(&mut store, 1, 9, &addr("GA"), parties.clone(), ConfirmationThreshold::All)
        .unwrap();
    assert!(!a.threshold_met);
    assert_eq!(ConfirmationLogic::get_escrow_status(&store, 9), EscrowConfirmationStatus::Pending);
    let b = ConfirmationLogic::confirm(&mut store, 2, 9, &addr("GB"), parties, ConfirmationThreshold::All)
        .unwrap();
    assert!(b.threshold_met);
    assert_eq!(ConfirmationLogic::get_escrow_status(&store, 9), EscrowConfirmationStatus::Confirmed);
}

#[test]
fn majority_of_three_met_on_second_confirmation() {
    let mut store = ConfirmationStorage::new();
    let parties = three_parties();
    let first = ConfirmationLogic::confirm(
        &mut store,
        500,
        7,
        &parties[0],
        parties.clone(),
        ConfirmationThreshold::Majority,
    )
    .unwrap();
    assert_eq!(first.confirmations_count, 1);
    assert!(!first.threshold_met);
    assert_eq!(first.escrow_id, 7);
    assert_eq!(first.party, parties[0]);
    assert_eq!(first.confirmed_at, 500);
    assert_eq!(ConfirmationLogic::get_escrow_status(&store, 7), EscrowConfirmationStatus::Pending);

    let second = ConfirmationLogic::confirm(
        &mut store,
        501,
        7,
        &parties[1],
        parties.clone(),
        ConfirmationThreshold::Majority,
    )
    .unwrap();
    assert_eq!(second.confirmations_count, 2);
    assert!(second.threshold_met);
    assert_eq!(ConfirmationLogic::get_escrow_status(&store, 7), EscrowConfirmationStatus::Confirmed);
    assert_eq!(
        ConfirmationLogic::get_party_state(&store, 7, &parties[1]),
        Some(ConfirmationState::Confirmed)
    );
    assert_eq!(ConfirmationLogic::get_party_state(&store, 7, &parties[2]), None);
}

#[test]
fn custom_above_party_count_never_met() {
    let mut store = ConfirmationStorage::new();
    let parties = three_parties();
    for (i, p) in parties.iter().enumerate() {
        let event = ConfirmationLogic::confirm(
            &mut store,
            1000 + i as u64,
            3,
            p,
            parties.clone(),
            ConfirmationThreshold::Custom(5),
        )
        .unwrap();
        assert!(!event.threshold_met);
        assert_eq!(event.confirmations_count, i as u32 + 1);
    }
    assert_eq!(ConfirmationLogic::get_escrow_status(&store, 3), EscrowConfirmationStatus::Pending);
    assert_eq!(
        ConfirmationLogic::get_remaining_confirmations(&store, 3, 3, ConfirmationThreshold::Custom(5)),
        0
    );
}

#[test]
fn locked_escrow_refuses_confirmations() {
    let mut store = ConfirmationStorage::new();
    let parties = three_parties();
    ConfirmationLogic::confirm(&mut store, 1, 2, &parties[0], parties.clone(), ConfirmationThreshold::All)
        .unwrap();
    ConfirmationLogic::lock_escrow(&mut store, 2);
    assert_eq!(ConfirmationLogic::get_escrow_status(&store, 2), EscrowConfirmationStatus::Locked);
    assert!(!ConfirmationLogic::can_confirm(&store, 2, &parties[1]));
    let result =
        ConfirmationLogic::confirm(&mut store, 2, 2, &parties[1], parties.clone(), ConfirmationThreshold::All);
    assert_eq!(result.unwrap_err(), ConfirmationError::EscrowLocked);
    // The lock is checked before the party list.
    let result = ConfirmationLogic::confirm(&mut store, 2, 2, &parties[1], Vec::new(), ConfirmationThreshold::All);
    assert_eq!(result.unwrap_err(), ConfirmationError::EscrowLocked);
    assert_eq!(ConfirmationLogic::get_confirmation_count(&store, 2), 1);
    // Other escrows are unaffected.
    assert!(ConfirmationLogic::can_confirm(&store, 5, &parties[1]));
}

#[test]
fn empty_party_list_rejected() {
    let mut store = ConfirmationStorage::new();
    let result =
        ConfirmationLogic::confirm(&mut store, 1, 1, &addr("GA"), Vec::new(), ConfirmationThreshold::All);
    assert_eq!(result.unwrap_err(), ConfirmationError::EmptyPartyList);
}

#[test]
fn pending_record_may_confirm() {
    let mut store = ConfirmationStorage::new();
    let party = addr("GA");
    store.set_party_confirmation(
        6,
        &party,
        PartyConfirmation {
            address: party.clone(),
            state: ConfirmationState::Pending,
            confirmed_at: 0,
            confirmation_count: 0,
        },
    );
    assert!(ConfirmationLogic::can_confirm(&store, 6, &party));
    assert_eq!(ConfirmationLogic::get_party_state(&store, 6, &party), Some(ConfirmationState::Pending));
    let event =
        ConfirmationLogic::confirm(&mut store, 77, 6, &party, vec![party.clone()], ConfirmationThreshold::All)
            .unwrap();
    assert!(event.threshold_met);
    let record = store.get_party_confirmation(6, &party).unwrap();
    assert_eq!(record.state, ConfirmationState::Confirmed);
    assert_eq!(record.confirmed_at, 77);
    assert_eq!(record.confirmation_count, 1);
    assert_eq!(record.address, party);
}

#[test]
fn storage_status_round_trip_and_counter() {
    let mut store = ConfirmationStorage::new();
    assert_eq!(store.get_status(1), EscrowConfirmationStatus::Pending);
    for s in [
        EscrowConfirmationStatus::Confirmed,
        EscrowConfirmationStatus::Failed,
        EscrowConfirmationStatus::Locked,
        EscrowConfirmationStatus::Pending,
    ] {
        store.set_status(1, s);
        assert_eq!(store.get_status(1), s);
    }
    assert_eq!(store.get_confirmation_count(1), 0);
    store.increment_confirmation_count(1);
    store.increment_confirmation_count(1);
    assert_eq!(store.get_confirmation_count(1), 2);
    assert_eq!(store.get_confirmation_count(2), 0);
}

#[test]
fn remaining_confirmations_follow_counter() {
    let mut store = ConfirmationStorage::new();
    let parties = three_parties();
    assert_eq!(
        ConfirmationLogic::get_remaining_confirmations(&store, 8, 3, ConfirmationThreshold::All),
        3
    );
    ConfirmationLogic::confirm(&mut store, 1, 8, &parties[2], parties.clone(), ConfirmationThreshold::All)
        .unwrap();
    assert_eq!(
        ConfirmationLogic::get_remaining_confirmations(&store, 8, 3, ConfirmationThreshold::All),
        2
    );
    assert_eq!(
        ConfirmationLogic::get_remaining_confirmations(&store, 8, 3, ConfirmationThreshold::Majority),
        1
    );
}

#[test]
fn storage_keys_name_kind_and_escrow() {
    assert_eq!(
        ConfirmationStorageKeys::party_confirmations(5),
        StorageKey { kind: RecordKind::PartyConfirmations, escrow_id: 5 }
    );
    assert_eq!(
        ConfirmationStorageKeys::escrow_status(5),
        StorageKey { kind: RecordKind::ConfirmationStatus, escrow_id: 5 }
    );
    assert_eq!(
        ConfirmationStorageKeys::threshold_config(6),
        StorageKey { kind: RecordKind::ThresholdConfig, escrow_id: 6 }
    );
    assert_eq!(
        ConfirmationStorageKeys::parties_list(7),
        StorageKey { kind: RecordKind::PartiesList, escrow_id: 7 }
    );
    assert_eq!(
        ConfirmationStorageKeys::confirmation_count(8),
        StorageKey { kind: RecordKind::ConfirmationCount, escrow_id: 8 }
    );
    assert_ne!(ConfirmationStorageKeys::escrow_status(5), ConfirmationStorageKeys::confirmation_count(5));
}

#[test]
fn changed_threshold_or_parties_refused() {
    let mut store = ConfirmationStorage::new();
    let parties = three_parties();
    ConfirmationLogic::confirm(&mut store, 1, 12, &parties[0], parties.clone(), ConfirmationThreshold::Majority)
        .unwrap();
    let other_threshold =
        ConfirmationLogic::confirm(&mut store, 2, 12, &parties[1], parties.clone(), ConfirmationThreshold::All);
    assert_eq!(other_threshold.unwrap_err(), ConfirmationError::InvalidThreshold);
    let fewer = vec![addr("GPARTYONE"), addr("GPARTYTWO")];
    let other_parties =
        ConfirmationLogic::confirm(&mut store, 2, 12, &parties[1], fewer, ConfirmationThreshold::Majority);
    assert_eq!(other_parties.unwrap_err(), ConfirmationError::InvalidThreshold);
    assert_eq!(ConfirmationLogic::get_confirmation_count(&store, 12), 1);
    assert_eq!(store.get_threshold_config(12), Some(ConfirmationThreshold::Majority));
    assert_eq!(store.get_parties_list(12).unwrap().len(), 3);
    // The same list and threshold are still accepted; other escrows are free.
    let event =
        ConfirmationLogic::confirm(&mut store, 3, 12, &parties[1], parties.clone(), ConfirmationThreshold::Majority)
            .unwrap();
    assert!(event.threshold_met);
    assert!(ConfirmationLogic::confirm(&mut store, 4, 13, &parties[1], parties.clone(), ConfirmationThreshold::All).is_ok());
    assert_eq!(store.get_threshold_config(14), None);
}

#[test]
fn party_checks_come_before_list_check() {
    let mut store = ConfirmationStorage::new();
    let parties = three_parties();
    ConfirmationLogic::confirm(&mut store, 1, 15, &parties[0], parties.clone(), ConfirmationThreshold::All)
        .unwrap();
    let other_list = vec![addr("GPARTYONE"), addr("GPARTYTWO")];
    let outsider =
        ConfirmationLogic::confirm(&mut store, 2, 15, &addr("GOUTSIDER"), other_list.clone(), ConfirmationThreshold::All);
    assert_eq!(outsider.unwrap_err(), ConfirmationError::UnauthorizedParty);
    let again =
        ConfirmationLogic::confirm(&mut store, 2, 15, &parties[0], other_list.clone(), ConfirmationThreshold::All);
    assert_eq!(again.unwrap_err(), ConfirmationError::DuplicateConfirmation);
    let changed = ConfirmationLogic::confirm(&mut store, 2, 15, &parties[1], other_list, ConfirmationThreshold::All);
    assert_eq!(changed.unwrap_err(), ConfirmationError::InvalidThreshold);
}

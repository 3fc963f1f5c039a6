use vaultix_escrow::confirmation::threshold::ThresholdLogic;
use vaultix_escrow::confirmation::types::ConfirmationThreshold;

#[test]
fn test_all_threshold() {
    assert!(!ThresholdLogic::is_threshold_met(ConfirmationThreshold::All, 2, 3));
    assert!(ThresholdLogic::is_threshold_met(ConfirmationThreshold::All, 3, 3));
}

#[test]
fn test_majority_threshold() {
    assert!(!ThresholdLogic::is_threshold_met(ConfirmationThreshold::Majority, 1, 3));
    assert!(ThresholdLogic::is_threshold_met(ConfirmationThreshold::Majority, 2, 3));
}

#[test]
fn test_custom_threshold() {
    assert!(!ThresholdLogic::is_threshold_met(ConfirmationThreshold::Custom(2), 1, 3));
    assert!(ThresholdLogic::is_threshold_met(ConfirmationThreshold::Custom(2), 2, 3));
}

#[test]
fn test_remaining_confirmations() {
    let remaining = ThresholdLogic::get_remaining_confirmations(ConfirmationThreshold::All, 1, 3);
    assert_eq!(remaining, 2);

    let remaining = ThresholdLogic::get_remaining_confirmations(ConfirmationThreshold::All, 3, 3);
    assert_eq!(remaining, 0);
}

#[test]
fn all_threshold_boundary_for_several_party_counts() {
    for n in [1u32, 2, 3, 7, 100, u32::MAX] {
        assert!(ThresholdLogic::is_threshold_met(ConfirmationThreshold::All, n, n));
        assert!(!ThresholdLogic::is_threshold_met(ConfirmationThreshold::All, n - 1, n));
    }
}

#[test]
fn majority_threshold_boundary_for_several_party_counts() {
    for n in [1u32, 2, 3, 4, 5, 10, 11, u32::MAX] {
        let half = n / 2 + n % 2;
        assert!(ThresholdLogic::is_threshold_met(ConfirmationThreshold::Majority, half, n));
        assert!(!ThresholdLogic::is_threshold_met(ConfirmationThreshold::Majority, half - 1, n));
    }
    assert!(ThresholdLogic::is_threshold_met(ConfirmationThreshold::Majority, 3, 5));
    assert!(!ThresholdLogic::is_threshold_met(ConfirmationThreshold::Majority, 2, 5));
    assert!(ThresholdLogic::is_threshold_met(ConfirmationThreshold::Majority, 2, 4));
}

#[test]
fn required_confirmations_per_policy() {
    assert_eq!(ThresholdLogic::get_required_confirmations(ConfirmationThreshold::All, 4), 4);
    assert_eq!(ThresholdLogic::get_required_confirmations(ConfirmationThreshold::Majority, 5), 3);
    assert_eq!(ThresholdLogic::get_required_confirmations(ConfirmationThreshold::Majority, 0), 1);
    assert_eq!(ThresholdLogic::get_required_confirmations(ConfirmationThreshold::Custom(2), 5), 2);
    assert_eq!(ThresholdLogic::get_required_confirmations(ConfirmationThreshold::Custom(9), 5), 5);
}

#[test]
fn custom_requirement_met_uncapped_but_remaining_capped() {
    // Five required of three parties: never met, yet nothing remains once all three confirm.
    for c in 0u32..=3 {
        assert!(!ThresholdLogic::is_threshold_met(ConfirmationThreshold::Custom(5), c, 3));
    }
    assert_eq!(ThresholdLogic::get_remaining_confirmations(ConfirmationThreshold::Custom(5), 1, 3), 2);
    assert_eq!(ThresholdLogic::get_remaining_confirmations(ConfirmationThreshold::Custom(5), 3, 3), 0);
    assert!(ThresholdLogic::is_threshold_met(ConfirmationThreshold::Custom(5), 5, 3));
}

#[test]
fn remaining_never_below_zero() {
    assert_eq!(ThresholdLogic::get_remaining_confirmations(ConfirmationThreshold::Majority, 9, 3), 0);
    assert_eq!(ThresholdLogic::get_remaining_confirmations(ConfirmationThreshold::Majority, 0, 3), 2);
}

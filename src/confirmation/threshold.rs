use vstd::prelude::*;

use crate::confirmation::types::ConfirmationThreshold;

verus! {

/// Half of `n`, rounded up.
pub open spec fn half_up(n: int) -> int {
    (n + 1) / 2
}

/// Whether `confirmations` out of `total_parties` satisfy the policy.
/// A custom requirement is taken as given, even above the number of parties.
pub open spec fn threshold_met(
    threshold: ConfirmationThreshold,
    confirmations: int,
    total_parties: int,
) -> bool {
    match threshold {
        ConfirmationThreshold::All => confirmations >= total_parties,
        ConfirmationThreshold::Majority => confirmations >= half_up(total_parties),
        ConfirmationThreshold::Custom(k) => confirmations >= k,
    }
}

/// The number of confirmations a policy asks for: a majority asks for at least
/// one, and a custom requirement is capped at the number of parties.
pub open spec fn required_confirmations(threshold: ConfirmationThreshold, total_parties: int) -> int {
    match threshold {
        ConfirmationThreshold::All => total_parties,
        ConfirmationThreshold::Majority => if half_up(total_parties) >= 1 {
            half_up(total_parties)
        } else {
            1
        },
        ConfirmationThreshold::Custom(k) => if k <= total_parties {
            k as int
        } else {
            total_parties
        },
    }
}

/// How many confirmations are still missing against the capped requirement.
pub open spec fn remaining_confirmations(
    threshold: ConfirmationThreshold,
    confirmations: int,
    total_parties: int,
) -> int {
    let required = required_confirmations(threshold, total_parties);
    if confirmations >= required {
        0
    } else {
        required - confirmations
    }
}

/// The threshold engine: pure functions of policy, count and party count.
pub struct ThresholdLogic;

impl ThresholdLogic {
    pub fn is_threshold_met(
        threshold: ConfirmationThreshold,
        confirmations: u32,
        total_parties: u32,
    ) -> (r: bool)
        ensures
            r == threshold_met(threshold, confirmations as int, total_parties as int),
    {
        match threshold {
            ConfirmationThreshold::All => confirmations >= total_parties,
            ConfirmationThreshold::Majority => {
                let required = total_parties / 2 + total_parties % 2;
                confirmations >= required
            },
            ConfirmationThreshold::Custom(required) => confirmations >= required,
        }
    }

    pub fn get_required_confirmations(threshold: ConfirmationThreshold, total_parties: u32) -> (r:
        u32)
        ensures
            r == required_confirmations(threshold, total_parties as int),
    {
        match threshold {
            ConfirmationThreshold::All => total_parties,
            ConfirmationThreshold::Majority => {
                let half = total_parties / 2 + total_parties % 2;
                if half >= 1 {
                    half
                } else {
                    1
                }
            },
            ConfirmationThreshold::Custom(required) => {
                if required <= total_parties {
                    required
                } else {
                    total_parties
                }
            },
        }
    }

    pub fn get_remaining_confirmations(
        threshold: ConfirmationThreshold,
        confirmations: u32,
        total_parties: u32,
    ) -> (r: u32)
        ensures
            r == remaining_confirmations(threshold, confirmations as int, total_parties as int),
    {
        let required = Self::get_required_confirmations(threshold, total_parties);
        if confirmations >= required {
            0
        } else {
            required - confirmations
        }
    }
}

/// Under `All`, `n` confirmations out of `n` parties meet the threshold and
/// `n - 1` do not, for every `n` of at least one.
pub proof fn lemma_all_threshold_boundary(n: int)
    requires
        n >= 1,
    ensures
        threshold_met(ConfirmationThreshold::All, n, n),
        !threshold_met(ConfirmationThreshold::All, n - 1, n),
{
}

/// Under `Majority`, half of the parties rounded up meet the threshold and one
/// fewer does not, for every party count of at least one.
pub proof fn lemma_majority_threshold_boundary(n: int)
    requires
        n >= 1,
    ensures
        threshold_met(ConfirmationThreshold::Majority, half_up(n), n),
        !threshold_met(ConfirmationThreshold::Majority, half_up(n) - 1, n),
{
}

/// A custom requirement above the number of parties is never met by
/// confirmations from those parties alone, while the remaining count, capped at
/// the number of parties, reaches zero once every party has confirmed.
pub proof fn lemma_custom_above_party_count(k: u32, confirmations: int, total_parties: int)
    requires
        0 <= confirmations <= total_parties < k,
    ensures
        !threshold_met(ConfirmationThreshold::Custom(k), confirmations, total_parties),
        remaining_confirmations(ConfirmationThreshold::Custom(k), confirmations, total_parties)
            == total_parties - confirmations,
{
}

} // verus!

use crate::types::{AnchorSettings, OldAnchorSettings, RewardDistribution};
use crate::validator_set::{validator_views, JailRecord, Timestamp, Validator, ValidatorSet};
use vstd::prelude::*;

verus! {

/// A validator set as it was kept before jail records were added.
#[derive(Debug)]
pub struct OldValidatorSet {
    pub id: u64,
    pub validators: Vec<Validator>,
    pub total_stake: u128,
    pub sequence: u64,
    pub timestamp: Timestamp,
    pub matured_in_appchain: bool,
}

/// A reward as it was kept before the mark of being paid out was added.
#[derive(Clone, Copy, Debug, PartialEq, Eq, Structural)]
pub struct OldRewardDistribution {
    pub validator_set_id: u64,
    pub amount: u128,
    pub timestamp: Timestamp,
}

impl ValidatorSet {
    /// The set with the same content and no jail record.
    pub fn from_old_version(old_vs: OldValidatorSet) -> (r: ValidatorSet)
        ensures
            r@.id == old_vs.id,
            r@.validators == validator_views(old_vs.validators@),
            r@.total_stake == old_vs.total_stake,
            r@.sequence == old_vs.sequence,
            r@.timestamp == old_vs.timestamp,
            r@.matured_in_appchain == old_vs.matured_in_appchain,
            r@.jailed_validators == Seq::<JailRecord>::empty(),
    {
        let r = ValidatorSet {
            id: old_vs.id,
            validators: old_vs.validators,
            total_stake: old_vs.total_stake,
            sequence: old_vs.sequence,
            timestamp: old_vs.timestamp,
            matured_in_appchain: old_vs.matured_in_appchain,
            jailed_validators: Vec::new(),
        };
        assert(r@.jailed_validators =~= Seq::empty());
        r
    }
}

impl RewardDistribution {
    /// The reward with the same content, not yet paid out.
    pub fn from_old_version(old_rd: OldRewardDistribution) -> (r: RewardDistribution)
        ensures
            r == (RewardDistribution {
                validator_set_id: old_rd.validator_set_id,
                amount: old_rd.amount,
                timestamp: old_rd.timestamp,
                distributed: false,
            }),
    {
        RewardDistribution {
            validator_set_id: old_rd.validator_set_id,
            amount: old_rd.amount,
            timestamp: old_rd.timestamp,
            distributed: false,
        }
    }
}

impl AnchorSettings {
    /// The settings with the same values, a jail interval of 600 seconds and
    /// the address prefix `ottovalcons`.
    pub fn from_old_version(old_settings: OldAnchorSettings) -> (r: AnchorSettings)
        ensures
            r.chain_revision_number == old_settings.chain_revision_number,
            r.era_reward == old_settings.era_reward,
            r.max_count_of_validators == old_settings.max_count_of_validators,
            r.min_length_of_validator_set_history
                == old_settings.min_length_of_validator_set_history,
            r.min_interval_for_new_validator_set == old_settings.min_interval_for_new_validator_set,
            r.vsc_packet_timeout_interval == old_settings.vsc_packet_timeout_interval,
            r.min_validator_staking_amount == old_settings.min_validator_staking_amount,
            r.min_unjail_interval == 600_000_000_000,
            r.appchain_address_bech32_hrp@ == "ottovalcons"@,
    {
        AnchorSettings {
            chain_revision_number: old_settings.chain_revision_number,
            era_reward: old_settings.era_reward,
            max_count_of_validators: old_settings.max_count_of_validators,
            min_length_of_validator_set_history: old_settings.min_length_of_validator_set_history,
            min_interval_for_new_validator_set: old_settings.min_interval_for_new_validator_set,
            vsc_packet_timeout_interval: old_settings.vsc_packet_timeout_interval,
            min_validator_staking_amount: old_settings.min_validator_staking_amount,
            min_unjail_interval: 600_000_000_000,
            appchain_address_bech32_hrp: String::from_str("ottovalcons"),
        }
    }
}

} // verus!

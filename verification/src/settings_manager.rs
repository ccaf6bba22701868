use crate::anchor::{AnchorError, AnchorModel, AppchainAnchor};
use crate::types::AnchorSettings;
use crate::validator_set::AccountId;
use vstd::prelude::*;

verus! {

/// Nanoseconds of one second.
pub const NANOS_PER_SECOND: u64 = 1_000_000_000;

/// What the owner may set. A setter refuses the value that is already set.
pub trait AnchorSettingsManager {
    fn change_chain_revision_number(&mut self, caller: &AccountId, value: u64) -> Result<
        (),
        AnchorError,
    >;

    fn change_era_reward(&mut self, caller: &AccountId, era_reward: u128) -> Result<
        (),
        AnchorError,
    >;

    /// The count has to be above 0.
    fn change_maximum_validator_count(&mut self, caller: &AccountId, value: u32) -> Result<
        (),
        AnchorError,
    >;

    fn change_min_length_of_validator_set_history(
        &mut self,
        caller: &AccountId,
        min_length: u64,
    ) -> Result<(), AnchorError>;

    /// The interval is given in seconds.
    fn change_min_interval_for_new_validator_set(
        &mut self,
        caller: &AccountId,
        min_interval: u64,
    ) -> Result<(), AnchorError>;

    /// The interval is given in seconds.
    fn change_vsc_packet_timeout_interval(&mut self, caller: &AccountId, interval: u64) -> Result<
        (),
        AnchorError,
    >;

    fn change_min_validator_staking_amount(&mut self, caller: &AccountId, amount: u128) -> Result<
        (),
        AnchorError,
    >;
}

impl AnchorModel {
    /// Why a setter refuses, if so: the caller is not the owner, the value is
    /// out of range, or it is the value already set.
    pub open spec fn setter_error(self, caller: Seq<char>, in_range: bool, changed: bool) -> Option<
        AnchorError,
    > {
        if caller != self.owner {
            Some(AnchorError::NotOwner)
        } else if !in_range {
            Some(AnchorError::InvalidValue)
        } else if !changed {
            Some(AnchorError::ValueNotChanged)
        } else {
            None
        }
    }

    pub open spec fn with_settings(self, settings: AnchorSettings) -> AnchorModel {
        AnchorModel { anchor_settings: settings, ..self }
    }
}

impl AnchorSettingsManager for AppchainAnchor {
    fn change_chain_revision_number(&mut self, caller: &AccountId, value: u64) -> (r: Result<
        (),
        AnchorError,
    >)
        ensures
            match r {
                Ok(_) => old(self)@.setter_error(
                    caller@,
                    true,
                    value != old(self)@.anchor_settings.chain_revision_number,
                ) is None && final(self)@ == old(self)@.with_settings(
                    AnchorSettings { chain_revision_number: value, ..old(self)@.anchor_settings },
                ),
                Err(e) => old(self)@.setter_error(
                    caller@,
                    true,
                    value != old(self)@.anchor_settings.chain_revision_number,
                ) == Some(e) && final(self)@ == old(self)@,
            },
    {
        if !self.is_owner(caller) {
            return Err(AnchorError::NotOwner);
        }
        if value == self.anchor_settings.chain_revision_number {
            return Err(AnchorError::ValueNotChanged);
        }
        self.anchor_settings.chain_revision_number = value;
        Ok(())
    }

    fn change_era_reward(&mut self, caller: &AccountId, era_reward: u128) -> (r: Result<
        (),
        AnchorError,
    >)
        ensures
            match r {
                Ok(_) => old(self)@.setter_error(
                    caller@,
                    true,
                    era_reward != old(self)@.anchor_settings.era_reward,
                ) is None && final(self)@ == old(self)@.with_settings(
                    AnchorSettings { era_reward, ..old(self)@.anchor_settings },
                ),
                Err(e) => old(self)@.setter_error(
                    caller@,
                    true,
                    era_reward != old(self)@.anchor_settings.era_reward,
                ) == Some(e) && final(self)@ == old(self)@,
            },
    {
        if !self.is_owner(caller) {
            return Err(AnchorError::NotOwner);
        }
        if era_reward == self.anchor_settings.era_reward {
            return Err(AnchorError::ValueNotChanged);
        }
        self.anchor_settings.era_reward = era_reward;
        Ok(())
    }

    fn change_maximum_validator_count(&mut self, caller: &AccountId, value: u32) -> (r: Result<
        (),
        AnchorError,
    >)
        ensures
            match r {
                Ok(_) => old(self)@.setter_error(
                    caller@,
                    value > 0,
                    value != old(self)@.anchor_settings.max_count_of_validators,
                ) is None && final(self)@ == old(self)@.with_settings(
                    AnchorSettings { max_count_of_validators: value, ..old(self)@.anchor_settings },
                ),
                Err(e) => old(self)@.setter_error(
                    caller@,
                    value > 0,
                    value != old(self)@.anchor_settings.max_count_of_validators,
                ) == Some(e) && final(self)@ == old(self)@,
            },
    {
        if !self.is_owner(caller) {
            return Err(AnchorError::NotOwner);
        }
        if value == 0 {
            return Err(AnchorError::InvalidValue);
        }
        if value == self.anchor_settings.max_count_of_validators {
            return Err(AnchorError::ValueNotChanged);
        }
        self.anchor_settings.max_count_of_validators = value;
        Ok(())
    }

    fn change_min_length_of_validator_set_history(
        &mut self,
        caller: &AccountId,
        min_length: u64,
    ) -> (r: Result<(), AnchorError>)
        ensures
            match r {
                Ok(_) => old(self)@.setter_error(
                    caller@,
                    true,
                    min_length != old(self)@.anchor_settings.min_length_of_validator_set_history,
                ) is None && final(self)@ == old(self)@.with_settings(
                    AnchorSettings {
                        min_length_of_validator_set_history: min_length,
                        ..old(self)@.anchor_settings
                    },
                ),
                Err(e) => old(self)@.setter_error(
                    caller@,
                    true,
                    min_length != old(self)@.anchor_settings.min_length_of_validator_set_history,
                ) == Some(e) && final(self)@ == old(self)@,
            },
    {
        if !self.is_owner(caller) {
            return Err(AnchorError::NotOwner);
        }
        if min_length == self.anchor_settings.min_length_of_validator_set_history {
            return Err(AnchorError::ValueNotChanged);
        }
        self.anchor_settings.min_length_of_validator_set_history = min_length;
        Ok(())
    }

    fn change_min_interval_for_new_validator_set(
        &mut self,
        caller: &AccountId,
        min_interval: u64,
    ) -> (r: Result<(), AnchorError>)
        ensures
            match r {
                Ok(_) => old(self)@.setter_error(
                    caller@,
                    min_interval * NANOS_PER_SECOND <= u64::MAX,
                    min_interval * NANOS_PER_SECOND != old(
                        self,
                    )@.anchor_settings.min_interval_for_new_validator_set,
                ) is None && final(self)@ == old(self)@.with_settings(
                    AnchorSettings {
                        min_interval_for_new_validator_set: (min_interval
                            * NANOS_PER_SECOND) as u64,
                        ..old(self)@.anchor_settings
                    },
                ),
                Err(e) => old(self)@.setter_error(
                    caller@,
                    min_interval * NANOS_PER_SECOND <= u64::MAX,
                    min_interval * NANOS_PER_SECOND != old(
                        self,
                    )@.anchor_settings.min_interval_for_new_validator_set,
                ) == Some(e) && final(self)@ == old(self)@,
            },
    {
        if !self.is_owner(caller) {
            return Err(AnchorError::NotOwner);
        }
        let nanos = match min_interval.checked_mul(NANOS_PER_SECOND) {
            Some(n) => n,
            None => {
                return Err(AnchorError::InvalidValue);
            },
        };
        if nanos == self.anchor_settings.min_interval_for_new_validator_set {
            return Err(AnchorError::ValueNotChanged);
        }
        self.anchor_settings.min_interval_for_new_validator_set = nanos;
        Ok(())
    }

    fn change_vsc_packet_timeout_interval(&mut self, caller: &AccountId, interval: u64) -> (r:
        Result<(), AnchorError>)
        ensures
            match r {
                Ok(_) => old(self)@.setter_error(
                    caller@,
                    interval * NANOS_PER_SECOND <= u64::MAX,
                    interval * NANOS_PER_SECOND != old(
                        self,
                    )@.anchor_settings.vsc_packet_timeout_interval,
                ) is None && final(self)@ == old(self)@.with_settings(
                    AnchorSettings {
                        vsc_packet_timeout_interval: (interval * NANOS_PER_SECOND) as u64,
                        ..old(self)@.anchor_settings
                    },
                ),
                Err(e) => old(self)@.setter_error(
                    caller@,
                    interval * NANOS_PER_SECOND <= u64::MAX,
                    interval * NANOS_PER_SECOND != old(
                        self,
                    )@.anchor_settings.vsc_packet_timeout_interval,
                ) == Some(e) && final(self)@ == old(self)@,
            },
    {
        if !self.is_owner(caller) {
            return Err(AnchorError::NotOwner);
        }
        let nanos = match interval.checked_mul(NANOS_PER_SECOND) {
            Some(n) => n,
            None => {
                return Err(AnchorError::InvalidValue);
            },
        };
        if nanos == self.anchor_settings.vsc_packet_timeout_interval {
            return Err(AnchorError::ValueNotChanged);
        }
        self.anchor_settings.vsc_packet_timeout_interval = nanos;
        Ok(())
    }

    fn change_min_validator_staking_amount(&mut self, caller: &AccountId, amount: u128) -> (r:
        Result<(), AnchorError>)
        ensures
            match r {
                Ok(_) => old(self)@.setter_error(
                    caller@,
                    true,
                    amount != old(self)@.anchor_settings.min_validator_staking_amount,
                ) is None && final(self)@ == old(self)@.with_settings(
                    AnchorSettings {
                        min_validator_staking_amount: amount,
                        ..old(self)@.anchor_settings
                    },
                ),
                Err(e) => old(self)@.setter_error(
                    caller@,
                    true,
                    amount != old(self)@.anchor_settings.min_validator_staking_amount,
                ) == Some(e) && final(self)@ == old(self)@,
            },
    {
        if !self.is_owner(caller) {
            return Err(AnchorError::NotOwner);
        }
        if amount == self.anchor_settings.min_validator_staking_amount {
            return Err(AnchorError::ValueNotChanged);
        }
        self.anchor_settings.min_validator_staking_amount = amount;
        Ok(())
    }
}

} // verus!

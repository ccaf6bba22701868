use crate::anchor::{lemma_update_keeps_inv, AnchorError, AnchorModel, AppchainAnchor};
use crate::types::{RewardDistribution, SlashPacketData, SlashPacketView};
use crate::validator_set::{lemma_transitions_keep_wf, AccountId, Timestamp};
use vstd::prelude::*;

verus! {

/// What the relay contract tells the anchor.
pub trait NearIbcActions {
    /// A slash packet has arrived: it joins the queue of packets to process.
    /// Returns its index in the queue.
    fn slash_validator(
        &mut self,
        caller: &AccountId,
        slash_packet_data: SlashPacketData,
        now: Timestamp,
    ) -> Result<u64, AnchorError>;

    /// The appchain has acknowledged the validator set `validator_set_id`.
    fn on_vsc_matured(&mut self, caller: &AccountId, validator_set_id: u64) -> Result<
        (),
        AnchorError,
    >;

    /// The reward of an era is due for the validator set `validator_set_id`:
    /// it joins the queue of rewards to pay out. Returns its index in the queue.
    fn distribute_reward(
        &mut self,
        caller: &AccountId,
        validator_set_id: u64,
        now: Timestamp,
    ) -> Result<u64, AnchorError>;
}

/// A slash packet as it is kept, received at `now`.
pub open spec fn received(data: SlashPacketData, now: Timestamp) -> SlashPacketView {
    SlashPacketView {
        validator: data.validator,
        valset_update_id: data.valset_update_id,
        infraction: data.infraction,
        received_timestamp: now,
    }
}

impl AnchorModel {
    /// Why the relay's call is refused, if so; `next_index` is the index that
    /// the call would append at.
    pub open spec fn relay_error(self, caller: Seq<char>, next_index: int) -> Option<AnchorError> {
        if caller != self.near_ibc_contract {
            Some(AnchorError::NotNearIbcContract)
        } else if next_index > u64::MAX {
            Some(AnchorError::Overflow)
        } else {
            None
        }
    }

    /// The reward that is due for a validator set at `now`.
    pub open spec fn era_reward_for(self, validator_set_id: u64, now: Timestamp) -> RewardDistribution {
        RewardDistribution {
            validator_set_id,
            amount: self.anchor_settings.era_reward,
            timestamp: now,
            distributed: false,
        }
    }

    /// Whether the history holds the set `validator_set_id` within its bounds.
    pub open spec fn holds_validator_set(self, validator_set_id: u64) -> bool {
        let history = self.validator_set_histories;
        history.start_index <= validator_set_id <= history.end_index && history.map.contains_key(
            validator_set_id,
        )
    }

    /// The anchor after the set `validator_set_id` has matured, if the history
    /// holds it.
    pub open spec fn matured(self, validator_set_id: u64) -> AnchorModel {
        if self.holds_validator_set(validator_set_id) {
            AnchorModel {
                validator_set_histories: self.validator_set_histories.update(
                    validator_set_id,
                    self.validator_set_histories.map[validator_set_id].matured(),
                ),
                ..self
            }
        } else {
            self
        }
    }
}

impl NearIbcActions for AppchainAnchor {
    fn slash_validator(
        &mut self,
        caller: &AccountId,
        slash_packet_data: SlashPacketData,
        now: Timestamp,
    ) -> (r: Result<u64, AnchorError>)
        ensures
            match r {
                Ok(index) => {
                    &&& old(self)@.relay_error(
                        caller@,
                        old(self)@.pending_slash_packets.next_index(),
                    ) is None
                    &&& index == old(self)@.pending_slash_packets.next_index()
                    &&& final(self)@ == (AnchorModel {
                        pending_slash_packets: old(self)@.pending_slash_packets.append(
                            received(slash_packet_data, now),
                        ),
                        ..old(self)@
                    })
                },
                Err(e) => old(self)@.relay_error(
                    caller@,
                    old(self)@.pending_slash_packets.next_index(),
                ) == Some(e) && final(self)@ == old(self)@,
            },
    {
        if !self.is_near_ibc_contract(caller) {
            return Err(AnchorError::NotNearIbcContract);
        }
        if !(self.pending_slash_packets.start_index == 0 && !self.pending_slash_packets.contains(
            &0,
        )) && self.pending_slash_packets.end_index == u64::MAX {
            return Err(AnchorError::Overflow);
        }
        let packet = SlashPacketView {
            validator: slash_packet_data.validator,
            valset_update_id: slash_packet_data.valset_update_id,
            infraction: slash_packet_data.infraction,
            received_timestamp: now,
        };
        let index = self.pending_slash_packets.append(packet);
        Ok(index)
    }

    fn on_vsc_matured(&mut self, caller: &AccountId, validator_set_id: u64) -> (r: Result<
        (),
        AnchorError,
    >)
        ensures
            match r {
                Ok(_) => caller@ == old(self)@.near_ibc_contract && final(self)@ == old(
                    self,
                )@.matured(validator_set_id),
                Err(e) => caller@ != old(self)@.near_ibc_contract && e
                    == AnchorError::NotNearIbcContract && final(self)@ == old(self)@,
            },
            old(self)@.inv() ==> final(self)@.inv(),
    {
        if !self.is_near_ibc_contract(caller) {
            return Err(AnchorError::NotNearIbcContract);
        }
        if self.validator_set_histories.start_index <= validator_set_id && validator_set_id
            <= self.validator_set_histories.end_index {
            match self.validator_set_histories.get(&validator_set_id) {
                Some(found) => {
                    let mut validator_set = found.duplicate();
                    validator_set.set_matured();
                    proof {
                        lemma_transitions_keep_wf(found@, Seq::empty(), 0, 0, 0);
                        if self@.inv() {
                            lemma_update_keeps_inv(self@, validator_set_id, validator_set@);
                        }
                    }
                    let written = self.validator_set_histories.update(
                        &validator_set_id,
                        validator_set,
                    );
                    assert(written is Ok);
                },
                None => {},
            }
        }
        Ok(())
    }

    fn distribute_reward(
        &mut self,
        caller: &AccountId,
        validator_set_id: u64,
        now: Timestamp,
    ) -> (r: Result<u64, AnchorError>)
        ensures
            match r {
                Ok(index) => {
                    &&& old(self)@.relay_error(caller@, old(self)@.pending_rewards.next_index())
                        is None
                    &&& index == old(self)@.pending_rewards.next_index()
                    &&& final(self)@ == (AnchorModel {
                        pending_rewards: old(self)@.pending_rewards.append(
                            old(self)@.era_reward_for(validator_set_id, now),
                        ),
                        ..old(self)@
                    })
                },
                Err(e) => old(self)@.relay_error(caller@, old(self)@.pending_rewards.next_index())
                    == Some(e) && final(self)@ == old(self)@,
            },
    {
        if !self.is_near_ibc_contract(caller) {
            return Err(AnchorError::NotNearIbcContract);
        }
        if !(self.pending_rewards.start_index == 0 && !self.pending_rewards.contains(&0))
            && self.pending_rewards.end_index == u64::MAX {
            return Err(AnchorError::Overflow);
        }
        let reward = RewardDistribution {
            validator_set_id,
            amount: self.anchor_settings.era_reward,
            timestamp: now,
            distributed: false,
        };
        let index = self.pending_rewards.append(reward);
        Ok(index)
    }
}

} // verus!

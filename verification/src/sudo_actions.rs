use crate::anchor::{
    lemma_update_keeps_inv, sound_or_clearing, AnchorError, AnchorModel, AppchainAnchor,
    ONE_TERA_GAS,
};
use crate::codec::{decode_ed25519_pubkey, decoded_pubkey};
use crate::ext_contracts::{FtBalanceOfRequest, SendVscPacketRequest};
use crate::gas::{lemma_steps_within_bounds, GasMeter};
use crate::lookup_array::{
    lemma_remove_at_done, lemma_update_dense, lemma_without_first_dense, LookupArrayModel,
};
use crate::packet::{byte_views, text_views};
use crate::types::{ProcessingResult, RewardDistribution, SlashPacketView};
use crate::validator_set::{
    lemma_stake_sum_nonnegative, lemma_transitions_keep_wf, model_of, stake_sum, validator_ids,
    AccountId, Timestamp, ValidatorModel, ValidatorSet, ValidatorSetViewer,
};
use vstd::prelude::*;

verus! {

/// Gas up to which the maintenance of the histories goes on.
pub const MAINTENANCE_GAS: u64 = 170 * ONE_TERA_GAS;

/// Gas up to which the removal of a slash packet goes on.
pub const SLASH_PACKET_REMOVAL_GAS: u64 = 20 * ONE_TERA_GAS;

/// What the owner may do beyond the settings.
pub trait SudoActions {
    fn change_appchain_registry(&mut self, caller: &AccountId, appchain_registry: AccountId) -> Result<
        (),
        AnchorError,
    >;

    fn change_near_ibc_contract(&mut self, caller: &AccountId, near_ibc_contract: AccountId) -> Result<
        (),
        AnchorError,
    >;

    fn set_reward_token_contract(&mut self, caller: &AccountId, account_id: AccountId) -> Result<
        (),
        AnchorError,
    >;

    /// Takes one step of the removal of the oldest validator set, as long as
    /// the history is longer than the minimum. Returns the index of that set
    /// and how far the step got.
    fn remove_oldest_validator_set(&mut self, caller: &AccountId, meter: &mut GasMeter) -> Result<
        (u64, ProcessingResult),
        AnchorError,
    >;

    /// Empties the queue of rewards, as far as the budget reaches.
    fn clear_pending_rewards(&mut self, caller: &AccountId, meter: &mut GasMeter) -> Result<
        ProcessingResult,
        AnchorError,
    >;

    /// Asks the reward token contract for the anchor's balance.
    fn update_locked_reward_token_balance(&self, caller: &AccountId) -> Result<
        FtBalanceOfRequest,
        AnchorError,
    >;

    /// Sends the packet for the latest set with the given removals, keys
    /// given as `ed25519:` and base64, and slash acknowledgements.
    fn force_send_vsc_packet(
        &self,
        caller: &AccountId,
        removing_pubkeys: Vec<String>,
        slash_acks: Vec<String>,
    ) -> Result<Option<SendVscPacketRequest>, AnchorError>;

    /// Drops the oldest slash packet that waits.
    fn remove_first_pending_slash_packets(
        &mut self,
        caller: &AccountId,
        meter: &mut GasMeter,
    ) -> Result<(), AnchorError>;

    /// Jails a validator of the latest set.
    fn force_jail_validator(
        &mut self,
        caller: &AccountId,
        validator_id: AccountId,
        now: Timestamp,
    ) -> Result<(), AnchorError>;

    /// Drops the rewards that are paid out from the front of the queue, up to
    /// the first that is not paid out; the last reward stays in any case.
    fn checked_clean_distributed_rewards(
        &mut self,
        caller: &AccountId,
        meter: &mut GasMeter,
    ) -> Result<(), AnchorError>;
}

/// Whether the first reward of the queue can leave: it is paid out, and it
/// is not the only one.
pub open spec fn front_can_leave(queue: LookupArrayModel<RewardDistribution>) -> bool {
    &&& queue.end_index > queue.start_index
    &&& queue.map.contains_key(queue.start_index)
    &&& queue.map[queue.start_index].distributed
}

/// The queue and the meter after the compaction: the first reward leaves,
/// for one burnt step, as long as it is paid out, it is not the only one and
/// the meter reads below `max_gas`.
pub open spec fn compacted(
    queue: LookupArrayModel<RewardDistribution>,
    meter: GasMeter,
    max_gas: u64,
) -> (LookupArrayModel<RewardDistribution>, GasMeter)
    decreases queue.end_index - queue.start_index,
{
    if meter.used < max_gas && front_can_leave(queue) {
        compacted(queue.without(queue.start_index), meter.burned(), max_gas)
    } else {
        (queue, meter)
    }
}

/// The compaction of a queue without gaps drops rewards from the front
/// only, all of them paid out, and leaves the others as they are, the last
/// one in any case. It ends when the meter has reached `max_gas`, when one
/// reward is left, or in front of a reward that is not paid out.
pub proof fn lemma_compaction_drops_a_paid_prefix(
    queue: LookupArrayModel<RewardDistribution>,
    meter: GasMeter,
    max_gas: u64,
)
    requires
        queue.dense(),
    ensures
        ({
            let (after, m) = compacted(queue, meter, max_gas);
            &&& after.dense()
            &&& after.end_index == queue.end_index
            &&& queue.start_index <= after.start_index
            &&& queue.len() >= 1 ==> after.len() >= 1
            &&& after.len() == queue.len() - (after.start_index - queue.start_index)
            &&& forall|i: u64|
                queue.start_index <= i < after.start_index ==> queue.map.contains_key(i) && (
                #[trigger] queue.map[i]).distributed
            &&& forall|i: u64| #[trigger]
                after.map.contains_key(i) ==> queue.map.contains_key(i) && after.map[i]
                    == queue.map[i]
            &&& m.used >= max_gas || after.len() <= 1 || !after.map[after.start_index].distributed
        }),
    decreases queue.end_index - queue.start_index,
{
    if meter.used < max_gas && front_can_leave(queue) {
        let next = queue.without(queue.start_index);
        lemma_without_first_dense::<RewardDistribution>(queue);
        lemma_compaction_drops_a_paid_prefix(next, meter.burned(), max_gas);
        let (after, m) = compacted(next, meter.burned(), max_gas);
        assert forall|i: u64| queue.start_index <= i < after.start_index implies queue.map.contains_key(
            i,
        ) && (#[trigger] queue.map[i]).distributed by {
            if i > queue.start_index {
                assert(next.start_index == queue.start_index + 1);
                assert(next.map.contains_key(i) && next.map[i].distributed);
                assert(next.map[i] == queue.map[i]);
            }
        }
        assert forall|i: u64| #[trigger] after.map.contains_key(i) implies queue.map.contains_key(i)
            && after.map[i] == queue.map[i] by {
            assert(next.map.contains_key(i));
        }
    }
}

/// The keys that the texts hold, if every text holds one.
pub open spec fn decoded_keys(keys: Seq<Seq<char>>) -> Option<Seq<Seq<u8>>> {
    if forall|i: int| 0 <= i < keys.len() ==> decoded_pubkey(#[trigger] keys[i]) is Some {
        Some(keys.map_values(|k: Seq<char>| decoded_pubkey(k)->0))
    } else {
        None
    }
}

impl AnchorModel {
    /// Why a change of an account is refused, if so.
    pub open spec fn account_change_error(self, caller: Seq<char>, changed: bool) -> Option<
        AnchorError,
    > {
        self.setter_error(caller, true, changed)
    }

    pub open spec fn remove_oldest_error(self, caller: Seq<char>) -> Option<AnchorError> {
        if caller != self.owner {
            Some(AnchorError::NotOwner)
        } else if self.validator_set_histories.len()
            <= self.anchor_settings.min_length_of_validator_set_history {
            Some(AnchorError::HistoryTooShort)
        } else {
            None
        }
    }

    /// The history, the meter and the result after one step of the removal of
    /// the oldest validator set.
    pub open spec fn oldest_removed(self, meter: GasMeter) -> (
        LookupArrayModel<ValidatorSet>,
        GasMeter,
        ProcessingResult,
    ) {
        if meter.used >= MAINTENANCE_GAS {
            (self.validator_set_histories, meter, ProcessingResult::NeedMoreGas)
        } else {
            self.validator_set_histories.remove_at(
                meter,
                self.validator_set_histories.start_index,
                MAINTENANCE_GAS,
            )
        }
    }

    pub open spec fn force_send_error(self, caller: Seq<char>, keys: Seq<Seq<char>>) -> Option<
        AnchorError,
    > {
        if caller != self.owner {
            Some(AnchorError::NotOwner)
        } else {
            match self.latest_validator_set() {
                None => None,
                Some(latest) => if decoded_keys(keys) is None {
                    Some(AnchorError::InvalidPublicKey)
                } else {
                    self.send_error(latest, self.previous_validator_set())
                },
            }
        }
    }

    pub open spec fn force_jail_error(self, caller: Seq<char>, id: Seq<char>) -> Option<
        AnchorError,
    > {
        if caller != self.owner {
            Some(AnchorError::NotOwner)
        } else {
            match self.latest_validator_set() {
                None => Some(AnchorError::NoValidatorSet),
                Some(latest) => if !latest.contains_validator(id) {
                    Some(AnchorError::ValidatorNotInLatestSet)
                } else {
                    match latest.jail_error(id) {
                        Some(e) => Some(AnchorError::ValidatorSet(e)),
                        None => None,
                    }
                },
            }
        }
    }

    pub open spec fn remove_slash_packet_error(self, caller: Seq<char>) -> Option<AnchorError> {
        if caller != self.owner {
            Some(AnchorError::NotOwner)
        } else if !self.pending_slash_packets.map.contains_key(
            self.pending_slash_packets.start_index,
        ) {
            Some(AnchorError::NoPendingSlashPacket)
        } else {
            None
        }
    }
}

proof fn lemma_stake_sum_skip(validators: Seq<ValidatorModel>, k: int)
    requires
        0 <= k <= validators.len(),
    ensures
        0 <= stake_sum(validators.skip(k)) <= stake_sum(validators),
    decreases validators.len(),
{
    lemma_stake_sum_nonnegative(validators.skip(k));
    if k < validators.len() {
        lemma_stake_sum_skip(validators.drop_last(), k);
        assert(validators.skip(k).drop_last() =~= validators.drop_last().skip(k));
    } else {
        lemma_stake_sum_nonnegative(validators);
        assert(validators.skip(k) =~= Seq::empty());
    }
}

/// One step of the removal of the oldest validator set keeps the invariant.
pub proof fn lemma_remove_oldest_keeps_inv(anchor: AnchorModel, meter: GasMeter)
    requires
        anchor.inv(),
    ensures
        (AnchorModel { validator_set_histories: anchor.oldest_removed(meter).0, ..anchor }).inv(),
{
    let history = anchor.validator_set_histories;
    let start = history.start_index;
    if meter.used < MAINTENANCE_GAS {
        let after = history.remove_at(meter, start, MAINTENANCE_GAS).0;
        lemma_remove_at_done::<ValidatorSet>(history, meter, start, MAINTENANCE_GAS);
        lemma_without_first_dense::<ValidatorSet>(history);
        if history.map.contains_key(start) {
            let set = history.map[start];
            let m1 = meter.burned();
            let (record, m2, result) = set.cleared(m1, MAINTENANCE_GAS);
            if result is NeedMoreGas {
                let steps = set.clear_steps(m1, MAINTENANCE_GAS);
                lemma_steps_within_bounds(m1, MAINTENANCE_GAS, set.validators.len());
                lemma_stake_sum_skip(set.validators, steps as int);
                assert(validator_ids(record.validators) =~= validator_ids(set.validators).skip(
                    steps as int,
                ));
                lemma_update_dense::<ValidatorSet>(history, start, record);
                assert forall|i: u64| #[trigger] after.map.contains_key(i) implies {
                    &&& after.map[i].id == i
                    &&& sound_or_clearing(after.map[i])
                    &&& i != after.start_index ==> after.map[i].wf()
                } by {
                    assert(history.map.contains_key(i));
                }
            } else {
                assert forall|i: u64| #[trigger] after.map.contains_key(i) implies {
                    &&& after.map[i].id == i
                    &&& sound_or_clearing(after.map[i])
                    &&& i != after.start_index ==> after.map[i].wf()
                } by {
                    assert(history.map.contains_key(i));
                }
            }
        }
    }
}

impl SudoActions for AppchainAnchor {
    fn change_appchain_registry(&mut self, caller: &AccountId, appchain_registry: AccountId) -> (r:
        Result<(), AnchorError>)
        ensures
            match r {
                Ok(_) => old(self)@.account_change_error(
                    caller@,
                    appchain_registry@ != old(self)@.appchain_registry,
                ) is None && final(self)@ == (AnchorModel {
                    appchain_registry: appchain_registry@,
                    ..old(self)@
                }),
                Err(e) => old(self)@.account_change_error(
                    caller@,
                    appchain_registry@ != old(self)@.appchain_registry,
                ) == Some(e) && final(self)@ == old(self)@,
            },
    {
        if !self.is_owner(caller) {
            return Err(AnchorError::NotOwner);
        }
        if appchain_registry == self.appchain_registry {
            return Err(AnchorError::ValueNotChanged);
        }
        self.appchain_registry = appchain_registry;
        Ok(())
    }

    fn change_near_ibc_contract(&mut self, caller: &AccountId, near_ibc_contract: AccountId) -> (r:
        Result<(), AnchorError>)
        ensures
            match r {
                Ok(_) => old(self)@.account_change_error(
                    caller@,
                    near_ibc_contract@ != old(self)@.near_ibc_contract,
                ) is None && final(self)@ == (AnchorModel {
                    near_ibc_contract: near_ibc_contract@,
                    ..old(self)@
                }),
                Err(e) => old(self)@.account_change_error(
                    caller@,
                    near_ibc_contract@ != old(self)@.near_ibc_contract,
                ) == Some(e) && final(self)@ == old(self)@,
            },
    {
        if !self.is_owner(caller) {
            return Err(AnchorError::NotOwner);
        }
        if near_ibc_contract == self.near_ibc_contract {
            return Err(AnchorError::ValueNotChanged);
        }
        self.near_ibc_contract = near_ibc_contract;
        Ok(())
    }

    fn set_reward_token_contract(&mut self, caller: &AccountId, account_id: AccountId) -> (r:
        Result<(), AnchorError>)
        ensures
            match r {
                Ok(_) => old(self)@.account_change_error(
                    caller@,
                    account_id@ != old(self)@.reward_token_contract,
                ) is None && final(self)@ == (AnchorModel {
                    reward_token_contract: account_id@,
                    ..old(self)@
                }),
                Err(e) => old(self)@.account_change_error(
                    caller@,
                    account_id@ != old(self)@.reward_token_contract,
                ) == Some(e) && final(self)@ == old(self)@,
            },
    {
        if !self.is_owner(caller) {
            return Err(AnchorError::NotOwner);
        }
        if account_id == self.reward_token_contract {
            return Err(AnchorError::ValueNotChanged);
        }
        self.reward_token_contract = account_id;
        Ok(())
    }

    fn remove_oldest_validator_set(&mut self, caller: &AccountId, meter: &mut GasMeter) -> (r:
        Result<(u64, ProcessingResult), AnchorError>)
        ensures
            match r {
                Ok((era_number, result)) => {
                    &&& old(self)@.remove_oldest_error(caller@) is None
                    &&& era_number == old(self)@.validator_set_histories.start_index
                    &&& (final(self)@.validator_set_histories, *final(meter), result) == old(
                        self,
                    )@.oldest_removed(*old(meter))
                    &&& final(self)@ == (AnchorModel {
                        validator_set_histories: final(self)@.validator_set_histories,
                        ..old(self)@
                    })
                },
                Err(e) => old(self)@.remove_oldest_error(caller@) == Some(e) && final(self)@
                    == old(self)@ && *final(meter) == *old(meter),
            },
            old(self)@.inv() ==> final(self)@.inv(),
    {
        if !self.is_owner(caller) {
            return Err(AnchorError::NotOwner);
        }
        let start = self.validator_set_histories.start_index;
        let end = self.validator_set_histories.end_index;
        let min_length = self.anchor_settings.min_length_of_validator_set_history;
        let long_enough = if end > start {
            end - start >= min_length
        } else {
            min_length == 0 && self.validator_set_histories.contains(&start)
        };
        if !long_enough {
            return Err(AnchorError::HistoryTooShort);
        }
        proof {
            if self@.inv() {
                lemma_remove_oldest_keeps_inv(self@, *meter);
            }
        }
        if meter.used_gas() >= MAINTENANCE_GAS {
            return Ok((start, ProcessingResult::NeedMoreGas));
        }
        let result = self.validator_set_histories.remove_first(meter, MAINTENANCE_GAS);
        Ok((start, result))
    }

    fn clear_pending_rewards(&mut self, caller: &AccountId, meter: &mut GasMeter) -> (r: Result<
        ProcessingResult,
        AnchorError,
    >)
        ensures
            match r {
                Ok(result) => {
                    &&& caller@ == old(self)@.owner
                    &&& (final(self)@.pending_rewards, *final(meter), result) == old(
                        self,
                    )@.pending_rewards.clear(*old(meter), MAINTENANCE_GAS)
                    &&& final(self)@ == (AnchorModel {
                        pending_rewards: final(self)@.pending_rewards,
                        ..old(self)@
                    })
                },
                Err(e) => caller@ != old(self)@.owner && e == AnchorError::NotOwner && final(self)@
                    == old(self)@ && *final(meter) == *old(meter),
            },
    {
        if !self.is_owner(caller) {
            return Err(AnchorError::NotOwner);
        }
        Ok(self.pending_rewards.clear(meter, MAINTENANCE_GAS))
    }

    fn update_locked_reward_token_balance(&self, caller: &AccountId) -> (r: Result<
        FtBalanceOfRequest,
        AnchorError,
    >)
        ensures
            match r {
                Ok(request) => caller@ == self@.owner && request.reward_token_contract@
                    == self@.reward_token_contract,
                Err(e) => caller@ != self@.owner && e == AnchorError::NotOwner,
            },
    {
        if !self.is_owner(caller) {
            return Err(AnchorError::NotOwner);
        }
        Ok(FtBalanceOfRequest { reward_token_contract: self.reward_token_contract.clone() })
    }

    fn force_send_vsc_packet(
        &self,
        caller: &AccountId,
        removing_pubkeys: Vec<String>,
        slash_acks: Vec<String>,
    ) -> (r: Result<Option<SendVscPacketRequest>, AnchorError>)
        ensures
            match r {
                Ok(request) => {
                    &&& self@.force_send_error(caller@, text_views(removing_pubkeys@)) is None
                    &&& match self@.latest_validator_set() {
                        None => request is None,
                        Some(latest) => request is Some && self@.is_vsc_request(
                            request->0,
                            latest,
                            self@.previous_validator_set(),
                            decoded_keys(text_views(removing_pubkeys@))->0,
                            text_views(slash_acks@),
                        ),
                    }
                },
                Err(e) => self@.force_send_error(caller@, text_views(removing_pubkeys@)) == Some(e),
            },
    {
        if !self.is_owner(caller) {
            return Err(AnchorError::NotOwner);
        }
        let latest = match self.validator_set_histories.get_last() {
            Some(set) => set,
            None => {
                return Ok(None);
            },
        };
        let previous = self.validator_set_histories.get_second_last();
        let ghost keys = text_views(removing_pubkeys@);
        let mut removing: Vec<Vec<u8>> = Vec::new();
        let mut i: usize = 0;
        proof {
            assert(byte_views(removing@) =~= Seq::empty());
        }
        while i < removing_pubkeys.len()
            invariant
                i <= removing_pubkeys.len(),
                caller@ == self@.owner,
                self@.latest_validator_set() is Some,
                keys == text_views(removing_pubkeys@),
                byte_views(removing@).len() == i,
                forall|j: int| 0 <= j < i ==> decoded_pubkey(#[trigger] keys[j]) == Some(byte_views(removing@)[j]),
            decreases removing_pubkeys.len() - i,
        {
            let ghost before = byte_views(removing@);
            match decode_ed25519_pubkey(&removing_pubkeys[i]) {
                Ok(bytes) => {
                    removing.push(bytes);
                    proof {
                        assert(byte_views(removing@) =~= before.push(bytes@));
                    }
                },
                Err(_) => {
                    proof {
                        assert(decoded_pubkey(keys[i as int]) is None);
                    }
                    return Err(AnchorError::InvalidPublicKey);
                },
            }
            i = i + 1;
        }
        proof {
            assert(decoded_keys(keys) is Some);
            assert(byte_views(removing@) =~= decoded_keys(keys)->0);
            assert(model_of(Some(latest)) == self@.latest_validator_set());
        }
        match self.send_vsc_packet(latest, previous, removing, slash_acks) {
            Ok(request) => Ok(Some(request)),
            Err(e) => Err(e),
        }
    }

    fn remove_first_pending_slash_packets(
        &mut self,
        caller: &AccountId,
        meter: &mut GasMeter,
    ) -> (r: Result<(), AnchorError>)
        ensures
            match r {
                Ok(_) => old(self)@.remove_slash_packet_error(caller@) is None && final(self)@ == (
                AnchorModel {
                    pending_slash_packets: old(self)@.pending_slash_packets.without(
                        old(self)@.pending_slash_packets.start_index,
                    ),
                    ..old(self)@
                }) && *final(meter) == old(meter).burned(),
                Err(e) => old(self)@.remove_slash_packet_error(caller@) == Some(e) && final(self)@
                    == old(self)@ && *final(meter) == *old(meter),
            },
    {
        if !self.is_owner(caller) {
            return Err(AnchorError::NotOwner);
        }
        if self.pending_slash_packets.get_first().is_none() {
            return Err(AnchorError::NoPendingSlashPacket);
        }
        proof {
            lemma_remove_at_done::<SlashPacketView>(
                self@.pending_slash_packets,
                *meter,
                self@.pending_slash_packets.start_index,
                SLASH_PACKET_REMOVAL_GAS,
            );
        }
        self.pending_slash_packets.remove_first(meter, SLASH_PACKET_REMOVAL_GAS);
        Ok(())
    }

    fn force_jail_validator(
        &mut self,
        caller: &AccountId,
        validator_id: AccountId,
        now: Timestamp,
    ) -> (r: Result<(), AnchorError>)
        ensures
            match r {
                Ok(_) => old(self)@.force_jail_error(caller@, validator_id@) is None && final(self)@ == old(self)@.with_latest(
                    old(self)@.latest_validator_set()->0.jailed(validator_id@, now),
                ),
                Err(e) => old(self)@.force_jail_error(caller@, validator_id@) == Some(e) && final(self)@ == old(self)@,
            },
            old(self)@.inv() ==> final(self)@.inv(),
    {
        if !self.is_owner(caller) {
            return Err(AnchorError::NotOwner);
        }
        let latest = match self.validator_set_histories.get_last() {
            Some(set) => set,
            None => {
                return Err(AnchorError::NoValidatorSet);
            },
        };
        if !latest.contains_validator(&validator_id) {
            return Err(AnchorError::ValidatorNotInLatestSet);
        }
        let mut validator_set = latest.duplicate();
        match validator_set.jail_validator(&validator_id, now) {
            Ok(_) => {},
            Err(e) => {
                return Err(AnchorError::ValidatorSet(e));
            },
        }
        proof {
            lemma_transitions_keep_wf(latest@, validator_id@, 0, 0, now);
            if self@.inv() {
                lemma_update_keeps_inv(
                    self@,
                    self.validator_set_histories.end_index,
                    validator_set@,
                );
            }
        }
        self.validator_set_histories.update_last(validator_set);
        Ok(())
    }

    fn checked_clean_distributed_rewards(
        &mut self,
        caller: &AccountId,
        meter: &mut GasMeter,
    ) -> (r: Result<(), AnchorError>)
        ensures
            match r {
                Ok(_) => {
                    &&& caller@ == old(self)@.owner
                    &&& (final(self)@.pending_rewards, *final(meter)) == compacted(
                        old(self)@.pending_rewards,
                        *old(meter),
                        MAINTENANCE_GAS,
                    )
                    &&& final(self)@ == (AnchorModel {
                        pending_rewards: final(self)@.pending_rewards,
                        ..old(self)@
                    })
                },
                Err(e) => caller@ != old(self)@.owner && e == AnchorError::NotOwner && final(self)@
                    == old(self)@ && *final(meter) == *old(meter),
            },
    {
        if !self.is_owner(caller) {
            return Err(AnchorError::NotOwner);
        }
        while meter.used_gas() < MAINTENANCE_GAS && self.first_reward_can_leave()
            invariant
                compacted(self@.pending_rewards, *meter, MAINTENANCE_GAS) == compacted(
                    old(self)@.pending_rewards,
                    *old(meter),
                    MAINTENANCE_GAS,
                ),
                self@ == (AnchorModel { pending_rewards: self@.pending_rewards, ..old(self)@ }),
            decreases self.pending_rewards.end_index - self.pending_rewards.start_index,
        {
            proof {
                lemma_remove_at_done::<RewardDistribution>(
                    self@.pending_rewards,
                    *meter,
                    self@.pending_rewards.start_index,
                    MAINTENANCE_GAS,
                );
            }
            self.pending_rewards.remove_first(meter, MAINTENANCE_GAS);
        }
        Ok(())
    }
}

impl AppchainAnchor {
    fn first_reward_can_leave(&self) -> (r: bool)
        ensures
            r == front_can_leave(self@.pending_rewards),
    {
        if self.pending_rewards.end_index <= self.pending_rewards.start_index {
            return false;
        }
        match self.pending_rewards.get_first() {
            Some(first) => first.distributed,
            None => false,
        }
    }
}

} // verus!

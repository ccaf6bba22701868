use crate::anchor::{
    lemma_update_keeps_inv, AnchorError, AnchorModel, AppchainAnchor, ONE_TERA_GAS,
    T_GAS_FOR_SIMPLE_FUNCTION_CALL,
};
use crate::codec::{
    bech32_encoding, bech32_hrp_valid, calculate_bech32_address, chain_id_accepted, chain_id_text,
    consumer_chain_id, consumer_chain_id_text, make_chain_id,
};
use crate::gas::GasMeter;
use crate::keyed::{copy_bytes, value_of};
use crate::restaking_base_actions::address_of;
use crate::types::{SlashEvidence, SlashPacketView};
use crate::ext_contracts::{FtTransferCallRequest, GetValidatorSetRequest, SendVscPacketRequest};
use crate::lookup_array::LookupArrayModel;
use crate::packet::{
    build_vsc_entries, byte_views, collect_key_powers, copy_texts, key_power_views, key_powers,
    keys_registered, text_views, vsc_entries, KeyPower,
};
use crate::types::{
    AnchorDepositRewardMsg, AppchainState, FtTransferMessage, RewardDistribution, VscPacketData,
};
use crate::codec::calculate_address;
use crate::validator_set::{
    is_slash_ack, lemma_transitions_keep_wf, model_of, stake_views, validator_views, AccountId,
    Timestamp, ValidatorModel, ValidatorSet, ValidatorSetModel, ValidatorSetViewer, ValidatorStatus,
};
use vstd::prelude::*;

verus! {

/// What any account may ask of the anchor.
pub trait PermissionlessActions {
    /// Asks the staking ledger for the validator set, once the latest set is
    /// old enough.
    fn fetch_validator_set_from_restaking_base(&self, now: Timestamp) -> Result<
        GetValidatorSetRequest,
        AnchorError,
    >;

    /// Sends the packet that leads from the set before the latest to the
    /// latest set, if there is a latest set. The packet acknowledges the
    /// slashes of the latest set.
    fn send_vsc_packet_to_appchain(&self) -> Result<Option<SendVscPacketRequest>, AnchorError>;

    /// Pays out the oldest reward that has not been paid out yet.
    fn distribute_pending_rewards(&self, prepaid_gas: u64) -> Result<
        FtTransferCallRequest,
        AnchorError,
    >;

    /// Sets a jailed validator of the latest set free and tells the appchain.
    fn unjail_validator(&mut self, validator_id: AccountId, now: Timestamp) -> Result<
        SendVscPacketRequest,
        AnchorError,
    >;

    /// Processes the oldest slash packet that waits, if there is one, and
    /// takes it from the queue.
    fn process_first_pending_slash_packet(&mut self, now: Timestamp, meter: &mut GasMeter) -> Result<
        Option<SlashOutcome>,
        AnchorError,
    >;
}

/// What became of a slash packet.
#[derive(Debug)]
pub enum SlashOutcome {
    /// The evidence is older than the set before the latest one: nothing was
    /// done.
    Stale,
    /// The validator was jailed for downtime; the packet that tells the
    /// appchain is to be sent.
    Jailed(SendVscPacketRequest),
    /// The infraction is of no known kind: nothing was done.
    Ignored,
}

pub open spec fn downtime() -> Seq<char> {
    "INFRACTION_DOWNTIME"@
}

pub open spec fn double_sign() -> Seq<char> {
    "INFRACTION_DOUBLE_SIGN"@
}

/// The first position from `lo` to `hi` that holds a reward not yet paid out.
pub open spec fn first_undistributed(
    pending: LookupArrayModel<RewardDistribution>,
    lo: int,
    hi: int,
) -> Option<u64>
    decreases hi - lo + 1,
{
    if lo > hi || lo < 0 || lo > u64::MAX {
        None
    } else if pending.map.contains_key(lo as u64) && !pending.map[lo as u64].distributed {
        Some(lo as u64)
    } else {
        first_undistributed(pending, lo + 1, hi)
    }
}

/// Whether the slash of a validator is acknowledged with its address: it is
/// jailed or waits for a slash, and it has a registered key.
pub open spec fn has_ack_address(v: ValidatorModel, pubkeys: Seq<(Seq<char>, Seq<u8>)>) -> bool {
    is_slash_ack(v) && value_of(pubkeys, v.validator_id) is Some
}

pub open spec fn previous_powers(
    anchor: AnchorModel,
    previous: Option<ValidatorSetModel>,
) -> Option<Seq<KeyPower>> {
    match previous {
        Some(p) => Some(key_powers(p.validators, anchor.validator_id_to_pubkey_map)),
        None => None,
    }
}

impl AnchorModel {
    /// The chain id of the appchain at its current revision.
    pub open spec fn chain_id(self) -> Seq<char> {
        chain_id_text(self.appchain_id, self.anchor_settings.chain_revision_number)
    }

    /// Why no packet can be sent for `current` after `previous`, if so.
    pub open spec fn send_error(
        self,
        current: ValidatorSetModel,
        previous: Option<ValidatorSetModel>,
    ) -> Option<AnchorError> {
        if self.appchain_state != AppchainState::Active {
            Some(AnchorError::AppchainNotActive)
        } else if !chain_id_accepted(self.chain_id()) {
            Some(AnchorError::InvalidChainId)
        } else if !keys_registered(current.validators, self.validator_id_to_pubkey_map) {
            Some(AnchorError::PubkeyNotRegistered)
        } else if previous is Some && !keys_registered(
            previous->0.validators,
            self.validator_id_to_pubkey_map,
        ) {
            Some(AnchorError::PubkeyNotRegistered)
        } else {
            None
        }
    }

    /// Whether `request` is the packet for `current` after `previous`, with
    /// the removals and the slash acknowledgements given.
    pub open spec fn is_vsc_request(
        self,
        request: SendVscPacketRequest,
        current: ValidatorSetModel,
        previous: Option<ValidatorSetModel>,
        removing: Seq<Seq<u8>>,
        slash_acks: Seq<Seq<char>>,
    ) -> bool {
        &&& request.near_ibc_contract@ == self.near_ibc_contract
        &&& request.chain_id@ == self.chain_id()
        &&& request.timeout_timestamp_interval == self.anchor_settings.vsc_packet_timeout_interval
        &&& request.vsc_packet_data.validator_set_id == current.id
        &&& text_views(request.vsc_packet_data.slash_acks@) == slash_acks
        &&& key_power_views(request.vsc_packet_data.validator_pubkeys@) == vsc_entries(
            key_powers(current.validators, self.validator_id_to_pubkey_map),
            previous_powers(self, previous),
            removing,
        )
    }

    /// The addresses on the appchain of the validators of a set whose slash
    /// is acknowledged, in the order of the set.
    pub open spec fn slash_acks_of(self, set: ValidatorSetModel) -> Seq<Seq<char>> {
        set.validators.filter(
            |v: ValidatorModel| has_ack_address(v, self.validator_id_to_pubkey_map),
        ).map_values(
            |v: ValidatorModel|
                bech32_encoding(
                    self.anchor_settings.appchain_address_bech32_hrp@,
                    address_of(value_of(self.validator_id_to_pubkey_map, v.validator_id).unwrap()),
                ),
        )
    }

    /// Why the packet for `current` after `previous`, with the
    /// acknowledgements of `current`, cannot be sent, if so.
    pub open spec fn periodic_error(
        self,
        current: ValidatorSetModel,
        previous: Option<ValidatorSetModel>,
    ) -> Option<AnchorError> {
        if self.slash_acks_of(current).len() > 0 && !bech32_hrp_valid(
            self.anchor_settings.appchain_address_bech32_hrp@,
        ) {
            Some(AnchorError::InvalidAddressPrefix)
        } else {
            self.send_error(current, previous)
        }
    }

    /// Whether `request` is the packet for `current` after `previous` with the
    /// acknowledgements of `current` and no removals.
    pub open spec fn is_periodic_request(
        self,
        request: SendVscPacketRequest,
        current: ValidatorSetModel,
        previous: Option<ValidatorSetModel>,
    ) -> bool {
        self.is_vsc_request(request, current, previous, Seq::empty(), self.slash_acks_of(current))
    }

    /// Why no validator set can be fetched at `now`, if so.
    pub open spec fn fetch_error(self, now: Timestamp) -> Option<AnchorError> {
        match self.latest_validator_set() {
            Some(latest) => if now - latest.timestamp
                > self.anchor_settings.min_interval_for_new_validator_set {
                None
            } else {
                Some(AnchorError::IntervalTooShort)
            },
            None => None,
        }
    }

    /// The oldest reward that has not been paid out, by its index.
    pub open spec fn first_undistributed_reward(self) -> Option<u64> {
        first_undistributed(
            self.pending_rewards,
            self.pending_rewards.start_index as int,
            self.pending_rewards.end_index as int,
        )
    }

    /// Why no reward can be paid out, if so.
    pub open spec fn distribute_error(self, prepaid_gas: u64) -> Option<AnchorError> {
        if prepaid_gas < T_GAS_FOR_SIMPLE_FUNCTION_CALL * 10 * ONE_TERA_GAS {
            Some(AnchorError::NotEnoughGas)
        } else {
            match self.first_undistributed_reward() {
                None => Some(AnchorError::NoPendingReward),
                Some(index) => if self.locked_reward_token_amount
                    < self.pending_rewards.map[index].amount {
                    Some(AnchorError::InsufficientEscrow)
                } else if !self.validator_set_histories.map.contains_key(
                    self.pending_rewards.map[index].validator_set_id,
                ) {
                    Some(AnchorError::NoValidatorSet)
                } else {
                    None
                },
            }
        }
    }

    /// Why `id` cannot be set free at `now`, if so.
    pub open spec fn unjail_error(self, id: Seq<char>, now: Timestamp) -> Option<AnchorError> {
        match self.latest_validator_set() {
            None => Some(AnchorError::NoValidatorSet),
            Some(latest) => if !latest.contains_validator(id) {
                Some(AnchorError::ValidatorNotInLatestSet)
            } else {
                match latest.unjail_error(id, self.anchor_settings.min_unjail_interval, now) {
                    Some(e) => Some(AnchorError::ValidatorSet(e)),
                    None => self.periodic_error(
                        latest.unjailed(id, now),
                        self.previous_validator_set(),
                    ),
                }
            },
        }
    }

    /// The validator that the evidence names, if its address is registered.
    pub open spec fn slash_target(self, evidence: SlashEvidence) -> Option<Seq<char>> {
        match evidence.address {
            Some(address) => value_of(self.validator_address_to_id_map, address),
            None => None,
        }
    }

    /// Whether the evidence is older than the set before the latest one.
    pub open spec fn slash_is_stale(self, evidence: SlashEvidence) -> bool {
        self.latest_validator_set() is Some && self.latest_validator_set()->0.id
            > evidence.valset_update_id + 1
    }

    /// The keys to remove from the appchain with a slashed validator: its
    /// registered key, if it has one.
    pub open spec fn slash_removals(self, id: Seq<char>) -> Seq<Seq<u8>> {
        match value_of(self.validator_id_to_pubkey_map, id) {
            Some(key) => seq![key],
            None => Seq::empty(),
        }
    }

    /// The acknowledgement that goes with the jailing of the validator at
    /// `address`: its bech32 address.
    pub open spec fn slash_acks(self, address: Seq<u8>) -> Seq<Seq<char>> {
        seq![bech32_encoding(self.anchor_settings.appchain_address_bech32_hrp@, address)]
    }

    /// Why the evidence cannot be processed, if so.
    pub open spec fn slash_error(self, evidence: SlashEvidence, now: Timestamp) -> Option<
        AnchorError,
    > {
        if self.latest_validator_set() is None {
            Some(AnchorError::NoValidatorSet)
        } else if evidence.address is None {
            Some(AnchorError::EmptySlashPacket)
        } else if self.slash_target(evidence) is None {
            Some(AnchorError::AddressNotRegistered)
        } else if self.slash_is_stale(evidence) {
            None
        } else if evidence.infraction == downtime() {
            let latest = self.latest_validator_set()->0;
            let id = self.slash_target(evidence)->0;
            match latest.jail_error(id) {
                Some(e) => Some(AnchorError::ValidatorSet(e)),
                None => if !bech32_hrp_valid(self.anchor_settings.appchain_address_bech32_hrp@) {
                    Some(AnchorError::InvalidAddressPrefix)
                } else {
                    self.send_error(latest.jailed(id, now), self.previous_validator_set())
                },
            }
        } else if evidence.infraction == double_sign() {
            Some(AnchorError::DoubleSignNotSupported)
        } else {
            None
        }
    }

    /// The anchor with `set` in the place of the latest set.
    pub open spec fn with_latest(self, set: ValidatorSetModel) -> AnchorModel {
        AnchorModel {
            validator_set_histories: self.validator_set_histories.update(
                self.validator_set_histories.end_index,
                set,
            ),
            ..self
        }
    }
}

impl AppchainAnchor {
    /// The packet for `validator_set` after `previous_validator_set`: see
    /// `vsc_entries`. The appchain has to be active, and every active
    /// validator of both sets needs a registered key.
    pub fn send_vsc_packet(
        &self,
        validator_set: &ValidatorSet,
        previous_validator_set: Option<&ValidatorSet>,
        removing_pubkeys: Vec<Vec<u8>>,
        slash_acks: Vec<String>,
    ) -> (r: Result<SendVscPacketRequest, AnchorError>)
        ensures
            match r {
                Ok(request) => self@.send_error(validator_set@, model_of(previous_validator_set))
                    is None && self@.is_vsc_request(
                    request,
                    validator_set@,
                    model_of(previous_validator_set),
                    byte_views(removing_pubkeys@),
                    text_views(slash_acks@),
                ),
                Err(e) => self@.send_error(validator_set@, model_of(previous_validator_set))
                    == Some(e),
            },
    {
        if self.appchain_state != AppchainState::Active {
            return Err(AnchorError::AppchainNotActive);
        }
        let chain_id = match make_chain_id(
            &self.appchain_id,
            self.anchor_settings.chain_revision_number,
        ) {
            Some(text) => text,
            None => {
                return Err(AnchorError::InvalidChainId);
            },
        };
        let validator_pubkeys = match self.generate_vsc_packet_entries(
            validator_set,
            previous_validator_set,
            &removing_pubkeys,
        ) {
            Some(entries) => entries,
            None => {
                return Err(AnchorError::PubkeyNotRegistered);
            },
        };
        Ok(
            SendVscPacketRequest {
                near_ibc_contract: self.near_ibc_contract.clone(),
                chain_id,
                vsc_packet_data: VscPacketData {
                    validator_pubkeys,
                    validator_set_id: validator_set.id,
                    slash_acks,
                },
                timeout_timestamp_interval: self.anchor_settings.vsc_packet_timeout_interval,
            },
        )
    }

    /// The addresses that acknowledge the slashes of a set: for each validator
    /// that is jailed or waits for a slash, and has a registered key, the
    /// bech32 form of its address.
    pub fn slash_acks_for(&self, validator_set: &ValidatorSet) -> (r: Result<
        Vec<String>,
        AnchorError,
    >)
        ensures
            match r {
                Ok(acks) => text_views(acks@) == self@.slash_acks_of(validator_set@) && (
                acks@.len() > 0 ==> bech32_hrp_valid(
                    self@.anchor_settings.appchain_address_bech32_hrp@,
                )),
                Err(e) => e == AnchorError::InvalidAddressPrefix && self@.slash_acks_of(
                    validator_set@,
                ).len() > 0 && !bech32_hrp_valid(
                    self@.anchor_settings.appchain_address_bech32_hrp@,
                ),
            },
    {
        let ghost all = validator_set@.validators;
        let ghost pred = |v: ValidatorModel| has_ack_address(v, self@.validator_id_to_pubkey_map);
        let ghost place = |v: ValidatorModel|
            address_of(value_of(self@.validator_id_to_pubkey_map, v.validator_id).unwrap());
        let ghost ack = |v: ValidatorModel|
            bech32_encoding(
                self@.anchor_settings.appchain_address_bech32_hrp@,
                address_of(value_of(self@.validator_id_to_pubkey_map, v.validator_id).unwrap()),
            );
        let mut addresses: Vec<Vec<u8>> = Vec::new();
        let mut i: usize = 0;
        proof {
            reveal(Seq::filter);
            assert(all.take(0) =~= Seq::empty());
            assert(byte_views(addresses@) =~= Seq::empty());
        }
        while i < validator_set.validators.len()
            invariant
                i <= validator_set.validators.len(),
                all == validator_set@.validators,
                pred == |v: ValidatorModel| has_ack_address(v, self@.validator_id_to_pubkey_map),
                place == |v: ValidatorModel|
                    address_of(
                        value_of(self@.validator_id_to_pubkey_map, v.validator_id).unwrap(),
                    ),
                byte_views(addresses@) == all.take(i as int).filter(pred).map_values(place),
            decreases validator_set.validators.len() - i,
        {
            let ghost seen = all.take(i as int);
            let ghost v = all[i as int];
            let ghost before = byte_views(addresses@);
            proof {
                assert(all.take(i as int + 1) =~= seen.push(v));
                seen.lemma_filter_push(v, pred);
                seen.filter(pred).lemma_push_map_commute(place, v);
            }
            let acknowledged = match validator_set.validators[i].status {
                ValidatorStatus::Jailed => true,
                ValidatorStatus::WaitForSlash(_) => true,
                _ => false,
            };
            if acknowledged {
                match self.validator_id_to_pubkey_map.get(&validator_set.validators[i].validator_id) {
                    Some(key) => {
                        addresses.push(calculate_address(key.as_slice()));
                        proof {
                            assert(byte_views(addresses@) =~= before.push(place(v)));
                        }
                    },
                    None => {},
                }
            }
            i = i + 1;
        }
        proof {
            assert(all.take(i as int) =~= all);
        }
        let ghost places = byte_views(addresses@);
        let ghost target = self@.slash_acks_of(validator_set@);
        proof {
            assert(target =~= places.map_values(
                |a: Seq<u8>|
                    bech32_encoding(self@.anchor_settings.appchain_address_bech32_hrp@, a),
            ));
        }
        let mut acks: Vec<String> = Vec::new();
        let mut j: usize = 0;
        proof {
            assert(text_views(acks@) =~= target.take(0));
        }
        while j < addresses.len()
            invariant
                j <= addresses.len(),
                places == byte_views(addresses@),
                target == self@.slash_acks_of(validator_set@),
                target.len() == places.len(),
                forall|k: int|
                    0 <= k < target.len() ==> #[trigger] target[k] == bech32_encoding(
                        self@.anchor_settings.appchain_address_bech32_hrp@,
                        places[k],
                    ),
                text_views(acks@) == target.take(j as int),
                j > 0 ==> bech32_hrp_valid(self@.anchor_settings.appchain_address_bech32_hrp@),
            decreases addresses.len() - j,
        {
            let ghost before = text_views(acks@);
            match calculate_bech32_address(
                self.anchor_settings.appchain_address_bech32_hrp.clone(),
                copy_bytes(&addresses[j]),
            ) {
                Ok(text) => {
                    acks.push(text);
                    proof {
                        assert(places[j as int] == addresses@[j as int]@);
                        assert(text_views(acks@) =~= before.push(target[j as int]));
                        assert(target.take(j as int + 1) =~= target.take(j as int).push(
                            target[j as int],
                        ));
                    }
                },
                Err(_) => {
                    return Err(AnchorError::InvalidAddressPrefix);
                },
            }
            j = j + 1;
        }
        proof {
            assert(target.take(j as int) =~= target);
        }
        Ok(acks)
    }

    /// The packet for `validator_set` after `previous_validator_set` with the
    /// acknowledgements of `validator_set` and no removals.
    pub fn send_periodic_packet(
        &self,
        validator_set: &ValidatorSet,
        previous_validator_set: Option<&ValidatorSet>,
    ) -> (r: Result<SendVscPacketRequest, AnchorError>)
        ensures
            match r {
                Ok(request) => self@.periodic_error(
                    validator_set@,
                    model_of(previous_validator_set),
                ) is None && self@.is_periodic_request(
                    request,
                    validator_set@,
                    model_of(previous_validator_set),
                ),
                Err(e) => self@.periodic_error(validator_set@, model_of(previous_validator_set))
                    == Some(e),
            },
    {
        let acks = match self.slash_acks_for(validator_set) {
            Ok(acks) => acks,
            Err(e) => {
                return Err(e);
            },
        };
        let removing: Vec<Vec<u8>> = Vec::new();
        proof {
            assert(byte_views(removing@) =~= Seq::empty());
        }
        self.send_vsc_packet(validator_set, previous_validator_set, removing, acks)
    }

    /// The data of the packet for `validator_set` after
    /// `previous_validator_set`, or `None` where an active validator of one of
    /// them has no registered key.
    pub fn generate_vsc_packet_data(
        &self,
        validator_set: &ValidatorSet,
        previous_validator_set: Option<&ValidatorSet>,
        removing_pubkeys: &Vec<Vec<u8>>,
        slash_acks: &Vec<String>,
    ) -> (r: Option<VscPacketData>)
        ensures
            match r {
                Some(data) => {
                    &&& keys_registered(validator_set@.validators, self@.validator_id_to_pubkey_map)
                    &&& previous_validator_set is Some ==> keys_registered(
                        previous_validator_set->0@.validators,
                        self@.validator_id_to_pubkey_map,
                    )
                    &&& key_power_views(data.validator_pubkeys@) == vsc_entries(
                        key_powers(validator_set@.validators, self@.validator_id_to_pubkey_map),
                        previous_powers(self@, model_of(previous_validator_set)),
                        byte_views(removing_pubkeys@),
                    )
                    &&& data.validator_set_id == validator_set@.id
                    &&& data.slash_acks@ == slash_acks@
                },
                None => !keys_registered(validator_set@.validators, self@.validator_id_to_pubkey_map)
                    || (previous_validator_set is Some && !keys_registered(
                    previous_validator_set->0@.validators,
                    self@.validator_id_to_pubkey_map,
                )),
            },
    {
        match self.generate_vsc_packet_entries(
            validator_set,
            previous_validator_set,
            removing_pubkeys,
        ) {
            Some(validator_pubkeys) => Some(
                VscPacketData {
                    validator_pubkeys,
                    validator_set_id: validator_set.id,
                    slash_acks: copy_texts(slash_acks),
                },
            ),
            None => None,
        }
    }

    fn generate_vsc_packet_entries(
        &self,
        validator_set: &ValidatorSet,
        previous_validator_set: Option<&ValidatorSet>,
        removing_pubkeys: &Vec<Vec<u8>>,
    ) -> (r: Option<Vec<crate::types::ValidatorKeyAndPower>>)
        ensures
            match r {
                Some(entries) => {
                    &&& keys_registered(validator_set@.validators, self@.validator_id_to_pubkey_map)
                    &&& previous_validator_set is Some ==> keys_registered(
                        previous_validator_set->0@.validators,
                        self@.validator_id_to_pubkey_map,
                    )
                    &&& key_power_views(entries@) == vsc_entries(
                        key_powers(validator_set@.validators, self@.validator_id_to_pubkey_map),
                        previous_powers(self@, model_of(previous_validator_set)),
                        byte_views(removing_pubkeys@),
                    )
                },
                None => !keys_registered(validator_set@.validators, self@.validator_id_to_pubkey_map)
                    || (previous_validator_set is Some && !keys_registered(
                    previous_validator_set->0@.validators,
                    self@.validator_id_to_pubkey_map,
                )),
            },
    {
        let current = match collect_key_powers(
            &validator_set.validators,
            &self.validator_id_to_pubkey_map,
        ) {
            Some(entries) => entries,
            None => {
                return None;
            },
        };
        let previous = match previous_validator_set {
            Some(p) => match collect_key_powers(&p.validators, &self.validator_id_to_pubkey_map) {
                Some(entries) => Some(entries),
                None => {
                    return None;
                },
            },
            None => None,
        };
        Some(build_vsc_entries(current, previous, removing_pubkeys))
    }

    /// The oldest reward that has not been paid out, with its index.
    pub fn get_first_undistributed_reward(&self) -> (r: Option<(u64, RewardDistribution)>)
        ensures
            match r {
                Some((index, reward)) => self@.first_undistributed_reward() == Some(index)
                    && self@.pending_rewards.map[index] == reward,
                None => self@.first_undistributed_reward() is None,
            },
    {
        let lo = self.pending_rewards.start_index;
        let hi = self.pending_rewards.end_index;
        if lo > hi {
            return None;
        }
        let mut index: u64 = lo;
        loop
            invariant
                lo <= index <= hi,
                lo == self.pending_rewards.start_index,
                hi == self.pending_rewards.end_index,
                first_undistributed(self@.pending_rewards, index as int, hi as int)
                    == self@.first_undistributed_reward(),
            decreases hi - index,
        {
            match self.pending_rewards.get(&index) {
                Some(reward) => {
                    if !reward.distributed {
                        return Some((index, *reward));
                    }
                },
                None => {},
            }
            if index == hi {
                assert(first_undistributed(self@.pending_rewards, hi as int + 1, hi as int)
                    is None);
                return None;
            }
            index = index + 1;
        }
    }

    /// Acts on slash evidence. Evidence older than the set before the latest
    /// one is set aside. Downtime jails the validator in the latest set and
    /// yields the packet that removes its key and acknowledges the slash.
    /// Evidence of a double sign is refused; any other kind is ignored.
    pub fn internal_process_slash_packet(
        &mut self,
        slash_packet_view: &SlashPacketView,
        now: Timestamp,
    ) -> (r: Result<SlashOutcome, AnchorError>)
        ensures
            match r {
                Ok(outcome) => {
                    let evidence = slash_packet_view.evidence();
                    let latest = old(self)@.latest_validator_set()->0;
                    let id = old(self)@.slash_target(evidence)->0;
                    &&& old(self)@.slash_error(evidence, now) is None
                    &&& match outcome {
                        SlashOutcome::Stale => old(self)@.slash_is_stale(evidence) && final(self)@
                            == old(self)@,
                        SlashOutcome::Jailed(request) => {
                            &&& !old(self)@.slash_is_stale(evidence)
                            &&& evidence.infraction == downtime()
                            &&& final(self)@ == old(self)@.with_latest(latest.jailed(id, now))
                            &&& old(self)@.is_vsc_request(
                                request,
                                latest.jailed(id, now),
                                old(self)@.previous_validator_set(),
                                old(self)@.slash_removals(id),
                                old(self)@.slash_acks(evidence.address->0),
                            )
                        },
                        SlashOutcome::Ignored => {
                            &&& !old(self)@.slash_is_stale(evidence)
                            &&& evidence.infraction != downtime()
                            &&& evidence.infraction != double_sign()
                            &&& final(self)@ == old(self)@
                        },
                    }
                },
                Err(e) => old(self)@.slash_error(slash_packet_view.evidence(), now) == Some(e)
                    && final(self)@ == old(self)@,
            },
            old(self)@.inv() ==> final(self)@.inv(),
    {
        let (latest, previous) = self.latest_and_previous();
        let latest = match latest {
            Some(set) => set,
            None => {
                return Err(AnchorError::NoValidatorSet);
            },
        };
        let address = match &slash_packet_view.validator {
            Some(validator) => &validator.address,
            None => {
                return Err(AnchorError::EmptySlashPacket);
            },
        };
        let validator_id = match self.validator_address_to_id_map.get(address) {
            Some(id) => id.clone(),
            None => {
                return Err(AnchorError::AddressNotRegistered);
            },
        };
        if slash_packet_view.valset_update_id < u64::MAX && latest.id
            > slash_packet_view.valset_update_id + 1 {
            return Ok(SlashOutcome::Stale);
        }
        if slash_packet_view.infraction == String::from_str("INFRACTION_DOWNTIME") {
            let mut validator_set = latest.duplicate();
            match validator_set.jail_validator(&validator_id, now) {
                Ok(_) => {},
                Err(e) => {
                    return Err(AnchorError::ValidatorSet(e));
                },
            }
            let ack = match calculate_bech32_address(
                self.anchor_settings.appchain_address_bech32_hrp.clone(),
                copy_bytes(address),
            ) {
                Ok(text) => text,
                Err(_) => {
                    return Err(AnchorError::InvalidAddressPrefix);
                },
            };
            let mut removing: Vec<Vec<u8>> = Vec::new();
            match self.validator_id_to_pubkey_map.get(&validator_id) {
                Some(key) => {
                    removing.push(copy_bytes(key));
                },
                None => {},
            }
            let mut acks: Vec<String> = Vec::new();
            acks.push(ack);
            proof {
                assert(byte_views(removing@) =~= self@.slash_removals(validator_id@));
                assert(text_views(acks@) =~= self@.slash_acks(address@));
            }
            let request = match self.send_vsc_packet(&validator_set, previous, removing, acks) {
                Ok(request) => request,
                Err(e) => {
                    return Err(e);
                },
            };
            proof {
                lemma_transitions_keep_wf(latest@, validator_id@, 0, 0, now);
                if self@.inv() {
                    lemma_update_keeps_inv(
                        self@,
                        self.validator_set_histories.end_index,
                        validator_set@,
                    );
                }
            }
            self.validator_set_histories.update_last(validator_set);
            Ok(SlashOutcome::Jailed(request))
        } else if slash_packet_view.infraction == String::from_str("INFRACTION_DOUBLE_SIGN") {
            Err(AnchorError::DoubleSignNotSupported)
        } else {
            Ok(SlashOutcome::Ignored)
        }
    }

    fn latest_and_previous(&self) -> (r: (Option<&ValidatorSet>, Option<&ValidatorSet>))
        ensures
            model_of(r.0) == self@.latest_validator_set(),
            model_of(r.1) == self@.previous_validator_set(),
    {
        (self.validator_set_histories.get_last(), self.validator_set_histories.get_second_last())
    }
}

impl PermissionlessActions for AppchainAnchor {
    fn fetch_validator_set_from_restaking_base(&self, now: Timestamp) -> (r: Result<
        GetValidatorSetRequest,
        AnchorError,
    >)
        ensures
            match r {
                Ok(request) => {
                    &&& self@.fetch_error(now) is None
                    &&& request.restaking_base_contract@ == self@.restaking_base_contract
                    &&& request.consumer_chain_id@ == consumer_chain_id_text(self@.appchain_id)
                    &&& request.limit == self@.anchor_settings.max_count_of_validators
                },
                Err(e) => self@.fetch_error(now) == Some(e),
            },
    {
        match self.validator_set_histories.get_last() {
            Some(latest) => {
                if now < latest.timestamp || now - latest.timestamp
                    <= self.anchor_settings.min_interval_for_new_validator_set {
                    return Err(AnchorError::IntervalTooShort);
                }
            },
            None => {},
        }
        Ok(
            GetValidatorSetRequest {
                restaking_base_contract: self.restaking_base_contract.clone(),
                consumer_chain_id: consumer_chain_id(&self.appchain_id),
                limit: self.anchor_settings.max_count_of_validators,
            },
        )
    }

    fn send_vsc_packet_to_appchain(&self) -> (r: Result<Option<SendVscPacketRequest>, AnchorError>)
        ensures
            match self@.latest_validator_set() {
                None => r == Ok::<Option<SendVscPacketRequest>, AnchorError>(None),
                Some(latest) => match r {
                    Ok(request) => request is Some && self@.periodic_error(
                        latest,
                        self@.previous_validator_set(),
                    ) is None && self@.is_periodic_request(
                        request->0,
                        latest,
                        self@.previous_validator_set(),
                    ),
                    Err(e) => self@.periodic_error(latest, self@.previous_validator_set()) == Some(
                        e,
                    ),
                },
            },
    {
        let (latest, previous) = self.latest_and_previous();
        match latest {
            Some(validator_set) => {
                match self.send_periodic_packet(validator_set, previous) {
                    Ok(request) => Ok(Some(request)),
                    Err(e) => Err(e),
                }
            },
            None => Ok(None),
        }
    }

    fn distribute_pending_rewards(&self, prepaid_gas: u64) -> (r: Result<
        FtTransferCallRequest,
        AnchorError,
    >)
        ensures
            match r {
                Ok(request) => {
                    let index = self@.first_undistributed_reward()->0;
                    let reward = self@.pending_rewards.map[index];
                    let set = self@.validator_set_histories.map[reward.validator_set_id];
                    &&& self@.distribute_error(prepaid_gas) is None
                    &&& request.reward_token_contract@ == self@.reward_token_contract
                    &&& request.receiver_id@ == self@.lpos_market_contract
                    &&& request.amount == reward.amount
                    &&& request.reward_distribution == reward
                    &&& request.reward_distribution_index == index
                    &&& request.msg is AnchorDepositRewardMsg
                    &&& request.msg->0.consumer_chain_id@ == consumer_chain_id_text(
                        self@.appchain_id,
                    )
                    &&& stake_views(request.msg->0.validator_set@) == set.active_validators()
                    &&& request.msg->0.sequence == set.sequence
                },
                Err(e) => self@.distribute_error(prepaid_gas) == Some(e),
            },
    {
        if prepaid_gas < T_GAS_FOR_SIMPLE_FUNCTION_CALL * 10 * ONE_TERA_GAS {
            return Err(AnchorError::NotEnoughGas);
        }
        let (index, reward) = match self.get_first_undistributed_reward() {
            Some(found) => found,
            None => {
                return Err(AnchorError::NoPendingReward);
            },
        };
        if self.locked_reward_token_amount < reward.amount {
            return Err(AnchorError::InsufficientEscrow);
        }
        let validator_set = match self.validator_set_histories.get(&reward.validator_set_id) {
            Some(set) => set,
            None => {
                return Err(AnchorError::NoValidatorSet);
            },
        };
        let msg = FtTransferMessage::AnchorDepositRewardMsg(
            AnchorDepositRewardMsg {
                consumer_chain_id: consumer_chain_id(&self.appchain_id),
                validator_set: validator_set.active_validators(),
                sequence: validator_set.sequence(),
            },
        );
        Ok(
            FtTransferCallRequest {
                reward_token_contract: self.reward_token_contract.clone(),
                receiver_id: self.lpos_market_contract.clone(),
                amount: reward.amount,
                msg,
                reward_distribution: reward,
                reward_distribution_index: index,
            },
        )
    }

    fn unjail_validator(&mut self, validator_id: AccountId, now: Timestamp) -> (r: Result<
        SendVscPacketRequest,
        AnchorError,
    >)
        ensures
            match r {
                Ok(request) => {
                    let latest = old(self)@.latest_validator_set()->0;
                    &&& old(self)@.unjail_error(validator_id@, now) is None
                    &&& final(self)@ == old(self)@.with_latest(latest.unjailed(validator_id@, now))
                    &&& old(self)@.is_periodic_request(
                        request,
                        latest.unjailed(validator_id@, now),
                        old(self)@.previous_validator_set(),
                    )
                },
                Err(e) => old(self)@.unjail_error(validator_id@, now) == Some(e) && final(self)@
                    == old(self)@,
            },
            old(self)@.inv() ==> final(self)@.inv(),
    {
        let (latest, previous) = self.latest_and_previous();
        let latest = match latest {
            Some(set) => set,
            None => {
                return Err(AnchorError::NoValidatorSet);
            },
        };
        if !latest.contains_validator(&validator_id) {
            return Err(AnchorError::ValidatorNotInLatestSet);
        }
        let mut validator_set = latest.duplicate();
        match validator_set.unjail_validator(
            &validator_id,
            self.anchor_settings.min_unjail_interval,
            now,
        ) {
            Ok(_) => {},
            Err(e) => {
                return Err(AnchorError::ValidatorSet(e));
            },
        }
        let request = match self.send_periodic_packet(&validator_set, previous) {
            Ok(request) => request,
            Err(e) => {
                return Err(e);
            },
        };
        proof {
            lemma_transitions_keep_wf(
                latest@,
                validator_id@,
                self.anchor_settings.min_unjail_interval,
                0,
                now,
            );
            if self@.inv() {
                lemma_update_keeps_inv(
                    self@,
                    self.validator_set_histories.end_index,
                    validator_set@,
                );
            }
        }
        self.validator_set_histories.update_last(validator_set);
        Ok(request)
    }

    fn process_first_pending_slash_packet(&mut self, now: Timestamp, meter: &mut GasMeter) -> (r:
        Result<Option<SlashOutcome>, AnchorError>)
        ensures
            match old(self)@.pending_slash_packets.get(old(self)@.pending_slash_packets.start_index) {
                None => r == Ok::<Option<SlashOutcome>, AnchorError>(None) && final(self)@ == old(
                    self,
                )@ && *final(meter) == *old(meter),
                Some(packet) => {
                    let evidence = packet.evidence();
                    let latest = old(self)@.latest_validator_set()->0;
                    let id = old(self)@.slash_target(evidence)->0;
                    let queue = old(self)@.pending_slash_packets.without(
                        old(self)@.pending_slash_packets.start_index,
                    );
                    match r {
                        Ok(outcome) => {
                            &&& outcome is Some
                            &&& old(self)@.slash_error(evidence, now) is None
                            &&& *final(meter) == old(meter).burned()
                            &&& match outcome->0 {
                                SlashOutcome::Stale => old(self)@.slash_is_stale(evidence)
                                    && final(self)@ == (AnchorModel {
                                    pending_slash_packets: queue,
                                    ..old(self)@
                                }),
                                SlashOutcome::Jailed(request) => {
                                    &&& !old(self)@.slash_is_stale(evidence)
                                    &&& evidence.infraction == downtime()
                                    &&& final(self)@ == (AnchorModel {
                                        pending_slash_packets: queue,
                                        ..old(self)@.with_latest(latest.jailed(id, now))
                                    })
                                    &&& old(self)@.is_vsc_request(
                                        request,
                                        latest.jailed(id, now),
                                        old(self)@.previous_validator_set(),
                                        old(self)@.slash_removals(id),
                                        old(self)@.slash_acks(evidence.address->0),
                                    )
                                },
                                SlashOutcome::Ignored => {
                                    &&& !old(self)@.slash_is_stale(evidence)
                                    &&& evidence.infraction != downtime()
                                    &&& evidence.infraction != double_sign()
                                    &&& final(self)@ == (AnchorModel {
                                        pending_slash_packets: queue,
                                        ..old(self)@
                                    })
                                },
                            }
                        },
                        Err(e) => old(self)@.slash_error(evidence, now) == Some(e) && final(self)@
                            == old(self)@ && *final(meter) == *old(meter),
                    }
                },
            },
            old(self)@.inv() ==> final(self)@.inv(),
    {
        let packet = match self.pending_slash_packets.get_first() {
            Some(packet) => packet.duplicate(),
            None => {
                return Ok(None);
            },
        };
        let outcome = match self.internal_process_slash_packet(&packet, now) {
            Ok(outcome) => outcome,
            Err(e) => {
                return Err(e);
            },
        };
        let max_gas = meter.remaining_gas();
        let ghost queue = self@.pending_slash_packets;
        let ghost before = *meter;
        self.pending_slash_packets.remove_first(meter, max_gas);
        proof {
            crate::lookup_array::lemma_remove_at_done::<SlashPacketView>(
                queue,
                before,
                queue.start_index,
                max_gas,
            );
        }
        Ok(Some(outcome))
    }
}

} // verus!

use crate::anchor::{AnchorModel, AppchainAnchor, ANCHOR_VERSION, NEAR_SCALE};
use crate::codec::{
    base64_encoding, bech32_encoding, bech32_hrp_valid, calculate_address,
    calculate_bech32_address, chain_id_accepted, encode_base64, encode_ed25519_pubkey, key_prefix,
    make_chain_id,
};
use crate::keyed::value_of;
use crate::packet::voting_power;
use crate::restaking_base_actions::address_of;
use crate::types::{
    AnchorSettings, AnchorStatus, AppchainState, IndexRange, RewardDistribution, SlashPacketView,
    ValidatorSetView, ValidatorView,
};
use crate::validator_set::{
    record_views, AccountId, ValidatorModel, ValidatorSet, ValidatorSetModel, ValidatorSetViewer,
};
use vstd::prelude::*;

verus! {

/// Read access to the anchor.
pub trait AnchorViewer {
    /// The chain id of the appchain, or `None` where the appchain's name with
    /// the revision makes no chain id.
    fn get_chain_id(&self) -> Option<String>;

    fn get_anchor_version(&self) -> String;

    fn get_owner(&self) -> AccountId;

    fn get_anchor_settings(&self) -> AnchorSettings;

    fn get_reward_token_contract(&self) -> AccountId;

    fn get_appchain_state(&self) -> AppchainState;

    /// Stake and size of the latest validator set, the bounds of the history
    /// and the escrow; `None` where there is no validator set.
    fn get_anchor_status(&self) -> Option<AnchorStatus>;

    fn get_pending_rewards(&self) -> Vec<RewardDistribution>;

    fn get_validator_set(&self, index: u64) -> Option<ValidatorSetView>;

    fn get_latest_validator_set(&self) -> Option<ValidatorSetView>;

    /// Each registered address in base64, with the validator it belongs to.
    fn get_registered_addresses(&self) -> Vec<(String, String)>;

    fn get_pending_slash_packets(&self) -> Vec<&SlashPacketView>;
}

impl AnchorModel {
    /// The registered key of a validator as a text: `ed25519:` and base64, or
    /// nothing where no key is registered.
    pub open spec fn registered_pubkey_text(self, id: Seq<char>) -> Seq<char> {
        match value_of(self.validator_id_to_pubkey_map, id) {
            Some(key) => key_prefix() + base64_encoding(key),
            None => Seq::empty(),
        }
    }

    /// The bech32 address of a validator on the appchain, or nothing where no
    /// key is registered or the prefix of the addresses is not valid.
    pub open spec fn appchain_address_text(self, id: Seq<char>) -> Seq<char> {
        match value_of(self.validator_id_to_pubkey_map, id) {
            Some(key) => if bech32_hrp_valid(self.anchor_settings.appchain_address_bech32_hrp@) {
                bech32_encoding(self.anchor_settings.appchain_address_bech32_hrp@, address_of(key))
            } else {
                Seq::empty()
            },
            None => Seq::empty(),
        }
    }

    /// Whether `view` shows the validator `v`.
    pub open spec fn is_validator_view(self, view: ValidatorView, v: ValidatorModel) -> bool {
        &&& view.validator_id@ == v.validator_id
        &&& view.total_stake == v.total_stake
        &&& view.voting_power == voting_power(v.total_stake)
        &&& view.status == v.status
        &&& view.registered_pubkey@ == self.registered_pubkey_text(v.validator_id)
        &&& view.address_in_appchain@ == self.appchain_address_text(v.validator_id)
    }

    /// Whether `view` shows the validator set `set`.
    pub open spec fn is_validator_set_view(self, view: ValidatorSetView, set: ValidatorSetModel) -> bool {
        &&& view.id == set.id
        &&& view.total_stake == set.total_stake
        &&& view.sequence == set.sequence
        &&& view.timestamp == set.timestamp
        &&& view.matured_on_appchain == set.matured_in_appchain
        &&& record_views(view.jailed_validators@) == set.jailed_validators
        &&& view.validators@.len() == set.validators.len()
        &&& forall|i: int|
            0 <= i < set.validators.len() ==> self.is_validator_view(
                #[trigger] view.validators@[i],
                set.validators[i],
            )
    }

    /// Whether `entries` lists the registered addresses, each in base64 with
    /// its validator.
    pub open spec fn is_address_list(self, entries: Seq<(String, String)>) -> bool {
        &&& entries.len() == self.validator_address_to_id_map.len()
        &&& forall|i: int|
            0 <= i < entries.len() ==> (#[trigger] entries[i]).0@ == base64_encoding(
                self.validator_address_to_id_map[i].0,
            ) && entries[i].1@ == self.validator_address_to_id_map[i].1
    }
}

impl AnchorSettings {
    /// A copy of the settings.
    pub fn duplicate(&self) -> (r: AnchorSettings)
        ensures
            r == *self,
    {
        AnchorSettings {
            chain_revision_number: self.chain_revision_number,
            era_reward: self.era_reward,
            max_count_of_validators: self.max_count_of_validators,
            min_length_of_validator_set_history: self.min_length_of_validator_set_history,
            min_interval_for_new_validator_set: self.min_interval_for_new_validator_set,
            vsc_packet_timeout_interval: self.vsc_packet_timeout_interval,
            min_validator_staking_amount: self.min_validator_staking_amount,
            min_unjail_interval: self.min_unjail_interval,
            appchain_address_bech32_hrp: self.appchain_address_bech32_hrp.clone(),
        }
    }
}

impl AppchainAnchor {
    /// The validator set as the anchor shows it, each validator with its
    /// power, its registered key and its address on the appchain.
    pub fn get_validator_set_view_of(&self, validator_set: &ValidatorSet) -> (r: ValidatorSetView)
        ensures
            self@.is_validator_set_view(r, validator_set@),
    {
        let mut validators: Vec<ValidatorView> = Vec::new();
        let mut i: usize = 0;
        while i < validator_set.validators.len()
            invariant
                i <= validator_set.validators.len(),
                validators@.len() == i,
                forall|j: int|
                    0 <= j < i ==> self@.is_validator_view(
                        #[trigger] validators@[j],
                        validator_set@.validators[j],
                    ),
            decreases validator_set.validators.len() - i,
        {
            let validator = &validator_set.validators[i];
            let ghost v = validator_set@.validators[i as int];
            assert(v == validator@);
            let (registered_pubkey, address_in_appchain) = match self.validator_id_to_pubkey_map.get(
                &validator.validator_id,
            ) {
                Some(key) => {
                    let address = calculate_address(key.as_slice());
                    let text = match calculate_bech32_address(
                        self.anchor_settings.appchain_address_bech32_hrp.clone(),
                        address,
                    ) {
                        Ok(text) => text,
                        Err(_) => String::new(),
                    };
                    (encode_ed25519_pubkey(key), text)
                },
                None => (String::new(), String::new()),
            };
            let view = ValidatorView {
                validator_id: validator.validator_id.clone(),
                total_stake: validator.total_stake,
                voting_power: (validator.total_stake / NEAR_SCALE) as u64,
                status: validator.status,
                registered_pubkey,
                address_in_appchain,
            };
            assert(self@.is_validator_view(view, v));
            validators.push(view);
            i = i + 1;
        }
        ValidatorSetView {
            id: validator_set.id,
            validators,
            total_stake: validator_set.total_stake,
            sequence: validator_set.sequence,
            timestamp: validator_set.timestamp,
            matured_on_appchain: validator_set.matured_in_appchain,
            jailed_validators: validator_set.jailed_validators(),
        }
    }
}

impl AnchorViewer for AppchainAnchor {
    fn get_chain_id(&self) -> (r: Option<String>)
        ensures
            match r {
                Some(text) => text@ == self@.chain_id() && chain_id_accepted(text@),
                None => !chain_id_accepted(self@.chain_id()),
            },
    {
        make_chain_id(&self.appchain_id, self.anchor_settings.chain_revision_number)
    }

    fn get_anchor_version(&self) -> (r: String)
        ensures
            r@ == ANCHOR_VERSION@,
    {
        ANCHOR_VERSION.to_owned()
    }

    fn get_owner(&self) -> (r: AccountId)
        ensures
            r@ == self@.owner,
    {
        self.owner.clone()
    }

    fn get_anchor_settings(&self) -> (r: AnchorSettings)
        ensures
            r == self@.anchor_settings,
    {
        self.anchor_settings.duplicate()
    }

    fn get_reward_token_contract(&self) -> (r: AccountId)
        ensures
            r@ == self@.reward_token_contract,
    {
        self.reward_token_contract.clone()
    }

    fn get_appchain_state(&self) -> (r: AppchainState)
        ensures
            r == self@.appchain_state,
    {
        self.appchain_state
    }

    fn get_anchor_status(&self) -> (r: Option<AnchorStatus>)
        ensures
            match self@.latest_validator_set() {
                Some(latest) => r == Some(
                    AnchorStatus {
                        total_stake: latest.total_stake,
                        validator_count: latest.validators.len() as u64,
                        index_range_of_validator_set_history: IndexRange {
                            start_index: self@.validator_set_histories.start_index,
                            end_index: self@.validator_set_histories.end_index,
                        },
                        locked_reward_token_amount: self@.locked_reward_token_amount,
                    },
                ),
                None => r is None,
            },
    {
        match self.validator_set_histories.get_last() {
            Some(latest) => Some(
                AnchorStatus {
                    total_stake: latest.total_stake(),
                    validator_count: latest.validator_count(),
                    index_range_of_validator_set_history: self.validator_set_histories.index_range(),
                    locked_reward_token_amount: self.locked_reward_token_amount,
                },
            ),
            None => None,
        }
    }

    fn get_pending_rewards(&self) -> (r: Vec<RewardDistribution>)
        ensures
            r@ == self@.pending_rewards.entries(
                self@.pending_rewards.start_index as int,
                self@.pending_rewards.end_index as int,
            ),
    {
        let found = self.pending_rewards.to_vec();
        let ghost all = found@.map_values(|record: &RewardDistribution| record@);
        let mut result: Vec<RewardDistribution> = Vec::new();
        let mut i: usize = 0;
        while i < found.len()
            invariant
                i <= found.len(),
                all == found@.map_values(|record: &RewardDistribution| record@),
                result@ == all.take(i as int),
            decreases found.len() - i,
        {
            result.push(*found[i]);
            assert(all.take(i as int + 1) =~= all.take(i as int).push(all[i as int]));
            i = i + 1;
        }
        assert(all.take(i as int) =~= all);
        result
    }

    fn get_validator_set(&self, index: u64) -> (r: Option<ValidatorSetView>)
        ensures
            match self@.validator_set_histories.get(index) {
                Some(set) => r is Some && self@.is_validator_set_view(r->0, set),
                None => r is None,
            },
    {
        match self.validator_set_histories.get(&index) {
            Some(set) => Some(self.get_validator_set_view_of(set)),
            None => None,
        }
    }

    fn get_latest_validator_set(&self) -> (r: Option<ValidatorSetView>)
        ensures
            match self@.latest_validator_set() {
                Some(set) => r is Some && self@.is_validator_set_view(r->0, set),
                None => r is None,
            },
    {
        match self.validator_set_histories.get_last() {
            Some(set) => Some(self.get_validator_set_view_of(set)),
            None => None,
        }
    }

    fn get_registered_addresses(&self) -> (r: Vec<(String, String)>)
        ensures
            self@.is_address_list(r@),
    {
        let mut result: Vec<(String, String)> = Vec::new();
        let mut i: usize = 0;
        while i < self.validator_address_to_id_map.len()
            invariant
                i <= self@.validator_address_to_id_map.len(),
                result@.len() == i,
                forall|j: int|
                    0 <= j < i ==> (#[trigger] result@[j]).0@ == base64_encoding(
                        self@.validator_address_to_id_map[j].0,
                    ) && result@[j].1@ == self@.validator_address_to_id_map[j].1,
            decreases self@.validator_address_to_id_map.len() - i,
        {
            let entry = self.validator_address_to_id_map.entry(i);
            result.push((encode_base64(&entry.0), entry.1.clone()));
            i = i + 1;
        }
        result
    }

    fn get_pending_slash_packets(&self) -> (r: Vec<&SlashPacketView>)
        ensures
            r@.map_values(|record: &SlashPacketView| record@)
                == self@.pending_slash_packets.entries(
                self@.pending_slash_packets.start_index as int,
                self@.pending_slash_packets.end_index as int,
            ),
    {
        self.pending_slash_packets.to_vec()
    }
}

} // verus!

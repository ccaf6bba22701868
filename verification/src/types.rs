use crate::gas::GasMeter;
use crate::keyed::copy_bytes;
use crate::lookup_array::IndexedAndClearable;
use crate::validator_set::{AccountId, Timestamp, ValidatorStatus};
use vstd::prelude::*;
use vstd::string::StringExecFns;

verus! {

pub type AppchainId = String;

/// State of an appchain. The anchor itself only moves from `Booting` to
/// `Active`; the other states belong to the registry.
#[derive(Clone, Copy, Debug, PartialEq, Eq, Structural)]
pub enum AppchainState {
    Registered,
    Audited,
    Voting,
    Booting,
    Active,
    Closing,
    Closed,
}

/// Thresholds and intervals of the anchor.
#[derive(Debug)]
pub struct AnchorSettings {
    /// Revision number of the appchain.
    pub chain_revision_number: u64,
    /// Reward of one era.
    pub era_reward: u128,
    /// Largest number of validators asked of the staking ledger.
    pub max_count_of_validators: u32,
    /// Number of validator sets that pruning leaves in the history.
    pub min_length_of_validator_set_history: u64,
    /// Least time between two validator sets, in nanoseconds.
    pub min_interval_for_new_validator_set: u64,
    /// Timeout of a validator-set change packet, in nanoseconds.
    pub vsc_packet_timeout_interval: u64,
    /// Least stake of a qualified validator.
    pub min_validator_staking_amount: u128,
    /// Least time in jail, in nanoseconds.
    pub min_unjail_interval: u64,
    /// Human-readable part of the appchain's bech32 addresses.
    pub appchain_address_bech32_hrp: String,
}

impl AnchorSettings {
    /// The settings that a new anchor starts with.
    pub open spec fn is_default(self) -> bool {
        &&& self.chain_revision_number == 0
        &&& self.era_reward == 0
        &&& self.max_count_of_validators == 60
        &&& self.min_length_of_validator_set_history == 100
        &&& self.min_interval_for_new_validator_set == 3_600_000_000_000
        &&& self.vsc_packet_timeout_interval == 2_400_000_000_000
        &&& self.min_validator_staking_amount == 10_000_000_000_000_000_000_000_000_000
        &&& self.min_unjail_interval == 600_000_000_000
        &&& self.appchain_address_bech32_hrp@ == "ottovalcons"@
    }
}

impl Default for AnchorSettings {
    fn default() -> (r: Self)
        ensures
            r.is_default(),
    {
        AnchorSettings {
            chain_revision_number: 0,
            era_reward: 0,
            max_count_of_validators: 60,
            min_length_of_validator_set_history: 100,
            min_interval_for_new_validator_set: 3_600_000_000_000,
            vsc_packet_timeout_interval: 2_400_000_000_000,
            min_validator_staking_amount: 10_000_000_000_000_000_000_000_000_000,
            min_unjail_interval: 600_000_000_000,
            appchain_address_bech32_hrp: String::from_str("ottovalcons"),
        }
    }
}

/// Settings as they were before the jail interval and the address prefix
/// were added.
#[derive(Clone, Copy, Debug, PartialEq, Eq, Structural)]
pub struct OldAnchorSettings {
    pub chain_revision_number: u64,
    pub era_reward: u128,
    pub max_count_of_validators: u32,
    pub min_length_of_validator_set_history: u64,
    pub min_interval_for_new_validator_set: u64,
    pub vsc_packet_timeout_interval: u64,
    pub min_validator_staking_amount: u128,
}

#[derive(Debug)]
pub struct AppchainValidator {
    pub validator_id: AccountId,
    pub validator_address: Vec<u8>,
    pub total_stake: u128,
}

#[derive(Clone, Copy, Debug, PartialEq, Eq, Structural)]
pub struct AnchorStatus {
    pub total_stake: u128,
    pub validator_count: u64,
    pub index_range_of_validator_set_history: IndexRange,
    pub locked_reward_token_amount: u128,
}

#[derive(Debug)]
pub struct ValidatorSetInfo {
    pub era_number: u64,
    pub total_stake: u128,
    pub validator_list: Vec<AppchainValidator>,
    pub start_block_height: u64,
    pub start_timestamp: u64,
    pub staking_history_index: u64,
    pub unprofitable_validator_ids: Vec<AccountId>,
    pub valid_total_stake: u128,
}

/// Outcome of one bounded step of a multi-step operation.
#[derive(Debug)]
pub enum ProcessingResult {
    NeedMoreGas,
    Done,
    Error(String),
}

impl ProcessingResult {
    pub fn is_ok(&self) -> (r: bool)
        ensures
            r == (*self is Done),
    {
        match self {
            ProcessingResult::Done => true,
            _ => false,
        }
    }

    pub fn is_need_more_gas(&self) -> (r: bool)
        ensures
            r == (*self is NeedMoreGas),
    {
        match self {
            ProcessingResult::NeedMoreGas => true,
            _ => false,
        }
    }

    pub fn is_error(&self) -> (r: bool)
        ensures
            r == (*self is Error),
    {
        match self {
            ProcessingResult::Error(_) => true,
            _ => false,
        }
    }
}

/// Where the resumable removal of the oldest validator set stands.
#[derive(Clone, Copy, Debug, PartialEq, Eq, Structural)]
pub enum RemovingValidatorSetSteps {
    ClearingOldestValidatorSet,
}

/// A validator as the anchor shows it.
#[derive(Debug)]
pub struct ValidatorView {
    pub validator_id: AccountId,
    pub total_stake: u128,
    pub voting_power: u64,
    pub status: ValidatorStatus,
    /// `ed25519:` and the base64 form of the registered key; empty if none.
    pub registered_pubkey: String,
    pub address_in_appchain: String,
}

/// A validator set as the anchor shows it.
#[derive(Debug)]
pub struct ValidatorSetView {
    pub id: u64,
    pub validators: Vec<ValidatorView>,
    pub total_stake: u128,
    pub sequence: u64,
    pub timestamp: Timestamp,
    pub matured_on_appchain: bool,
    pub jailed_validators: Vec<(AccountId, Timestamp, Timestamp)>,
}

/// Message that goes with a reward transfer.
#[derive(Debug)]
pub enum FtTransferMessage {
    AnchorDepositRewardMsg(AnchorDepositRewardMsg),
}

#[derive(Debug)]
pub struct AnchorDepositRewardMsg {
    pub consumer_chain_id: String,
    pub validator_set: Vec<(AccountId, u128)>,
    pub sequence: u64,
}

/// A reward that waits to be paid out.
#[derive(Clone, Copy, Debug, PartialEq, Eq, Structural)]
pub struct RewardDistribution {
    pub validator_set_id: u64,
    pub amount: u128,
    pub timestamp: Timestamp,
    pub distributed: bool,
}

impl View for RewardDistribution {
    type V = RewardDistribution;

    open spec fn view(&self) -> RewardDistribution {
        *self
    }
}

impl IndexedAndClearable for RewardDistribution {
    open spec fn spec_set_index(element: RewardDistribution, index: u64) -> RewardDistribution {
        element
    }

    open spec fn spec_clear_extra_storage(
        element: RewardDistribution,
        meter: GasMeter,
        max_gas: u64,
    ) -> (RewardDistribution, GasMeter, ProcessingResult) {
        (element, meter, ProcessingResult::Done)
    }

    fn set_index(&mut self, index: &u64) {
    }

    fn clear_extra_storage(&mut self, meter: &mut GasMeter, max_gas: u64) -> (r: ProcessingResult) {
        ProcessingResult::Done
    }
}

impl IndexedAndClearable for String {
    open spec fn spec_set_index(element: Seq<char>, index: u64) -> Seq<char> {
        element
    }

    open spec fn spec_clear_extra_storage(element: Seq<char>, meter: GasMeter, max_gas: u64) -> (
        Seq<char>,
        GasMeter,
        ProcessingResult,
    ) {
        (element, meter, ProcessingResult::Done)
    }

    fn set_index(&mut self, index: &u64) {
    }

    fn clear_extra_storage(&mut self, meter: &mut GasMeter, max_gas: u64) -> (r: ProcessingResult) {
        ProcessingResult::Done
    }
}

/// Consensus key of a validator and its voting power.
#[derive(Debug)]
pub struct ValidatorKeyAndPower {
    pub public_key: Vec<u8>,
    pub power: u64,
}

impl View for ValidatorKeyAndPower {
    type V = (Seq<u8>, u64);

    open spec fn view(&self) -> (Seq<u8>, u64) {
        (self.public_key@, self.power)
    }
}

/// Validator-set change packet: the powers to set on the appchain, the id of
/// the set they come from, and the addresses whose slashing is acknowledged.
#[derive(Debug)]
pub struct VscPacketData {
    pub validator_pubkeys: Vec<ValidatorKeyAndPower>,
    pub validator_set_id: u64,
    pub slash_acks: Vec<String>,
}

/// A validator as the appchain names it in a slash packet.
#[derive(Debug)]
pub struct ConsumerValidator {
    pub address: Vec<u8>,
    pub power: i64,
}

/// Slash evidence as the relay delivers it.
#[derive(Debug)]
pub struct SlashPacketData {
    pub validator: Option<ConsumerValidator>,
    pub valset_update_id: u64,
    pub infraction: String,
}

/// Slash evidence as the anchor keeps it until it is processed.
#[derive(Debug)]
pub struct SlashPacketView {
    pub validator: Option<ConsumerValidator>,
    /// Id of the validator set in which the infraction happened.
    pub valset_update_id: u64,
    /// `INFRACTION_DOWNTIME` or `INFRACTION_DOUBLE_SIGN`.
    pub infraction: String,
    pub received_timestamp: Timestamp,
}

/// What a slash packet says: the address of the validator, if any, the id
/// of the validator set of the infraction, and the kind of infraction.
pub struct SlashEvidence {
    pub address: Option<Seq<u8>>,
    pub power: Option<i64>,
    pub valset_update_id: u64,
    pub infraction: Seq<char>,
}

impl SlashPacketView {
    pub open spec fn evidence(self) -> SlashEvidence {
        SlashEvidence {
            address: match self.validator {
                Some(v) => Some(v.address@),
                None => None,
            },
            power: match self.validator {
                Some(v) => Some(v.power),
                None => None,
            },
            valset_update_id: self.valset_update_id,
            infraction: self.infraction@,
        }
    }

    /// A copy of the packet.
    pub fn duplicate(&self) -> (r: SlashPacketView)
        ensures
            r.evidence() == self.evidence(),
            r.received_timestamp == self.received_timestamp,
    {
        SlashPacketView {
            validator: match &self.validator {
                Some(v) => Some(ConsumerValidator { address: copy_bytes(&v.address), power: v.power }),
                None => None,
            },
            valset_update_id: self.valset_update_id,
            infraction: self.infraction.clone(),
            received_timestamp: self.received_timestamp,
        }
    }
}

impl View for SlashPacketView {
    type V = SlashPacketView;

    open spec fn view(&self) -> SlashPacketView {
        *self
    }
}

impl IndexedAndClearable for SlashPacketView {
    open spec fn spec_set_index(element: SlashPacketView, index: u64) -> SlashPacketView {
        element
    }

    open spec fn spec_clear_extra_storage(
        element: SlashPacketView,
        meter: GasMeter,
        max_gas: u64,
    ) -> (SlashPacketView, GasMeter, ProcessingResult) {
        (element, meter, ProcessingResult::Done)
    }

    fn set_index(&mut self, index: &u64) {
    }

    fn clear_extra_storage(&mut self, meter: &mut GasMeter, max_gas: u64) -> (r: ProcessingResult) {
        ProcessingResult::Done
    }
}

/// Names of the anchor's persistent collections.
#[derive(Clone, Copy, Debug, PartialEq, Eq, Structural)]
pub enum StorageKey {
    AnchorContractWasm,
    AnchorSettings,
    PendingRewards,
    RemovingValidatorSetSteps,
    ValidatorAddressToIdMap,
    ValidatorIdToPubkeyMap,
    ValidatorSetHistories,
    ValidatorIdSetOf(u64),
    ValidatorsOf(u64),
    PendingSlashPackets,
}

/// First and last index of an indexed history.
#[derive(Clone, Copy, Debug, PartialEq, Eq, Structural)]
pub struct IndexRange {
    pub start_index: u64,
    pub end_index: u64,
}

} // verus!

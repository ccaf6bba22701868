use crate::types::{AppchainState, FtTransferMessage, RewardDistribution, VscPacketData};
use crate::validator_set::{AccountId, RestakingBaseValidatorSet};
use vstd::prelude::*;

verus! {

/// What the anchor asks of the staking ledger.
pub trait RestakingBaseContract {
    /// The latest validator set of a consumer chain, `limit` validators at
    /// most, by descending stake.
    fn get_validator_set(&self, consumer_chain_id: String, limit: u32) -> RestakingBaseValidatorSet;

    /// Asks for the given amounts to be slashed; returns the id of the request.
    fn slash_request(
        &mut self,
        consumer_chain_id: String,
        slash_items: Vec<(AccountId, u128)>,
        evidence_sha256_hash: String,
    ) -> u64;
}

/// Call of `get_validator_set` at the staking ledger. The answer goes to
/// `get_validator_set_callback`.
#[derive(Debug)]
pub struct GetValidatorSetRequest {
    pub restaking_base_contract: AccountId,
    pub consumer_chain_id: String,
    pub limit: u32,
}

/// Call of `send_vsc_packet` at the relay contract. No answer is awaited.
#[derive(Debug)]
pub struct SendVscPacketRequest {
    pub near_ibc_contract: AccountId,
    pub chain_id: String,
    pub vsc_packet_data: VscPacketData,
    pub timeout_timestamp_interval: u64,
}

/// Call of `ft_transfer_call` at the reward token contract. The answer goes
/// to `ft_transfer_call_callback`, with the reward and its index.
#[derive(Debug)]
pub struct FtTransferCallRequest {
    pub reward_token_contract: AccountId,
    pub receiver_id: AccountId,
    pub amount: u128,
    pub msg: FtTransferMessage,
    pub reward_distribution: RewardDistribution,
    pub reward_distribution_index: u64,
}

/// Call of `ft_balance_of` at the reward token contract, for the anchor's
/// own account. The answer goes to `ft_balance_of_callback`.
#[derive(Debug)]
pub struct FtBalanceOfRequest {
    pub reward_token_contract: AccountId,
}

/// Call of `sync_state_of` at the appchain registry.
#[derive(Debug)]
pub struct SyncStateRequest {
    pub appchain_registry: AccountId,
    pub appchain_id: String,
    pub appchain_state: AppchainState,
    pub validator_count: u32,
    pub total_stake: u128,
}

/// Consensus state from which a light client of the appchain starts.
#[derive(Debug)]
pub struct TmConsensusState {
    /// Seconds since the epoch.
    pub timestamp_seconds: u64,
    /// Nanoseconds within the second.
    pub timestamp_nanos: u32,
    pub root: Vec<u8>,
    /// Merkle root of the first validator set.
    pub next_validators_hash: Vec<u8>,
}

/// Call of `create_tendermint_client_for_appchain` at the relay contract.
#[derive(Debug)]
pub struct CreateClientRequest {
    pub near_ibc_contract: AccountId,
    pub chain_id: String,
    pub trusting_period: u64,
    pub unbonding_period: u64,
    pub max_clock_drift: u64,
    pub upgrade_path: Vec<String>,
    pub consensus_state: TmConsensusState,
}

} // verus!

use crate::codec::{chain_id_accepted, is_valid_chain_id};
use crate::keyed::{first_index, lemma_first_index_is, KeyedList};
use crate::lookup_array::{LookupArray, LookupArrayModel};
use crate::types::{
    AnchorSettings, AppchainId, AppchainState, RewardDistribution, SlashPacketView, StorageKey,
};
use crate::lookup_array::{lemma_append_dense, lemma_update_dense};
use crate::validator_set::{
    same_members, stake_sum, validator_ids, AccountId, ValidatorSet, ValidatorSetError,
    ValidatorSetModel,
};
use vstd::prelude::*;
use vstd::string::StrSliceExecFns;

verus! {

/// Gas of a simple call to another contract, in units of 10^12.
pub const T_GAS_FOR_SIMPLE_FUNCTION_CALL: u64 = 10;

/// Gas after which an operation that spans several calls pauses, in units
/// of 10^12.
pub const T_GAS_CAP_FOR_MULTI_TXS_PROCESSING: u64 = 130;

/// Gas of one unit of 10^12.
pub const ONE_TERA_GAS: u64 = 1_000_000_000_000;

/// Stake that makes one unit of voting power.
pub const NEAR_SCALE: u128 = 1_000_000_000_000_000_000_000_000;

/// Version of the anchor.
pub const ANCHOR_VERSION: &'static str = "0.1.0";

/// Why the anchor refuses a call. A refused call leaves the anchor as it was.
#[derive(Clone, Copy, Debug, PartialEq, Eq, Structural)]
pub enum AnchorError {
    /// The account is not a sub-account of a registry, two levels deep.
    InvalidAccountId,
    /// The appchain's name, or its name with the revision, is no chain id.
    InvalidChainId,
    NotOwner,
    NotRewardTokenContract,
    NotRestakingBaseContract,
    NotNearIbcContract,
    /// A setter was given the value that is already set.
    ValueNotChanged,
    /// A setter was given a value out of range.
    InvalidValue,
    AppchainNotActive,
    AppchainNotBooting,
    /// The history holds no validator set, or not the one asked for.
    NoValidatorSet,
    ValidatorNotInLatestSet,
    /// The latest validator set is too young for a new one to be fetched.
    IntervalTooShort,
    NotEnoughGas,
    NoPendingReward,
    /// The escrow holds less than the reward to pay out.
    InsufficientEscrow,
    /// The token contract reports more accepted than was sent.
    AcceptedExceedsRequested,
    /// A reward index outside the queue.
    InvalidRewardIndex,
    /// An active validator has no registered public key.
    PubkeyNotRegistered,
    InvalidPublicKey,
    NotBonded,
    /// A slash packet without a validator.
    EmptySlashPacket,
    /// A slash packet for an address that no validator registered.
    AddressNotRegistered,
    /// Double-sign evidence, whose handling is not defined.
    DoubleSignNotSupported,
    InvalidAddressPrefix,
    /// The history is shorter than the minimum that pruning has to leave.
    HistoryTooShort,
    NoPendingSlashPacket,
    MissingSettings,
    InvalidPeriods,
    /// A sum or an index does not fit its type.
    Overflow,
    ValidatorSet(ValidatorSetError),
}

/// The anchor: all that the contract keeps.
pub struct AppchainAnchor {
    /// Id of the appchain.
    pub appchain_id: AppchainId,
    /// The appchain registry.
    pub appchain_registry: AccountId,
    pub owner: AccountId,
    /// The staking ledger.
    pub restaking_base_contract: AccountId,
    /// The market contract that receives the rewards.
    pub lpos_market_contract: AccountId,
    /// The relay contract.
    pub near_ibc_contract: AccountId,
    /// The contract of the reward token.
    pub reward_token_contract: AccountId,
    /// Reward tokens held in escrow.
    pub locked_reward_token_amount: u128,
    pub validator_set_histories: LookupArray<ValidatorSet>,
    /// Consensus key of each validator.
    pub validator_id_to_pubkey_map: KeyedList<AccountId, Vec<u8>>,
    /// Validator of each appchain address.
    pub validator_address_to_id_map: KeyedList<Vec<u8>, AccountId>,
    pub anchor_settings: AnchorSettings,
    pub appchain_state: AppchainState,
    /// Rewards that wait to be paid out.
    pub pending_rewards: LookupArray<RewardDistribution>,
    /// Slash packets that wait to be processed.
    pub pending_slash_packets: LookupArray<SlashPacketView>,
}

/// Mathematical content of the anchor.
pub struct AnchorModel {
    pub appchain_id: Seq<char>,
    pub appchain_registry: Seq<char>,
    pub owner: Seq<char>,
    pub restaking_base_contract: Seq<char>,
    pub lpos_market_contract: Seq<char>,
    pub near_ibc_contract: Seq<char>,
    pub reward_token_contract: Seq<char>,
    pub locked_reward_token_amount: u128,
    pub validator_set_histories: LookupArrayModel<ValidatorSet>,
    pub validator_id_to_pubkey_map: Seq<(Seq<char>, Seq<u8>)>,
    pub validator_address_to_id_map: Seq<(Seq<u8>, Seq<char>)>,
    pub anchor_settings: AnchorSettings,
    pub appchain_state: AppchainState,
    pub pending_rewards: LookupArrayModel<RewardDistribution>,
    pub pending_slash_packets: LookupArrayModel<SlashPacketView>,
}

impl View for AppchainAnchor {
    type V = AnchorModel;

    open spec fn view(&self) -> AnchorModel {
        AnchorModel {
            appchain_id: self.appchain_id@,
            appchain_registry: self.appchain_registry@,
            owner: self.owner@,
            restaking_base_contract: self.restaking_base_contract@,
            lpos_market_contract: self.lpos_market_contract@,
            near_ibc_contract: self.near_ibc_contract@,
            reward_token_contract: self.reward_token_contract@,
            locked_reward_token_amount: self.locked_reward_token_amount,
            validator_set_histories: self.validator_set_histories@,
            validator_id_to_pubkey_map: self.validator_id_to_pubkey_map@,
            validator_address_to_id_map: self.validator_address_to_id_map@,
            anchor_settings: self.anchor_settings,
            appchain_state: self.appchain_state,
            pending_rewards: self.pending_rewards@,
            pending_slash_packets: self.pending_slash_packets@,
        }
    }
}

/// A set whose ids are distinct and whose stakes do not exceed its total: a
/// well-formed set, or one that is being torn down.
pub open spec fn sound_or_clearing(set: ValidatorSetModel) -> bool {
    &&& validator_ids(set.validators).no_duplicates()
    &&& stake_sum(set.validators) <= set.total_stake
}

impl AnchorModel {
    pub open spec fn latest_validator_set(self) -> Option<ValidatorSetModel> {
        self.validator_set_histories.get(self.validator_set_histories.end_index)
    }

    pub open spec fn previous_validator_set(self) -> Option<ValidatorSetModel> {
        if self.validator_set_histories.end_index == 0 {
            None
        } else {
            self.validator_set_histories.get((self.validator_set_histories.end_index - 1) as u64)
        }
    }

    /// The history holds its sets at consecutive positions, each under its own
    /// id; every set is well-formed, but for the oldest while it is torn
    /// down.
    pub open spec fn inv(self) -> bool {
        let history = self.validator_set_histories;
        &&& history.dense()
        &&& forall|i: u64| #[trigger]
            history.map.contains_key(i) ==> {
                &&& history.map[i].id == i
                &&& sound_or_clearing(history.map[i])
                &&& i != history.start_index ==> history.map[i].wf()
            }
    }
}

/// Where an account id splits into the appchain's name and its registry: at
/// the first dot.
pub open spec fn dot_position(account_id: Seq<char>) -> int {
    first_index(account_id, '.')
}

/// An account two levels below the top: there is a dot behind the first dot.
pub open spec fn is_sub_account_of_registry(account_id: Seq<char>) -> bool {
    dot_position(account_id) < account_id.len() && account_id.skip(
        dot_position(account_id) + 1,
    ).contains('.')
}

/// Why no anchor can be made for the account, if so.
pub open spec fn creation_error(account_id: Seq<char>) -> Option<AnchorError> {
    if !is_sub_account_of_registry(account_id) {
        Some(AnchorError::InvalidAccountId)
    } else if !chain_id_accepted(account_id.take(dot_position(account_id))) {
        Some(AnchorError::InvalidChainId)
    } else {
        None
    }
}

/// Position of the first `c` in `text` from `from` on, or the length.
fn find_char(text: &str, from: usize, c: char) -> (r: usize)
    requires
        from <= text@.len(),
    ensures
        from <= r <= text@.len(),
        r < text@.len() ==> text@[r as int] == c,
        forall|j: int| from <= j < r ==> text@[j] != c,
{
    let n = text.unicode_len();
    let mut i: usize = from;
    while i < n
        invariant
            from <= i <= n,
            n == text@.len(),
            forall|j: int| from <= j < i ==> text@[j] != c,
        decreases n - i,
    {
        if text.get_char(i) == c {
            return i;
        }
        i = i + 1;
    }
    i
}

impl AppchainAnchor {
    /// The anchor of the appchain that the account `current_account_id` is
    /// named after: the part before the first dot is the appchain, the part
    /// behind it the registry. The account itself is the first owner.
    pub fn new(
        current_account_id: &AccountId,
        restaking_base_contract: AccountId,
        lpos_market_contract: AccountId,
        near_ibc_contract: AccountId,
        reward_token_contract: AccountId,
    ) -> (r: Result<AppchainAnchor, AnchorError>)
        ensures
            match r {
                Ok(anchor) => {
                    &&& creation_error(current_account_id@) is None
                    &&& anchor@.appchain_id == current_account_id@.take(
                        dot_position(current_account_id@),
                    )
                    &&& anchor@.appchain_registry == current_account_id@.skip(
                        dot_position(current_account_id@) + 1,
                    )
                    &&& anchor@.owner == current_account_id@
                    &&& anchor@.restaking_base_contract == restaking_base_contract@
                    &&& anchor@.lpos_market_contract == lpos_market_contract@
                    &&& anchor@.near_ibc_contract == near_ibc_contract@
                    &&& anchor@.reward_token_contract == reward_token_contract@
                    &&& anchor@.locked_reward_token_amount == 0
                    &&& anchor@.validator_set_histories == LookupArrayModel::<ValidatorSet>::empty()
                    &&& anchor@.validator_id_to_pubkey_map == Seq::<(Seq<char>, Seq<u8>)>::empty()
                    &&& anchor@.validator_address_to_id_map == Seq::<(Seq<u8>, Seq<char>)>::empty()
                    &&& anchor@.anchor_settings.is_default()
                    &&& anchor@.appchain_state == AppchainState::Booting
                    &&& anchor@.pending_rewards == LookupArrayModel::<RewardDistribution>::empty()
                    &&& anchor@.pending_slash_packets == LookupArrayModel::<
                        SlashPacketView,
                    >::empty()
                    &&& anchor@.inv()
                },
                Err(e) => creation_error(current_account_id@) == Some(e),
            },
    {
        let text = current_account_id.as_str();
        let n = text.unicode_len();
        let dot = find_char(text, 0, '.');
        proof {
            lemma_first_index_is(current_account_id@, '.', dot as int);
        }
        if dot >= n {
            return Err(AnchorError::InvalidAccountId);
        }
        let second = find_char(text, dot + 1, '.');
        let ghost rest = current_account_id@.skip(dot as int + 1);
        if second >= n {
            proof {
                if rest.contains('.') {
                    let j = choose|j: int| 0 <= j < rest.len() && rest[j] == '.';
                    assert(current_account_id@[dot as int + 1 + j] == '.');
                }
            }
            return Err(AnchorError::InvalidAccountId);
        }
        proof {
            assert(rest[second as int - dot as int - 1] == '.');
        }
        let appchain_id = text.substring_char(0, dot).to_owned();
        let appchain_registry = text.substring_char(dot + 1, n).to_owned();
        proof {
            assert(current_account_id@.subrange(0, dot as int) =~= current_account_id@.take(
                dot as int,
            ));
            assert(current_account_id@.subrange(dot as int + 1, n as int) =~= rest);
        }
        if !is_valid_chain_id(&appchain_id) {
            return Err(AnchorError::InvalidChainId);
        }
        Ok(
            AppchainAnchor {
                appchain_id,
                appchain_registry,
                owner: current_account_id.clone(),
                restaking_base_contract,
                lpos_market_contract,
                near_ibc_contract,
                reward_token_contract,
                locked_reward_token_amount: 0,
                validator_set_histories: LookupArray::new(StorageKey::ValidatorSetHistories),
                validator_id_to_pubkey_map: KeyedList::new(),
                validator_address_to_id_map: KeyedList::new(),
                anchor_settings: AnchorSettings::default(),
                appchain_state: AppchainState::Booting,
                pending_rewards: LookupArray::new(StorageKey::PendingRewards),
                pending_slash_packets: LookupArray::new(StorageKey::PendingSlashPackets),
            },
        )
    }

    pub fn version(&self) -> (r: String)
        ensures
            r@ == ANCHOR_VERSION@,
    {
        ANCHOR_VERSION.to_owned()
    }

    /// Hands the anchor to another owner.
    pub fn set_owner(&mut self, caller: &AccountId, owner: AccountId) -> (r: Result<
        (),
        AnchorError,
    >)
        ensures
            match r {
                Ok(_) => caller@ == old(self)@.owner && owner@ != old(self)@.owner && final(self)@
                    == (AnchorModel { owner: owner@, ..old(self)@ }),
                Err(e) => final(self)@ == old(self)@ && e == if caller@ != old(self)@.owner {
                    AnchorError::NotOwner
                } else {
                    AnchorError::ValueNotChanged
                } && (caller@ != old(self)@.owner || owner@ == old(self)@.owner),
            },
    {
        if *caller != self.owner {
            return Err(AnchorError::NotOwner);
        }
        if owner == self.owner {
            return Err(AnchorError::ValueNotChanged);
        }
        self.owner = owner;
        Ok(())
    }

    pub fn is_owner(&self, caller: &AccountId) -> (r: bool)
        ensures
            r == (caller@ == self@.owner),
    {
        *caller == self.owner
    }

    pub fn is_reward_token_contract(&self, caller: &AccountId) -> (r: bool)
        ensures
            r == (caller@ == self@.reward_token_contract),
    {
        *caller == self.reward_token_contract
    }

    pub fn is_restaking_base_contract(&self, caller: &AccountId) -> (r: bool)
        ensures
            r == (caller@ == self@.restaking_base_contract),
    {
        *caller == self.restaking_base_contract
    }

    pub fn is_near_ibc_contract(&self, caller: &AccountId) -> (r: bool)
        ensures
            r == (caller@ == self@.near_ibc_contract),
    {
        *caller == self.near_ibc_contract
    }

    /// A deposit of reward tokens, as the token contract reports it: the
    /// amount goes into the escrow. Returns the amount handed back, none.
    pub fn ft_on_transfer(
        &mut self,
        caller: &AccountId,
        sender_id: AccountId,
        amount: u128,
        msg: String,
    ) -> (r: Result<u128, AnchorError>)
        ensures
            match r {
                Ok(unused) => {
                    &&& unused == 0
                    &&& caller@ == old(self)@.reward_token_contract
                    &&& old(self)@.locked_reward_token_amount + amount <= u128::MAX
                    &&& final(self)@ == (AnchorModel {
                        locked_reward_token_amount: (old(self)@.locked_reward_token_amount
                            + amount) as u128,
                        ..old(self)@
                    })
                },
                Err(e) => {
                    &&& final(self)@ == old(self)@
                    &&& e == if caller@ != old(self)@.reward_token_contract {
                        AnchorError::NotRewardTokenContract
                    } else {
                        AnchorError::Overflow
                    }
                    &&& (caller@ != old(self)@.reward_token_contract || old(
                        self,
                    )@.locked_reward_token_amount + amount > u128::MAX)
                },
            },
    {
        if *caller != self.reward_token_contract {
            return Err(AnchorError::NotRewardTokenContract);
        }
        if amount > u128::MAX - self.locked_reward_token_amount {
            return Err(AnchorError::Overflow);
        }
        self.locked_reward_token_amount = self.locked_reward_token_amount + amount;
        Ok(0)
    }
}

/// The invariant speaks of the history of validator sets alone: whatever
/// leaves the history as it is keeps the invariant.
pub proof fn lemma_inv_rests_on_history(before: AnchorModel, after: AnchorModel)
    requires
        before.inv(),
        after.validator_set_histories == before.validator_set_histories,
    ensures
        after.inv(),
{
}

/// Writing a set of the history anew, with the same members, keeps the
/// invariant.
pub proof fn lemma_update_keeps_inv(anchor: AnchorModel, index: u64, set: ValidatorSetModel)
    requires
        anchor.inv(),
        anchor.validator_set_histories.map.contains_key(index),
        same_members(anchor.validator_set_histories.map[index], set),
    ensures
        (AnchorModel {
            validator_set_histories: anchor.validator_set_histories.update(index, set),
            ..anchor
        }).inv(),
{
    let history = anchor.validator_set_histories;
    lemma_update_dense::<ValidatorSet>(history, index, set);
    let after = history.update(index, set);
    assert forall|i: u64| #[trigger] after.map.contains_key(i) implies {
        &&& after.map[i].id == i
        &&& sound_or_clearing(after.map[i])
        &&& i != after.start_index ==> after.map[i].wf()
    } by {
        assert(history.map.contains_key(i));
    }
}

/// Appending a well-formed set whose id is the next index keeps the
/// invariant.
pub proof fn lemma_append_keeps_inv(anchor: AnchorModel, set: ValidatorSetModel)
    requires
        anchor.inv(),
        set.wf(),
        anchor.validator_set_histories.next_index() <= u64::MAX,
        set.id == anchor.validator_set_histories.next_index(),
    ensures
        (AnchorModel {
            validator_set_histories: anchor.validator_set_histories.append(set),
            ..anchor
        }).inv(),
{
    let history = anchor.validator_set_histories;
    lemma_append_dense::<ValidatorSet>(history, set);
    let after = history.append(set);
    assert forall|i: u64| #[trigger] after.map.contains_key(i) implies {
        &&& after.map[i].id == i
        &&& sound_or_clearing(after.map[i])
        &&& i != after.start_index ==> after.map[i].wf()
    } by {
        if i != set.id {
            assert(history.map.contains_key(i));
        }
    }
}

/// In a history that obeys the invariant, the id of the latest set is the
/// last index, and the next index is one more.
pub proof fn lemma_latest_has_last_index(anchor: AnchorModel)
    requires
        anchor.inv(),
    ensures
        match anchor.latest_validator_set() {
            Some(latest) => latest.id == anchor.validator_set_histories.end_index
                && anchor.validator_set_histories.next_index()
                == anchor.validator_set_histories.end_index + 1,
            None => anchor.validator_set_histories.next_index() == 0,
        },
{
    let history = anchor.validator_set_histories;
    if history.map.contains_key(history.start_index) {
        assert(history.map.contains_key(history.end_index));
        if history.start_index == 0 {
            assert(history.map.contains_key(0));
        }
    } else {
        assert(!history.map.contains_key(history.end_index));
    }
}

} // verus!

use crate::anchor::{AnchorError, AnchorModel, AppchainAnchor, NEAR_SCALE};
use crate::codec::{
    chain_id_accepted, encode_validator_update, make_chain_id, sha256, sha256_digest,
    validator_update_encoding,
};
use crate::ext_contracts::{
    CreateClientRequest, SendVscPacketRequest, SyncStateRequest, TmConsensusState,
};
use crate::keyed::{value_of, KeyedList};
use crate::packet::{byte_views, keys_registered, voting_power};
use crate::permissionless_actions::PermissionlessActions;
use crate::settings_manager::NANOS_PER_SECOND;
use crate::types::AppchainState;
use crate::validator_set::{
    is_active, validator_views, AccountId, Timestamp, Validator, ValidatorModel, ValidatorStatus,
};
use vstd::prelude::*;

verus! {

/// The steps that bring an appchain to life.
pub trait AppchainLifecycleManager {
    /// Prepares the light client of the appchain at the relay contract, from
    /// the first validator set.
    fn create_client_for_appchain(
        &self,
        caller: &AccountId,
        trusting_period: u64,
        unbonding_period: u64,
        max_clock_drift: u64,
        upgrade_path: Vec<String>,
        now: Timestamp,
    ) -> Result<CreateClientRequest, AnchorError>;

    /// Turns a booting appchain active, tells the registry and sends the
    /// first packet.
    fn go_live(&mut self, caller: &AccountId) -> Result<
        (Option<SyncStateRequest>, Option<SendVscPacketRequest>),
        AnchorError,
    >;
}

/// The largest of `k`, `2k`, `4k`, ... that its double does not reach `n`
/// with.
pub open spec fn split_from(k: nat, n: nat) -> nat
    decreases n - k,
{
    if k > 0 && 2 * k < n {
        split_from(2 * k, n)
    } else {
        k
    }
}

/// Where a list of `n` items splits: at the largest power of two below `n`.
pub open spec fn split_point(n: nat) -> nat {
    split_from(1, n)
}

/// The doublings of `k` stay below `n`.
pub proof fn lemma_split_from_bounds(k: nat, n: nat)
    requires
        0 < k < n,
    ensures
        k <= split_from(k, n) < n,
    decreases n - k,
{
    if 2 * k < n {
        lemma_split_from_bounds(2 * k, n);
    }
}

/// The root of the Merkle tree over the items: the digest of nothing for no
/// item, the digest of a 0 and the item for one item, and else the digest
/// of a 1 and the roots of the two parts that the split point gives.
pub open spec fn merkle_root(items: Seq<Seq<u8>>) -> Seq<u8>
    decreases items.len(),
{
    if items.len() == 0 {
        sha256_digest(Seq::empty())
    } else if items.len() == 1 {
        sha256_digest(seq![0u8] + items[0])
    } else {
        let k = split_point(items.len()) as int;
        if 0 < k < items.len() {
            sha256_digest(seq![1u8] + merkle_root(items.take(k)) + merkle_root(items.skip(k)))
        } else {
            Seq::empty()
        }
    }
}

/// The root over two items or more is the digest of a 1 and the roots of
/// the two parts, of which neither is empty.
pub proof fn lemma_merkle_root_of_many(items: Seq<Seq<u8>>)
    requires
        items.len() >= 2,
    ensures
        0 < split_point(items.len()) < items.len(),
        merkle_root(items) == sha256_digest(
            seq![1u8] + merkle_root(items.take(split_point(items.len()) as int)) + merkle_root(
                items.skip(split_point(items.len()) as int),
            ),
        ),
{
    lemma_split_from_bounds(1, items.len());
}

pub fn empty_hash() -> (r: Vec<u8>)
    ensures
        r@ == sha256_digest(Seq::empty()),
{
    let nothing: Vec<u8> = Vec::new();
    sha256(nothing.as_slice())
}

pub fn leaf_hash(bytes: &Vec<u8>) -> (r: Vec<u8>)
    ensures
        r@ == sha256_digest(seq![0u8] + bytes@),
{
    let mut leaf_bytes: Vec<u8> = Vec::new();
    leaf_bytes.push(0);
    append_bytes(&mut leaf_bytes, bytes);
    sha256(leaf_bytes.as_slice())
}

pub fn inner_hash(left: &Vec<u8>, right: &Vec<u8>) -> (r: Vec<u8>)
    ensures
        r@ == sha256_digest(seq![1u8] + left@ + right@),
{
    let mut inner_bytes: Vec<u8> = Vec::new();
    inner_bytes.push(1);
    append_bytes(&mut inner_bytes, left);
    append_bytes(&mut inner_bytes, right);
    sha256(inner_bytes.as_slice())
}

fn append_bytes(target: &mut Vec<u8>, bytes: &Vec<u8>)
    ensures
        final(target)@ == old(target)@ + bytes@,
{
    let mut i: usize = 0;
    while i < bytes.len()
        invariant
            i <= bytes.len(),
            target@ == old(target)@ + bytes@.take(i as int),
        decreases bytes.len() - i,
    {
        target.push(bytes[i]);
        assert(bytes@.take(i as int + 1) =~= bytes@.take(i as int).push(bytes@[i as int]));
        assert(target@ =~= old(target)@ + bytes@.take(i as int + 1));
        i = i + 1;
    }
    assert(bytes@.take(i as int) =~= bytes@);
}

/// The Merkle root of the items.
pub fn merkle_hash(bytes_array: &Vec<Vec<u8>>) -> (r: Vec<u8>)
    ensures
        r@ == merkle_root(byte_views(bytes_array@)),
{
    assert(byte_views(bytes_array@).subrange(0, bytes_array.len() as int) =~= byte_views(
        bytes_array@,
    ));
    merkle_range(bytes_array, 0, bytes_array.len())
}

fn merkle_range(items: &Vec<Vec<u8>>, lo: usize, hi: usize) -> (r: Vec<u8>)
    requires
        lo <= hi <= items.len(),
    ensures
        r@ == merkle_root(byte_views(items@).subrange(lo as int, hi as int)),
    decreases hi - lo,
{
    let ghost part = byte_views(items@).subrange(lo as int, hi as int);
    let n = hi - lo;
    if n == 0 {
        empty_hash()
    } else if n == 1 {
        assert(part[0] == items@[lo as int]@);
        leaf_hash(&items[lo])
    } else {
        let mut k: usize = 1;
        while k < n - k
            invariant
                0 < k < n,
                split_from(k as nat, n as nat) == split_point(n as nat),
            decreases n - k,
        {
            k = k + k;
        }
        proof {
            assert(part.take(k as int) =~= byte_views(items@).subrange(
                lo as int,
                lo as int + k as int,
            ));
            assert(part.skip(k as int) =~= byte_views(items@).subrange(
                lo as int + k as int,
                hi as int,
            ));
        }
        let left = merkle_range(items, lo, lo + k);
        let right = merkle_range(items, lo + k, hi);
        inner_hash(&left, &right)
    }
}

/// The root that a light client starts from.
pub open spec fn sentinel_root() -> Seq<u8> {
    seq![115u8, 101, 110, 116, 105, 110, 101, 108, 95, 114, 111, 111, 116]
}

/// The encoded updates that announce the active validators of a set, each
/// with its key and its power.
pub open spec fn validator_updates(
    validators: Seq<ValidatorModel>,
    pubkeys: Seq<(Seq<char>, Seq<u8>)>,
) -> Seq<Seq<u8>> {
    validators.filter(|v: ValidatorModel| is_active(v)).map_values(
        |v: ValidatorModel|
            validator_update_encoding(
                value_of(pubkeys, v.validator_id).unwrap(),
                voting_power(v.total_stake) as i64,
            ),
    )
}

impl AnchorModel {
    /// Why the appchain cannot leave the booting state, or its client cannot
    /// be made, for want of the right caller, state or first validator set.
    pub open spec fn booting_error(self, caller: Seq<char>) -> Option<AnchorError> {
        if caller != self.owner {
            Some(AnchorError::NotOwner)
        } else if self.appchain_state != AppchainState::Booting {
            Some(AnchorError::AppchainNotBooting)
        } else if !self.validator_set_histories.map.contains_key(0) {
            Some(AnchorError::NoValidatorSet)
        } else {
            None
        }
    }

    pub open spec fn create_client_error(
        self,
        caller: Seq<char>,
        trusting_period: u64,
        unbonding_period: u64,
        max_clock_drift: u64,
    ) -> Option<AnchorError> {
        if self.booting_error(caller) is Some {
            self.booting_error(caller)
        } else if !(trusting_period < unbonding_period) {
            Some(AnchorError::InvalidPeriods)
        } else if !(0 < max_clock_drift < trusting_period) {
            Some(AnchorError::InvalidPeriods)
        } else if !keys_registered(
            self.validator_set_histories.map[0].validators,
            self.validator_id_to_pubkey_map,
        ) {
            Some(AnchorError::PubkeyNotRegistered)
        } else if !chain_id_accepted(self.chain_id()) {
            Some(AnchorError::InvalidChainId)
        } else {
            None
        }
    }

    /// Whether `request` tells the registry the state of the appchain with
    /// its latest validator set.
    pub open spec fn is_sync_request(self, request: SyncStateRequest) -> bool {
        let latest = self.latest_validator_set()->0;
        &&& request.appchain_registry@ == self.appchain_registry
        &&& request.appchain_id@ == self.appchain_id
        &&& request.appchain_state == self.appchain_state
        &&& request.validator_count == latest.validators.len()
        &&& request.total_stake == latest.total_stake
    }

    pub open spec fn sync_error(self) -> Option<AnchorError> {
        match self.latest_validator_set() {
            Some(latest) => if latest.validators.len() > u32::MAX {
                Some(AnchorError::Overflow)
            } else {
                None
            },
            None => None,
        }
    }

    /// The anchor once the appchain is active.
    pub open spec fn live(self) -> AnchorModel {
        AnchorModel { appchain_state: AppchainState::Active, ..self }
    }

    pub open spec fn go_live_error(self, caller: Seq<char>) -> Option<AnchorError> {
        if self.booting_error(caller) is Some {
            self.booting_error(caller)
        } else if self.anchor_settings.era_reward == 0 {
            Some(AnchorError::MissingSettings)
        } else if self.live().sync_error() is Some {
            self.live().sync_error()
        } else {
            match self.latest_validator_set() {
                Some(latest) => self.live().periodic_error(latest, self.previous_validator_set()),
                None => None,
            }
        }
    }
}

/// The encoded updates for the active validators, or `None` where one of them
/// has no registered key.
fn collect_validator_updates(
    validators: &Vec<Validator>,
    pubkeys: &KeyedList<AccountId, Vec<u8>>,
) -> (r: Option<Vec<Vec<u8>>>)
    ensures
        match r {
            Some(updates) => keys_registered(validator_views(validators@), pubkeys@) && byte_views(
                updates@,
            ) == validator_updates(validator_views(validators@), pubkeys@),
            None => !keys_registered(validator_views(validators@), pubkeys@),
        },
{
    let ghost all = validator_views(validators@);
    let ghost pred = |v: ValidatorModel| is_active(v);
    let ghost entry = |v: ValidatorModel|
        validator_update_encoding(
            value_of(pubkeys@, v.validator_id).unwrap(),
            voting_power(v.total_stake) as i64,
        );
    let mut result: Vec<Vec<u8>> = Vec::new();
    let mut i: usize = 0;
    proof {
        reveal(Seq::filter);
        assert(all.take(0) =~= Seq::empty());
        assert(byte_views(result@) =~= Seq::empty());
    }
    while i < validators.len()
        invariant
            i <= validators.len(),
            all == validator_views(validators@),
            pred == |v: ValidatorModel| is_active(v),
            entry == |v: ValidatorModel|
                validator_update_encoding(
                    value_of(pubkeys@, v.validator_id).unwrap(),
                    voting_power(v.total_stake) as i64,
                ),
            byte_views(result@) == all.take(i as int).filter(pred).map_values(entry),
            forall|j: int|
                0 <= j < i && is_active(#[trigger] all[j]) ==> value_of(
                    pubkeys@,
                    all[j].validator_id,
                ) is Some,
        decreases validators.len() - i,
    {
        let ghost seen = all.take(i as int);
        let ghost v = all[i as int];
        let ghost before = byte_views(result@);
        proof {
            assert(all.take(i as int + 1) =~= seen.push(v));
            seen.lemma_filter_push(v, pred);
            seen.filter(pred).lemma_push_map_commute(entry, v);
        }
        match validators[i].status {
            ValidatorStatus::Active => {
                match pubkeys.get(&validators[i].validator_id) {
                    Some(key) => {
                        let power: u64 = (validators[i].total_stake / NEAR_SCALE) as u64;
                        let update = encode_validator_update(key, power as i64);
                        result.push(update);
                        proof {
                            assert(byte_views(result@) =~= before.push(entry(v)));
                        }
                    },
                    None => {
                        return None;
                    },
                }
            },
            _ => {},
        }
        i = i + 1;
    }
    proof {
        assert(all.take(i as int) =~= all);
    }
    Some(result)
}

fn sentinel_root_bytes() -> (r: Vec<u8>)
    ensures
        r@ == sentinel_root(),
{
    let mut root: Vec<u8> = Vec::new();
    root.push(115);
    root.push(101);
    root.push(110);
    root.push(116);
    root.push(105);
    root.push(110);
    root.push(101);
    root.push(108);
    root.push(95);
    root.push(114);
    root.push(111);
    root.push(111);
    root.push(116);
    assert(root@ =~= sentinel_root());
    root
}

impl AppchainAnchor {
    /// The call that tells the registry the state of the appchain, if there is
    /// a validator set to report.
    pub fn sync_state_to_registry(&self) -> (r: Result<Option<SyncStateRequest>, AnchorError>)
        ensures
            match r {
                Ok(request) => self@.sync_error() is None && match self@.latest_validator_set() {
                    Some(_) => request is Some && self@.is_sync_request(request->0),
                    None => request is None,
                },
                Err(e) => self@.sync_error() == Some(e),
            },
    {
        match self.validator_set_histories.get_last() {
            Some(latest) => {
                if latest.validators.len() > u32::MAX as usize {
                    return Err(AnchorError::Overflow);
                }
                Ok(
                    Some(
                        SyncStateRequest {
                            appchain_registry: self.appchain_registry.clone(),
                            appchain_id: self.appchain_id.clone(),
                            appchain_state: self.appchain_state,
                            validator_count: latest.validators.len() as u32,
                            total_stake: latest.total_stake,
                        },
                    ),
                )
            },
            None => Ok(None),
        }
    }
}

impl AppchainLifecycleManager for AppchainAnchor {
    fn create_client_for_appchain(
        &self,
        caller: &AccountId,
        trusting_period: u64,
        unbonding_period: u64,
        max_clock_drift: u64,
        upgrade_path: Vec<String>,
        now: Timestamp,
    ) -> (r: Result<CreateClientRequest, AnchorError>)
        ensures
            match r {
                Ok(request) => {
                    &&& self@.create_client_error(
                        caller@,
                        trusting_period,
                        unbonding_period,
                        max_clock_drift,
                    ) is None
                    &&& request.near_ibc_contract@ == self@.near_ibc_contract
                    &&& request.chain_id@ == self@.chain_id()
                    &&& request.trusting_period == trusting_period
                    &&& request.unbonding_period == unbonding_period
                    &&& request.max_clock_drift == max_clock_drift
                    &&& request.upgrade_path@ == upgrade_path@
                    &&& request.consensus_state.timestamp_seconds == now / NANOS_PER_SECOND
                    &&& request.consensus_state.timestamp_nanos == now % NANOS_PER_SECOND
                    &&& request.consensus_state.root@ == sentinel_root()
                    &&& request.consensus_state.next_validators_hash@ == merkle_root(
                        validator_updates(
                            self@.validator_set_histories.map[0].validators,
                            self@.validator_id_to_pubkey_map,
                        ),
                    )
                },
                Err(e) => self@.create_client_error(
                    caller@,
                    trusting_period,
                    unbonding_period,
                    max_clock_drift,
                ) == Some(e),
            },
    {
        if !self.is_owner(caller) {
            return Err(AnchorError::NotOwner);
        }
        if self.appchain_state != AppchainState::Booting {
            return Err(AnchorError::AppchainNotBooting);
        }
        let first: u64 = 0;
        let init_vs = match self.validator_set_histories.get(&first) {
            Some(set) => set,
            None => {
                return Err(AnchorError::NoValidatorSet);
            },
        };
        if !(trusting_period < unbonding_period) {
            return Err(AnchorError::InvalidPeriods);
        }
        if !(0 < max_clock_drift && max_clock_drift < trusting_period) {
            return Err(AnchorError::InvalidPeriods);
        }
        let validators_bytes = match collect_validator_updates(
            &init_vs.validators,
            &self.validator_id_to_pubkey_map,
        ) {
            Some(updates) => updates,
            None => {
                return Err(AnchorError::PubkeyNotRegistered);
            },
        };
        let consensus_state = TmConsensusState {
            timestamp_seconds: now / NANOS_PER_SECOND,
            timestamp_nanos: (now % NANOS_PER_SECOND) as u32,
            root: sentinel_root_bytes(),
            next_validators_hash: merkle_hash(&validators_bytes),
        };
        let chain_id = match make_chain_id(
            &self.appchain_id,
            self.anchor_settings.chain_revision_number,
        ) {
            Some(text) => text,
            None => {
                return Err(AnchorError::InvalidChainId);
            },
        };
        Ok(
            CreateClientRequest {
                near_ibc_contract: self.near_ibc_contract.clone(),
                chain_id,
                trusting_period,
                unbonding_period,
                max_clock_drift,
                upgrade_path,
                consensus_state,
            },
        )
    }

    fn go_live(&mut self, caller: &AccountId) -> (r: Result<
        (Option<SyncStateRequest>, Option<SendVscPacketRequest>),
        AnchorError,
    >)
        ensures
            match r {
                Ok((sync, packet)) => {
                    &&& old(self)@.go_live_error(caller@) is None
                    &&& final(self)@ == old(self)@.live()
                    &&& match old(self)@.latest_validator_set() {
                        Some(latest) => {
                            &&& sync is Some
                            &&& final(self)@.is_sync_request(sync->0)
                            &&& packet is Some
                            &&& final(self)@.is_periodic_request(
                                packet->0,
                                latest,
                                old(self)@.previous_validator_set(),
                            )
                        },
                        None => sync is None && packet is None,
                    }
                },
                Err(e) => old(self)@.go_live_error(caller@) == Some(e) && final(self)@ == old(
                    self,
                )@,
            },
    {
        if !self.is_owner(caller) {
            return Err(AnchorError::NotOwner);
        }
        if self.appchain_state != AppchainState::Booting {
            return Err(AnchorError::AppchainNotBooting);
        }
        let first: u64 = 0;
        if !self.validator_set_histories.contains(&first) {
            return Err(AnchorError::NoValidatorSet);
        }
        if self.anchor_settings.era_reward == 0 {
            return Err(AnchorError::MissingSettings);
        }
        self.appchain_state = AppchainState::Active;
        let sync = match self.sync_state_to_registry() {
            Ok(request) => request,
            Err(e) => {
                self.appchain_state = AppchainState::Booting;
                return Err(e);
            },
        };
        let packet = match self.send_vsc_packet_to_appchain() {
            Ok(request) => request,
            Err(e) => {
                self.appchain_state = AppchainState::Booting;
                return Err(e);
            },
        };
        Ok((sync, packet))
    }
}

} // verus!

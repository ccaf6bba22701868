use appchain_anchor_ibc::anchor::{AnchorError, AppchainAnchor, NEAR_SCALE};
use appchain_anchor_ibc::anchor_viewer::AnchorViewer;
use appchain_anchor_ibc::appchain_lifecycle::{merkle_hash, AppchainLifecycleManager};
use appchain_anchor_ibc::codec::calculate_address;
use appchain_anchor_ibc::ext_contracts::SendVscPacketRequest;
use appchain_anchor_ibc::gas::GasMeter;
use appchain_anchor_ibc::near_ibc_actions::NearIbcActions;
use appchain_anchor_ibc::permissionless_actions::{PermissionlessActions, SlashOutcome};
use appchain_anchor_ibc::restaking_base_actions::RestakingBaseActions;
use appchain_anchor_ibc::restaking_base_callbacks::RestakingBaseCallbacks;
use appchain_anchor_ibc::reward_token_callbacks::{RewardTokenCallbacks, SettlementOutcome};
use appchain_anchor_ibc::settings_manager::AnchorSettingsManager;
use appchain_anchor_ibc::storage_migration::{OldRewardDistribution, OldValidatorSet};
use appchain_anchor_ibc::sudo_actions::SudoActions;
use appchain_anchor_ibc::types::{
    AnchorSettings, AppchainState, ConsumerValidator, FtTransferMessage, OldAnchorSettings,
    RewardDistribution, SlashPacketData, SlashPacketView,
};
use appchain_anchor_ibc::validator_set::{
    RestakingBaseValidatorSet, Validator, ValidatorSet, ValidatorSetError, ValidatorSetViewer,
    ValidatorStatus,
};

const ACCOUNT: &str = "otto.registry.near";
const LEDGER: &str = "restaking.near";
const MARKET: &str = "market.near";
const RELAY: &str = "relay.near";
const TOKEN: &str = "token.near";
const ONE_TERA: u64 = 1_000_000_000_000;

fn id(name: &str) -> String {
    name.to_string()
}

fn key_of(n: u8) -> Vec<u8> {
    vec![n; 32]
}

fn key_text(n: u8) -> String {
    appchain_anchor_ibc::codec::encode_ed25519_pubkey(&key_of(n))
}

fn fresh() -> AppchainAnchor {
    AppchainAnchor::new(&id(ACCOUNT), id(LEDGER), id(MARKET), id(RELAY), id(TOKEN)).unwrap()
}

fn report(entries: &[(&str, u128)], sequence: u64) -> Option<RestakingBaseValidatorSet> {
    Some(RestakingBaseValidatorSet {
        validator_set: entries.iter().map(|(n, s)| (n.to_string(), *s)).collect(),
        sequence,
    })
}

/// An active anchor with the validators v1 (key 1, power 3) and v2 (key 2,
/// power 5) in its only set.
fn active() -> AppchainAnchor {
    let mut anchor = fresh();
    anchor.anchor_settings.min_validator_staking_amount = NEAR_SCALE;
    anchor.bond(&id(LEDGER), id("v1"), key_text(1)).unwrap();
    anchor.bond(&id(LEDGER), id("v2"), key_text(2)).unwrap();
    anchor
        .get_validator_set_callback(report(&[("v1", 3 * NEAR_SCALE), ("v2", 5 * NEAR_SCALE)], 1), 1_000)
        .unwrap();
    anchor.appchain_state = AppchainState::Active;
    anchor
}

fn powers(request: &SendVscPacketRequest) -> Vec<(Vec<u8>, u64)> {
    request
        .vsc_packet_data
        .validator_pubkeys
        .iter()
        .map(|e| (e.public_key.clone(), e.power))
        .collect()
}

fn latest_status(anchor: &AppchainAnchor, name: &str) -> ValidatorStatus {
    anchor.validator_set_histories.get_last().unwrap().get_validator(&id(name)).unwrap().status
}

fn downtime(address: Vec<u8>, valset_update_id: u64) -> SlashPacketData {
    SlashPacketData {
        validator: Some(ConsumerValidator { address, power: 3 }),
        valset_update_id,
        infraction: id("INFRACTION_DOWNTIME"),
    }
}

fn evidence(address: Vec<u8>, valset_update_id: u64, infraction: &str) -> SlashPacketView {
    SlashPacketView {
        validator: Some(ConsumerValidator { address, power: 3 }),
        valset_update_id,
        infraction: id(infraction),
        received_timestamp: 0,
    }
}

#[test]
fn an_anchor_is_named_after_its_account() {
    let anchor = fresh();
    assert_eq!(anchor.appchain_id, "otto");
    assert_eq!(anchor.appchain_registry, "registry.near");
    assert_eq!(anchor.get_owner(), ACCOUNT);
    assert_eq!(anchor.get_reward_token_contract(), TOKEN);
    assert_eq!(anchor.get_appchain_state(), AppchainState::Booting);
    assert_eq!(anchor.locked_reward_token_amount, 0);
    assert_eq!(anchor.validator_set_histories.len(), 0);
    assert_eq!(anchor.get_chain_id(), Some(id("otto-0")));
    assert_eq!(anchor.version(), anchor.get_anchor_version());
    assert!(anchor.get_anchor_status().is_none());
    assert!(anchor.is_owner(&id(ACCOUNT)));
    assert!(anchor.is_near_ibc_contract(&id(RELAY)));
    assert!(anchor.is_restaking_base_contract(&id(LEDGER)));
    assert!(anchor.is_reward_token_contract(&id(TOKEN)));
    assert!(!anchor.is_owner(&id(RELAY)));
}

#[test]
fn an_anchor_needs_a_sub_account_of_a_registry() {
    for account in ["otto", "otto.near", "", ".", "otto."] {
        let r = AppchainAnchor::new(&id(account), id(LEDGER), id(MARKET), id(RELAY), id(TOKEN));
        assert_eq!(r.err(), Some(AnchorError::InvalidAccountId));
    }
    for account in ["ot to.registry.near", ".registry.near", "ot!to.registry.near"] {
        let r = AppchainAnchor::new(&id(account), id(LEDGER), id(MARKET), id(RELAY), id(TOKEN));
        assert_eq!(r.err(), Some(AnchorError::InvalidChainId));
    }
    let anchor =
        AppchainAnchor::new(&id("a.b.c.d"), id(LEDGER), id(MARKET), id(RELAY), id(TOKEN)).unwrap();
    assert_eq!(anchor.appchain_id, "a");
    assert_eq!(anchor.appchain_registry, "b.c.d");
}

#[test]
fn the_default_settings() {
    let settings = AnchorSettings::default();
    assert_eq!(settings.chain_revision_number, 0);
    assert_eq!(settings.era_reward, 0);
    assert_eq!(settings.max_count_of_validators, 60);
    assert_eq!(settings.min_length_of_validator_set_history, 100);
    assert_eq!(settings.min_interval_for_new_validator_set, 3_600 * 1_000_000_000);
    assert_eq!(settings.vsc_packet_timeout_interval, 2_400 * 1_000_000_000);
    assert_eq!(settings.min_validator_staking_amount, 10_000 * NEAR_SCALE);
    assert_eq!(settings.min_unjail_interval, 600 * 1_000_000_000);
    assert_eq!(settings.appchain_address_bech32_hrp, "ottovalcons");
    assert_eq!(fresh().get_anchor_settings().max_count_of_validators, 60);
}

#[test]
fn the_owner_hands_the_anchor_on() {
    let mut anchor = fresh();
    assert_eq!(anchor.set_owner(&id("x.near"), id("y.near")), Err(AnchorError::NotOwner));
    assert_eq!(anchor.set_owner(&id(ACCOUNT), id(ACCOUNT)), Err(AnchorError::ValueNotChanged));
    assert_eq!(anchor.get_owner(), ACCOUNT);
    assert_eq!(anchor.set_owner(&id(ACCOUNT), id("y.near")), Ok(()));
    assert_eq!(anchor.get_owner(), "y.near");
    assert_eq!(anchor.set_owner(&id(ACCOUNT), id("z.near")), Err(AnchorError::NotOwner));
}

#[test]
fn setters_refuse_strangers_and_unchanged_values() {
    let mut anchor = fresh();
    let owner = id(ACCOUNT);
    let stranger = id("x.near");
    assert_eq!(anchor.change_era_reward(&stranger, 5), Err(AnchorError::NotOwner));
    assert_eq!(anchor.change_era_reward(&owner, 0), Err(AnchorError::ValueNotChanged));
    assert_eq!(anchor.change_era_reward(&owner, 5), Ok(()));
    assert_eq!(anchor.anchor_settings.era_reward, 5);
    assert_eq!(anchor.change_chain_revision_number(&owner, 0), Err(AnchorError::ValueNotChanged));
    assert_eq!(anchor.change_chain_revision_number(&owner, 2), Ok(()));
    assert_eq!(anchor.get_chain_id(), Some(id("otto-2")));
    assert_eq!(anchor.change_maximum_validator_count(&owner, 0), Err(AnchorError::InvalidValue));
    assert_eq!(anchor.change_maximum_validator_count(&owner, 60), Err(AnchorError::ValueNotChanged));
    assert_eq!(anchor.change_maximum_validator_count(&owner, 61), Ok(()));
    assert_eq!(anchor.anchor_settings.max_count_of_validators, 61);
    assert_eq!(
        anchor.change_min_length_of_validator_set_history(&owner, 100),
        Err(AnchorError::ValueNotChanged)
    );
    assert_eq!(anchor.change_min_length_of_validator_set_history(&owner, 3), Ok(()));
    assert_eq!(anchor.anchor_settings.min_length_of_validator_set_history, 3);
    assert_eq!(
        anchor.change_min_validator_staking_amount(&owner, 10_000 * NEAR_SCALE),
        Err(AnchorError::ValueNotChanged)
    );
    assert_eq!(anchor.change_min_validator_staking_amount(&owner, 1), Ok(()));
    assert_eq!(anchor.anchor_settings.min_validator_staking_amount, 1);
    assert_eq!(anchor.change_min_validator_staking_amount(&stranger, 2), Err(AnchorError::NotOwner));
}

#[test]
fn intervals_are_set_in_seconds() {
    let mut anchor = fresh();
    let owner = id(ACCOUNT);
    assert_eq!(
        anchor.change_min_interval_for_new_validator_set(&owner, 3_600),
        Err(AnchorError::ValueNotChanged)
    );
    assert_eq!(anchor.change_min_interval_for_new_validator_set(&owner, 60), Ok(()));
    assert_eq!(anchor.anchor_settings.min_interval_for_new_validator_set, 60_000_000_000);
    assert_eq!(
        anchor.change_min_interval_for_new_validator_set(&owner, u64::MAX),
        Err(AnchorError::InvalidValue)
    );
    assert_eq!(
        anchor.change_vsc_packet_timeout_interval(&owner, 2_400),
        Err(AnchorError::ValueNotChanged)
    );
    assert_eq!(anchor.change_vsc_packet_timeout_interval(&owner, 1), Ok(()));
    assert_eq!(anchor.anchor_settings.vsc_packet_timeout_interval, 1_000_000_000);
    assert_eq!(
        anchor.change_vsc_packet_timeout_interval(&owner, 18_446_744_074),
        Err(AnchorError::InvalidValue)
    );
    assert_eq!(
        anchor.change_vsc_packet_timeout_interval(&id("x.near"), 2),
        Err(AnchorError::NotOwner)
    );
}

#[test]
fn the_owner_changes_the_accounts() {
    let mut anchor = fresh();
    let owner = id(ACCOUNT);
    assert_eq!(anchor.change_appchain_registry(&id(RELAY), id("r.near")), Err(AnchorError::NotOwner));
    assert_eq!(
        anchor.change_appchain_registry(&owner, id("registry.near")),
        Err(AnchorError::ValueNotChanged)
    );
    assert_eq!(anchor.change_appchain_registry(&owner, id("r.near")), Ok(()));
    assert_eq!(anchor.appchain_registry, "r.near");
    assert_eq!(anchor.change_near_ibc_contract(&owner, id(RELAY)), Err(AnchorError::ValueNotChanged));
    assert_eq!(anchor.change_near_ibc_contract(&owner, id("relay2.near")), Ok(()));
    assert!(anchor.is_near_ibc_contract(&id("relay2.near")));
    assert_eq!(anchor.set_reward_token_contract(&owner, id(TOKEN)), Err(AnchorError::ValueNotChanged));
    assert_eq!(anchor.set_reward_token_contract(&owner, id("t2.near")), Ok(()));
    assert_eq!(anchor.get_reward_token_contract(), "t2.near");
}

#[test]
fn the_first_report_makes_the_first_set() {
    let mut anchor = fresh();
    anchor.anchor_settings.min_validator_staking_amount = 10;
    let index = anchor.get_validator_set_callback(report(&[("v1", 100), ("v2", 5)], 9), 50);
    assert_eq!(index, Ok(Some(0)));
    let set = anchor.validator_set_histories.get_last().unwrap();
    assert_eq!(set.id(), 0);
    assert_eq!(set.sequence(), 9);
    assert_eq!(set.timestamp(), 50);
    assert_eq!(latest_status(&anchor, "v1"), ValidatorStatus::Active);
    assert_eq!(latest_status(&anchor, "v2"), ValidatorStatus::Unqualified);
    assert_eq!(set.active_validators(), vec![(id("v1"), 100)]);
    assert_eq!(set.total_stake(), 105);
}

#[test]
fn the_ids_of_the_history_count_up() {
    let mut anchor = fresh();
    anchor.anchor_settings.min_validator_staking_amount = 10;
    for i in 0..5u64 {
        let stake = 100 + i as u128;
        let index = anchor.get_validator_set_callback(report(&[("v1", stake), ("v2", 50)], i), i);
        assert_eq!(index, Ok(Some(i)));
    }
    assert_eq!(anchor.validator_set_histories.len(), 5);
    for i in 0..5u64 {
        let set = anchor.validator_set_histories.get(&i).unwrap();
        assert_eq!(set.id(), i);
        assert_eq!(set.total_stake(), 150 + i as u128);
        assert_eq!(set.total_stake(), set.validators.iter().map(|v| v.total_stake).sum::<u128>());
    }
    let status = anchor.get_anchor_status().unwrap();
    assert_eq!(status.total_stake, 154);
    assert_eq!(status.validator_count, 2);
    assert_eq!(status.index_range_of_validator_set_history.start_index, 0);
    assert_eq!(status.index_range_of_validator_set_history.end_index, 4);
    assert_eq!(status.locked_reward_token_amount, 0);
}

#[test]
fn a_failed_or_useless_report_changes_nothing() {
    let mut anchor = fresh();
    assert_eq!(anchor.get_validator_set_callback(None, 1), Ok(None));
    assert_eq!(anchor.validator_set_histories.len(), 0);
    let r = anchor.get_validator_set_callback(report(&[("v1", 1)], 0), 1);
    assert_eq!(r, Err(AnchorError::ValidatorSet(ValidatorSetError::NoActiveValidator)));
    let r = anchor.get_validator_set_callback(report(&[("v1", u128::MAX), ("v1", 1)], 0), 1);
    assert_eq!(r, Err(AnchorError::ValidatorSet(ValidatorSetError::DuplicateValidator)));
    let r = anchor.get_validator_set_callback(report(&[("v1", u128::MAX), ("v2", 1)], 0), 1);
    assert_eq!(r, Err(AnchorError::ValidatorSet(ValidatorSetError::StakeOverflow)));
    assert_eq!(anchor.validator_set_histories.len(), 0);
    let set = anchor
        .generate_new_validator_set(&report(&[("v1", u128::MAX)], 4).unwrap(), 8)
        .unwrap();
    assert_eq!(set.id(), 0);
    assert_eq!(set.timestamp(), 8);
}

#[test]
fn a_new_set_is_fetched_after_the_interval() {
    let mut anchor = active();
    anchor.anchor_settings.min_interval_for_new_validator_set = 100;
    anchor.anchor_settings.max_count_of_validators = 7;
    assert_eq!(
        anchor.fetch_validator_set_from_restaking_base(1_100).err(),
        Some(AnchorError::IntervalTooShort)
    );
    assert_eq!(
        anchor.fetch_validator_set_from_restaking_base(999).err(),
        Some(AnchorError::IntervalTooShort)
    );
    let request = anchor.fetch_validator_set_from_restaking_base(1_101).unwrap();
    assert_eq!(request.restaking_base_contract, LEDGER);
    assert_eq!(request.consumer_chain_id, "cosmos:otto");
    assert_eq!(request.limit, 7);
    let request = fresh().fetch_validator_set_from_restaking_base(0).unwrap();
    assert_eq!(request.limit, 60);
}

#[test]
fn the_first_packet_lists_the_powers() {
    let anchor = active();
    let request = anchor.send_vsc_packet_to_appchain().unwrap().unwrap();
    assert_eq!(request.near_ibc_contract, RELAY);
    assert_eq!(request.chain_id, "otto-0");
    assert_eq!(request.timeout_timestamp_interval, 2_400 * 1_000_000_000);
    assert_eq!(request.vsc_packet_data.validator_set_id, 0);
    assert!(request.vsc_packet_data.slash_acks.is_empty());
    assert_eq!(powers(&request), vec![(key_of(1), 3), (key_of(2), 5)]);
    assert!(fresh().send_vsc_packet_to_appchain().unwrap().is_none());
}

#[test]
fn the_power_is_the_stake_in_whole_units() {
    let mut anchor = fresh();
    anchor.anchor_settings.min_validator_staking_amount = 1;
    anchor.register_key(id("v1"), key_of(1), vec![1]);
    anchor.register_key(id("v2"), key_of(2), vec![2]);
    anchor.register_key(id("v3"), key_of(3), vec![3]);
    anchor
        .get_validator_set_callback(
            report(&[("v1", 2 * NEAR_SCALE - 1), ("v2", NEAR_SCALE - 1), ("v3", NEAR_SCALE)], 1),
            0,
        )
        .unwrap();
    anchor.appchain_state = AppchainState::Active;
    let request = anchor.send_vsc_packet_to_appchain().unwrap().unwrap();
    assert_eq!(powers(&request), vec![(key_of(1), 1), (key_of(3), 1)]);
}

#[test]
fn an_unchanged_set_repeats_its_powers() {
    let mut anchor = active();
    anchor
        .get_validator_set_callback(report(&[("v1", 3 * NEAR_SCALE), ("v2", 5 * NEAR_SCALE)], 2), 2_000)
        .unwrap();
    let request = anchor.send_vsc_packet_to_appchain().unwrap().unwrap();
    assert_eq!(request.vsc_packet_data.validator_set_id, 1);
    assert_eq!(powers(&request), vec![(key_of(1), 3), (key_of(2), 5)]);
    let request = anchor
        .force_send_vsc_packet(&id(ACCOUNT), vec![key_text(9)], vec![id("ack")])
        .unwrap()
        .unwrap();
    assert_eq!(powers(&request), vec![(key_of(1), 3), (key_of(2), 5), (key_of(9), 0)]);
    assert_eq!(request.vsc_packet_data.slash_acks, vec![id("ack")]);
}

#[test]
fn a_dropped_validator_gets_power_zero() {
    let mut anchor = active();
    anchor.bond(&id(LEDGER), id("v3"), key_text(3)).unwrap();
    anchor
        .get_validator_set_callback(report(&[("v2", 6 * NEAR_SCALE), ("v3", 2 * NEAR_SCALE)], 2), 2_000)
        .unwrap();
    let request = anchor.send_vsc_packet_to_appchain().unwrap().unwrap();
    assert_eq!(request.vsc_packet_data.validator_set_id, 1);
    assert_eq!(powers(&request), vec![(key_of(1), 0), (key_of(2), 6), (key_of(3), 2)]);
}

#[test]
fn a_packet_needs_an_active_chain_and_registered_keys() {
    let mut anchor = active();
    anchor.appchain_state = AppchainState::Booting;
    assert_eq!(anchor.send_vsc_packet_to_appchain().err(), Some(AnchorError::AppchainNotActive));
    anchor.appchain_state = AppchainState::Active;
    anchor.appchain_id = id("ot to");
    assert_eq!(anchor.send_vsc_packet_to_appchain().err(), Some(AnchorError::InvalidChainId));
    anchor.appchain_id = id("otto");
    anchor
        .get_validator_set_callback(report(&[("v1", 3 * NEAR_SCALE), ("v9", 5 * NEAR_SCALE)], 2), 2_000)
        .unwrap();
    assert_eq!(anchor.send_vsc_packet_to_appchain().err(), Some(AnchorError::PubkeyNotRegistered));
    let set = anchor.validator_set_histories.get_last().unwrap();
    assert!(anchor.generate_vsc_packet_data(set, None, &vec![], &vec![]).is_none());
    let first = anchor.validator_set_histories.get_first().unwrap();
    let data = anchor
        .generate_vsc_packet_data(first, None, &vec![key_of(7)], &vec![id("a"), id("b")])
        .unwrap();
    assert_eq!(data.validator_set_id, 0);
    assert_eq!(data.slash_acks, vec![id("a"), id("b")]);
    assert_eq!(data.validator_pubkeys.len(), 3);
    assert_eq!(data.validator_pubkeys[2].public_key, key_of(7));
    assert_eq!(data.validator_pubkeys[2].power, 0);
}

#[test]
fn a_packet_acknowledges_the_slashes_of_its_set() {
    let mut anchor = active();
    anchor.bond(&id(LEDGER), id("v3"), key_text(3)).unwrap();
    anchor
        .get_validator_set_callback(
            report(&[("v1", 3 * NEAR_SCALE), ("v2", 5 * NEAR_SCALE), ("v3", NEAR_SCALE), ("v4", NEAR_SCALE)], 2),
            2_000,
        )
        .unwrap();
    anchor.register_key(id("v4"), key_of(4), vec![4]);
    anchor.force_jail_validator(&id(ACCOUNT), id("v3"), 3_000).unwrap();
    anchor.slash_request_callback(vec![(id("v1"), 1)], Some(7)).unwrap();
    let address = |n: u8| {
        appchain_anchor_ibc::codec::calculate_bech32_address(
            id("ottovalcons"),
            calculate_address(&key_of(n)),
        )
        .unwrap()
    };
    let set = anchor.validator_set_histories.get_last().unwrap();
    assert_eq!(anchor.slash_acks_for(set), Ok(vec![address(1), address(3)]));
    let request = anchor.send_vsc_packet_to_appchain().unwrap().unwrap();
    assert_eq!(request.vsc_packet_data.slash_acks, vec![address(1), address(3)]);
    assert_eq!(powers(&request), vec![(key_of(1), 0), (key_of(2), 5), (key_of(4), 1)]);
    anchor.validator_id_to_pubkey_map.remove(&id("v3"));
    let request = anchor.send_vsc_packet_to_appchain().unwrap().unwrap();
    assert_eq!(request.vsc_packet_data.slash_acks, vec![address(1)]);
    anchor.anchor_settings.appchain_address_bech32_hrp = id("no good");
    assert_eq!(
        anchor.send_vsc_packet_to_appchain().err(),
        Some(AnchorError::InvalidAddressPrefix)
    );
    let first = anchor.validator_set_histories.get_first().unwrap();
    assert_eq!(anchor.slash_acks_for(first), Ok(vec![]));
    assert!(anchor.send_periodic_packet(first, None).is_ok());
}

#[test]
fn forced_packets_are_the_owners() {
    let anchor = active();
    assert_eq!(
        anchor.force_send_vsc_packet(&id(RELAY), vec![], vec![]).err(),
        Some(AnchorError::NotOwner)
    );
    assert_eq!(
        anchor.force_send_vsc_packet(&id(ACCOUNT), vec![id("ed25519:???")], vec![]).err(),
        Some(AnchorError::InvalidPublicKey)
    );
    assert!(fresh().force_send_vsc_packet(&id(ACCOUNT), vec![id("???")], vec![]).unwrap().is_none());
}

#[test]
fn bonding_registers_key_and_address() {
    let mut anchor = fresh();
    assert_eq!(
        anchor.bond(&id(RELAY), id("v1"), key_text(1)),
        Err(AnchorError::NotRestakingBaseContract)
    );
    assert_eq!(anchor.bond(&id(LEDGER), id("v1"), id("ed25519:!!")), Err(AnchorError::InvalidPublicKey));
    assert_eq!(anchor.validator_id_to_pubkey_map.len(), 0);
    assert_eq!(anchor.bond(&id(LEDGER), id("v1"), key_text(1)), Ok(()));
    assert_eq!(anchor.validator_id_to_pubkey_map.get(&id("v1")), Some(&key_of(1)));
    let address = calculate_address(&key_of(1));
    assert_eq!(address.len(), 20);
    assert_eq!(anchor.validator_address_to_id_map.get(&address), Some(&id("v1")));
    assert_eq!(
        anchor.get_registered_addresses(),
        vec![(appchain_anchor_ibc::codec::encode_base64(&address), id("v1"))]
    );
}

#[test]
fn changing_the_key_moves_the_address() {
    let mut anchor = fresh();
    assert_eq!(anchor.change_key(&id(LEDGER), id("v1"), key_text(2)), Err(AnchorError::NotBonded));
    anchor.bond(&id(LEDGER), id("v1"), key_text(1)).unwrap();
    assert_eq!(
        anchor.change_key(&id(RELAY), id("v1"), key_text(2)),
        Err(AnchorError::NotRestakingBaseContract)
    );
    assert_eq!(
        anchor.change_key(&id(LEDGER), id("v1"), id("ed25519:!!")),
        Err(AnchorError::InvalidPublicKey)
    );
    assert_eq!(anchor.change_key(&id(LEDGER), id("v1"), key_text(2)), Ok(()));
    assert_eq!(anchor.validator_id_to_pubkey_map.get(&id("v1")), Some(&key_of(2)));
    assert_eq!(anchor.validator_id_to_pubkey_map.len(), 1);
    assert!(anchor.validator_address_to_id_map.get(&calculate_address(&key_of(1))).is_none());
    assert_eq!(
        anchor.validator_address_to_id_map.get(&calculate_address(&key_of(2))),
        Some(&id("v1"))
    );
    anchor.unregister_address(&calculate_address(&key_of(2)));
    assert_eq!(anchor.validator_address_to_id_map.len(), 0);
}

#[test]
fn deposits_fill_the_escrow() {
    let mut anchor = fresh();
    assert_eq!(
        anchor.ft_on_transfer(&id(RELAY), id("payer"), 5, id("")),
        Err(AnchorError::NotRewardTokenContract)
    );
    assert_eq!(anchor.ft_on_transfer(&id(TOKEN), id("payer"), 5, id("")), Ok(0));
    assert_eq!(anchor.ft_on_transfer(&id(TOKEN), id("payer"), 7, id("msg")), Ok(0));
    assert_eq!(anchor.locked_reward_token_amount, 12);
    assert_eq!(
        anchor.ft_on_transfer(&id(TOKEN), id("payer"), u128::MAX, id("")),
        Err(AnchorError::Overflow)
    );
    assert_eq!(anchor.locked_reward_token_amount, 12);
    anchor.ft_balance_of_callback(None);
    assert_eq!(anchor.locked_reward_token_amount, 12);
    anchor.ft_balance_of_callback(Some(99));
    assert_eq!(anchor.locked_reward_token_amount, 99);
    assert_eq!(
        anchor.update_locked_reward_token_balance(&id(ACCOUNT)).unwrap().reward_token_contract,
        TOKEN
    );
    assert_eq!(
        anchor.update_locked_reward_token_balance(&id(RELAY)).err(),
        Some(AnchorError::NotOwner)
    );
}

#[test]
fn a_partly_accepted_reward_is_paid_in_two_steps() {
    let mut anchor = active();
    anchor.anchor_settings.era_reward = 1_000;
    anchor.ft_on_transfer(&id(TOKEN), id("payer"), 1_000, id("")).unwrap();
    assert_eq!(anchor.distribute_reward(&id(RELAY), 0, 77), Ok(0));
    let request = anchor.distribute_pending_rewards(100 * ONE_TERA).unwrap();
    assert_eq!(request.reward_token_contract, TOKEN);
    assert_eq!(request.receiver_id, MARKET);
    assert_eq!(request.amount, 1_000);
    assert_eq!(request.reward_distribution_index, 0);
    assert_eq!(
        request.reward_distribution,
        RewardDistribution { validator_set_id: 0, amount: 1_000, timestamp: 77, distributed: false }
    );
    let FtTransferMessage::AnchorDepositRewardMsg(msg) = request.msg;
    assert_eq!(msg.consumer_chain_id, "cosmos:otto");
    assert_eq!(msg.sequence, 1);
    assert_eq!(msg.validator_set, vec![(id("v1"), 3 * NEAR_SCALE), (id("v2"), 5 * NEAR_SCALE)]);
    assert_eq!(anchor.locked_reward_token_amount, 1_000);

    let outcome = anchor.ft_transfer_call_callback(request.reward_distribution, 0, Some(700));
    assert_eq!(outcome, Ok(SettlementOutcome::PartlyAccepted));
    assert_eq!(anchor.locked_reward_token_amount, 300);
    assert_eq!(
        anchor.get_pending_rewards(),
        vec![RewardDistribution { validator_set_id: 0, amount: 300, timestamp: 77, distributed: false }]
    );

    let request = anchor.distribute_pending_rewards(100 * ONE_TERA).unwrap();
    assert_eq!(request.amount, 300);
    let outcome = anchor.ft_transfer_call_callback(request.reward_distribution, 0, Some(300));
    assert_eq!(outcome, Ok(SettlementOutcome::Settled));
    assert_eq!(anchor.locked_reward_token_amount, 0);
    assert_eq!(
        anchor.get_pending_rewards(),
        vec![RewardDistribution { validator_set_id: 0, amount: 300, timestamp: 77, distributed: true }]
    );
    assert_eq!(
        anchor.distribute_pending_rewards(100 * ONE_TERA).err(),
        Some(AnchorError::NoPendingReward)
    );
}

#[test]
fn a_settlement_may_change_nothing_or_be_refused() {
    let mut anchor = active();
    anchor.anchor_settings.era_reward = 1_000;
    anchor.locked_reward_token_amount = 1_000;
    anchor.distribute_reward(&id(RELAY), 0, 77).unwrap();
    let reward = *anchor.pending_rewards.get(&0).unwrap();
    assert_eq!(anchor.ft_transfer_call_callback(reward, 0, None), Ok(SettlementOutcome::TransferFailed));
    assert_eq!(
        anchor.ft_transfer_call_callback(reward, 0, Some(0)),
        Ok(SettlementOutcome::NothingAccepted)
    );
    assert_eq!(
        anchor.ft_transfer_call_callback(reward, 0, Some(1_001)),
        Err(AnchorError::AcceptedExceedsRequested)
    );
    assert_eq!(
        anchor.ft_transfer_call_callback(reward, 1, Some(1_000)),
        Err(AnchorError::InvalidRewardIndex)
    );
    anchor.locked_reward_token_amount = 699;
    assert_eq!(
        anchor.ft_transfer_call_callback(reward, 0, Some(700)),
        Err(AnchorError::InsufficientEscrow)
    );
    assert_eq!(anchor.locked_reward_token_amount, 699);
    assert_eq!(anchor.get_pending_rewards(), vec![reward]);
    assert_eq!(anchor.get_first_undistributed_reward(), Some((0, reward)));
    // a part accepted of a reward that is handed in as paid out leaves it open
    anchor.locked_reward_token_amount = 1_000;
    let marked = RewardDistribution { distributed: true, ..reward };
    assert_eq!(
        anchor.ft_transfer_call_callback(marked, 0, Some(400)),
        Ok(SettlementOutcome::PartlyAccepted)
    );
    assert_eq!(
        anchor.get_pending_rewards(),
        vec![RewardDistribution { validator_set_id: 0, amount: 600, timestamp: 77, distributed: false }]
    );
    assert_eq!(anchor.locked_reward_token_amount, 600);
}

#[test]
fn paying_out_needs_gas_escrow_and_the_set() {
    let mut anchor = active();
    anchor.anchor_settings.era_reward = 1_000;
    assert_eq!(
        anchor.distribute_pending_rewards(100 * ONE_TERA - 1).err(),
        Some(AnchorError::NotEnoughGas)
    );
    assert_eq!(
        anchor.distribute_pending_rewards(100 * ONE_TERA).err(),
        Some(AnchorError::NoPendingReward)
    );
    assert_eq!(anchor.distribute_reward(&id(TOKEN), 0, 1), Err(AnchorError::NotNearIbcContract));
    anchor.distribute_reward(&id(RELAY), 5, 1).unwrap();
    assert_eq!(
        anchor.distribute_pending_rewards(100 * ONE_TERA).err(),
        Some(AnchorError::InsufficientEscrow)
    );
    anchor.locked_reward_token_amount = 1_000;
    assert_eq!(
        anchor.distribute_pending_rewards(100 * ONE_TERA).err(),
        Some(AnchorError::NoValidatorSet)
    );
    assert_eq!(anchor.locked_reward_token_amount, 1_000);
    assert_eq!(anchor.pending_rewards.len(), 1);
}

#[test]
fn the_oldest_open_reward_goes_first() {
    let mut anchor = active();
    anchor.anchor_settings.era_reward = 10;
    anchor.locked_reward_token_amount = 100;
    for t in 0..3 {
        anchor.distribute_reward(&id(RELAY), 0, t).unwrap();
    }
    let first = *anchor.pending_rewards.get(&0).unwrap();
    anchor.ft_transfer_call_callback(first, 0, Some(10)).unwrap();
    let request = anchor.distribute_pending_rewards(100 * ONE_TERA).unwrap();
    assert_eq!(request.reward_distribution_index, 1);
    assert_eq!(request.reward_distribution.timestamp, 1);
    assert_eq!(anchor.locked_reward_token_amount, 90);
}

#[test]
fn paid_rewards_leave_the_front_of_the_queue() {
    let mut anchor = active();
    anchor.anchor_settings.era_reward = 10;
    anchor.locked_reward_token_amount = 100;
    for t in 0..5 {
        anchor.distribute_reward(&id(RELAY), 0, t).unwrap();
    }
    for i in 0..3 {
        let reward = *anchor.pending_rewards.get(&i).unwrap();
        anchor.ft_transfer_call_callback(reward, i, Some(10)).unwrap();
    }
    let mut meter = GasMeter::new(300 * ONE_TERA, 0, 1);
    assert_eq!(
        anchor.checked_clean_distributed_rewards(&id(RELAY), &mut meter),
        Err(AnchorError::NotOwner)
    );
    assert_eq!(anchor.checked_clean_distributed_rewards(&id(ACCOUNT), &mut meter), Ok(()));
    // the three that are paid out go; the two behind them stay
    assert_eq!(anchor.pending_rewards.index_range().start_index, 3);
    assert_eq!(anchor.pending_rewards.index_range().end_index, 4);
    assert_eq!(anchor.pending_rewards.len(), 2);
    assert_eq!(meter.used_gas(), 3);
    assert!(!anchor.pending_rewards.get_first().unwrap().distributed);
    assert_eq!(anchor.pending_rewards.get_first().unwrap().timestamp, 3);
    assert_eq!(anchor.pending_rewards.get_last().unwrap().timestamp, 4);
    assert_eq!(anchor.checked_clean_distributed_rewards(&id(ACCOUNT), &mut meter), Ok(()));
    assert_eq!(anchor.pending_rewards.len(), 2);
    assert_eq!(meter.used_gas(), 3);
}

#[test]
fn a_paid_reward_in_front_of_an_open_one_leaves() {
    let mut anchor = active();
    anchor.anchor_settings.era_reward = 10;
    anchor.locked_reward_token_amount = 100;
    for t in 0..2 {
        anchor.distribute_reward(&id(RELAY), 0, t).unwrap();
    }
    let reward = *anchor.pending_rewards.get(&0).unwrap();
    anchor.ft_transfer_call_callback(reward, 0, Some(10)).unwrap();
    let mut meter = GasMeter::new(300 * ONE_TERA, 0, 1);
    anchor.checked_clean_distributed_rewards(&id(ACCOUNT), &mut meter).unwrap();
    assert_eq!(anchor.pending_rewards.len(), 1);
    assert_eq!(anchor.pending_rewards.index_range().start_index, 1);
    assert_eq!(
        anchor.get_pending_rewards(),
        vec![RewardDistribution { validator_set_id: 0, amount: 10, timestamp: 1, distributed: false }]
    );
    let mut open_first = active();
    open_first.anchor_settings.era_reward = 10;
    open_first.locked_reward_token_amount = 100;
    for t in 0..2 {
        open_first.distribute_reward(&id(RELAY), 0, t).unwrap();
    }
    let reward = *open_first.pending_rewards.get(&1).unwrap();
    open_first.ft_transfer_call_callback(reward, 1, Some(10)).unwrap();
    open_first.checked_clean_distributed_rewards(&id(ACCOUNT), &mut meter).unwrap();
    assert_eq!(open_first.pending_rewards.len(), 2);
}

#[test]
fn the_last_reward_stays_in_the_queue() {
    let mut anchor = active();
    anchor.anchor_settings.era_reward = 10;
    anchor.locked_reward_token_amount = 100;
    for t in 0..3 {
        anchor.distribute_reward(&id(RELAY), 0, t).unwrap();
        let reward = *anchor.pending_rewards.get(&t).unwrap();
        anchor.ft_transfer_call_callback(reward, t, Some(10)).unwrap();
    }
    let mut meter = GasMeter::new(300 * ONE_TERA, 0, 1);
    anchor.checked_clean_distributed_rewards(&id(ACCOUNT), &mut meter).unwrap();
    assert_eq!(anchor.pending_rewards.len(), 1);
    assert_eq!(anchor.pending_rewards.index_range().start_index, 2);
}

#[test]
fn compaction_stops_when_the_gas_is_spent() {
    let mut anchor = active();
    anchor.anchor_settings.era_reward = 0;
    for t in 0..6 {
        anchor.distribute_reward(&id(RELAY), 0, t).unwrap();
        let reward = *anchor.pending_rewards.get(&t).unwrap();
        anchor.ft_transfer_call_callback(reward, t, Some(0)).unwrap();
    }
    let mut meter = GasMeter::new(300 * ONE_TERA, 168 * ONE_TERA, ONE_TERA);
    anchor.checked_clean_distributed_rewards(&id(ACCOUNT), &mut meter).unwrap();
    assert_eq!(meter.used_gas(), 170 * ONE_TERA);
    assert_eq!(anchor.pending_rewards.len(), 4);
    let mut meter = GasMeter::new(300 * ONE_TERA, 0, ONE_TERA);
    assert!(anchor.clear_pending_rewards(&id(ACCOUNT), &mut meter).unwrap().is_ok());
    assert_eq!(anchor.pending_rewards.len(), 0);
    assert_eq!(
        anchor.clear_pending_rewards(&id(RELAY), &mut meter).err(),
        Some(AnchorError::NotOwner)
    );
}

#[test]
fn a_matured_set_is_marked() {
    let mut anchor = active();
    assert_eq!(anchor.on_vsc_matured(&id(TOKEN), 0), Err(AnchorError::NotNearIbcContract));
    assert!(!anchor.validator_set_histories.get(&0).unwrap().matured_in_appchain());
    assert_eq!(anchor.on_vsc_matured(&id(RELAY), 0), Ok(()));
    assert!(anchor.validator_set_histories.get(&0).unwrap().matured_in_appchain());
    assert_eq!(anchor.on_vsc_matured(&id(RELAY), 0), Ok(()));
    assert!(anchor.validator_set_histories.get(&0).unwrap().matured_in_appchain());
    assert_eq!(anchor.on_vsc_matured(&id(RELAY), 5), Ok(()));
    assert_eq!(anchor.validator_set_histories.len(), 1);
    assert_eq!(anchor.get_latest_validator_set().unwrap().matured_on_appchain, true);
}

#[test]
fn slash_packets_queue_up() {
    let mut anchor = active();
    let address = calculate_address(&key_of(1));
    assert_eq!(
        anchor.slash_validator(&id(TOKEN), downtime(address.clone(), 0), 5),
        Err(AnchorError::NotNearIbcContract)
    );
    assert_eq!(anchor.slash_validator(&id(RELAY), downtime(address.clone(), 0), 5), Ok(0));
    assert_eq!(anchor.slash_validator(&id(RELAY), downtime(address.clone(), 0), 6), Ok(1));
    let packets = anchor.get_pending_slash_packets();
    assert_eq!(packets.len(), 2);
    assert_eq!(packets[0].received_timestamp, 5);
    assert_eq!(packets[1].received_timestamp, 6);
    assert_eq!(packets[0].infraction, "INFRACTION_DOWNTIME");
    assert_eq!(packets[0].validator.as_ref().unwrap().address, address);
    let copy = packets[0].duplicate();
    assert_eq!(copy.valset_update_id, 0);
    assert_eq!(copy.validator.unwrap().power, 3);
}

#[test]
fn downtime_jails_and_tells_the_appchain() {
    let mut anchor = active();
    let address = calculate_address(&key_of(1));
    anchor.slash_validator(&id(RELAY), downtime(address.clone(), 0), 5).unwrap();
    let mut meter = GasMeter::new(300 * ONE_TERA, 0, 1);
    let outcome = anchor.process_first_pending_slash_packet(2_000, &mut meter).unwrap().unwrap();
    let request = match outcome {
        SlashOutcome::Jailed(request) => request,
        other => panic!("unexpected outcome {:?}", other),
    };
    assert_eq!(latest_status(&anchor, "v1"), ValidatorStatus::Jailed);
    assert_eq!(latest_status(&anchor, "v2"), ValidatorStatus::Active);
    assert_eq!(
        anchor.validator_set_histories.get_last().unwrap().jailed_validators(),
        vec![(id("v1"), 2_000, 0)]
    );
    assert_eq!(powers(&request), vec![(key_of(2), 5), (key_of(1), 0)]);
    let ack = appchain_anchor_ibc::codec::calculate_bech32_address(id("ottovalcons"), address).unwrap();
    assert_eq!(request.vsc_packet_data.slash_acks, vec![ack]);
    assert_eq!(anchor.pending_slash_packets.len(), 0);
    assert_eq!(meter.used_gas(), 1);
    assert!(anchor.process_first_pending_slash_packet(2_000, &mut meter).unwrap().is_none());
    assert_eq!(meter.used_gas(), 1);
}

#[test]
fn stale_evidence_is_set_aside() {
    let mut anchor = active();
    for i in 1..=8u64 {
        anchor
            .get_validator_set_callback(report(&[("v1", 3 * NEAR_SCALE), ("v2", 5 * NEAR_SCALE)], i), i)
            .unwrap();
    }
    assert_eq!(anchor.validator_set_histories.get_last().unwrap().id(), 8);
    let address = calculate_address(&key_of(1));
    let outcome = anchor.internal_process_slash_packet(&evidence(address.clone(), 5, "INFRACTION_DOWNTIME"), 9);
    assert!(matches!(outcome, Ok(SlashOutcome::Stale)));
    assert_eq!(latest_status(&anchor, "v1"), ValidatorStatus::Active);
    assert!(anchor.validator_set_histories.get_last().unwrap().jailed_validators().is_empty());
    let outcome = anchor.internal_process_slash_packet(&evidence(address.clone(), 6, "INFRACTION_DOUBLE_SIGN"), 9);
    assert!(matches!(outcome, Ok(SlashOutcome::Stale)));
    let outcome = anchor.internal_process_slash_packet(&evidence(address, 7, "INFRACTION_DOWNTIME"), 9);
    assert!(matches!(outcome, Ok(SlashOutcome::Jailed(_))));
    assert_eq!(latest_status(&anchor, "v1"), ValidatorStatus::Jailed);
}

#[test]
fn stale_packets_leave_the_queue() {
    let mut anchor = active();
    for i in 1..=8u64 {
        anchor
            .get_validator_set_callback(report(&[("v1", 3 * NEAR_SCALE), ("v2", 5 * NEAR_SCALE)], i), i)
            .unwrap();
    }
    anchor.slash_validator(&id(RELAY), downtime(calculate_address(&key_of(1)), 5), 5).unwrap();
    let mut meter = GasMeter::new(300 * ONE_TERA, 0, 1);
    let outcome = anchor.process_first_pending_slash_packet(9, &mut meter);
    assert!(matches!(outcome, Ok(Some(SlashOutcome::Stale))));
    assert_eq!(anchor.pending_slash_packets.len(), 0);
    assert_eq!(latest_status(&anchor, "v1"), ValidatorStatus::Active);
}

#[test]
fn evidence_that_cannot_be_resolved_is_refused() {
    let mut anchor = active();
    let address = calculate_address(&key_of(1));
    let mut empty = evidence(address.clone(), 0, "INFRACTION_DOWNTIME");
    empty.validator = None;
    assert_eq!(
        anchor.internal_process_slash_packet(&empty, 1).err(),
        Some(AnchorError::EmptySlashPacket)
    );
    assert_eq!(
        anchor.internal_process_slash_packet(&evidence(vec![1, 2, 3], 0, "INFRACTION_DOWNTIME"), 1).err(),
        Some(AnchorError::AddressNotRegistered)
    );
    assert_eq!(
        anchor.internal_process_slash_packet(&evidence(address.clone(), 0, "INFRACTION_DOUBLE_SIGN"), 1).err(),
        Some(AnchorError::DoubleSignNotSupported)
    );
    assert!(matches!(
        anchor.internal_process_slash_packet(&evidence(address.clone(), 0, "INFRACTION_OTHER"), 1),
        Ok(SlashOutcome::Ignored)
    ));
    anchor.anchor_settings.appchain_address_bech32_hrp = id("Mixed");
    assert_eq!(
        anchor.internal_process_slash_packet(&evidence(address.clone(), 0, "INFRACTION_DOWNTIME"), 1).err(),
        Some(AnchorError::InvalidAddressPrefix)
    );
    anchor.anchor_settings.appchain_address_bech32_hrp = id("ottovalcons");
    anchor.appchain_state = AppchainState::Closing;
    assert_eq!(
        anchor.internal_process_slash_packet(&evidence(address.clone(), 0, "INFRACTION_DOWNTIME"), 1).err(),
        Some(AnchorError::AppchainNotActive)
    );
    assert_eq!(latest_status(&anchor, "v1"), ValidatorStatus::Active);
    let mut without_set = fresh();
    assert_eq!(
        without_set.internal_process_slash_packet(&evidence(address, 0, "INFRACTION_DOWNTIME"), 1).err(),
        Some(AnchorError::NoValidatorSet)
    );
}

#[test]
fn a_refused_packet_stays_in_the_queue() {
    let mut anchor = active();
    anchor.slash_validator(&id(RELAY), downtime(vec![9, 9], 0), 5).unwrap();
    let mut meter = GasMeter::new(300 * ONE_TERA, 0, 1);
    assert_eq!(
        anchor.process_first_pending_slash_packet(6, &mut meter).err(),
        Some(AnchorError::AddressNotRegistered)
    );
    assert_eq!(anchor.pending_slash_packets.len(), 1);
    assert_eq!(meter.used_gas(), 0);
    assert_eq!(
        anchor.remove_first_pending_slash_packets(&id(RELAY), &mut meter),
        Err(AnchorError::NotOwner)
    );
    assert_eq!(anchor.remove_first_pending_slash_packets(&id(ACCOUNT), &mut meter), Ok(()));
    assert_eq!(anchor.pending_slash_packets.len(), 0);
    assert_eq!(
        anchor.remove_first_pending_slash_packets(&id(ACCOUNT), &mut meter),
        Err(AnchorError::NoPendingSlashPacket)
    );
}

#[test]
fn jailing_a_jailed_validator_fails_in_the_anchor_too() {
    let mut anchor = active();
    assert_eq!(anchor.force_jail_validator(&id(RELAY), id("v1"), 10), Err(AnchorError::NotOwner));
    assert_eq!(
        anchor.force_jail_validator(&id(ACCOUNT), id("vx"), 10),
        Err(AnchorError::ValidatorNotInLatestSet)
    );
    assert_eq!(anchor.force_jail_validator(&id(ACCOUNT), id("v1"), 10), Ok(()));
    assert_eq!(
        anchor.force_jail_validator(&id(ACCOUNT), id("v1"), 20),
        Err(AnchorError::ValidatorSet(ValidatorSetError::InvalidState))
    );
    assert_eq!(latest_status(&anchor, "v1"), ValidatorStatus::Jailed);
    assert_eq!(
        anchor.validator_set_histories.get_last().unwrap().jailed_validators(),
        vec![(id("v1"), 10, 0)]
    );
    assert_eq!(
        fresh().force_jail_validator(&id(ACCOUNT), id("v1"), 10),
        Err(AnchorError::NoValidatorSet)
    );
}

#[test]
fn unjailing_in_the_anchor() {
    let mut anchor = active();
    anchor.anchor_settings.min_unjail_interval = 600;
    anchor.force_jail_validator(&id(ACCOUNT), id("v1"), 1_000).unwrap();
    assert_eq!(
        anchor.unjail_validator(id("v1"), 1_599).err(),
        Some(AnchorError::ValidatorSet(ValidatorSetError::JailedTooShort))
    );
    assert_eq!(
        anchor.unjail_validator(id("v2"), 1_600).err(),
        Some(AnchorError::ValidatorSet(ValidatorSetError::InvalidState))
    );
    assert_eq!(
        anchor.unjail_validator(id("vx"), 1_600).err(),
        Some(AnchorError::ValidatorNotInLatestSet)
    );
    anchor.appchain_state = AppchainState::Booting;
    assert_eq!(anchor.unjail_validator(id("v1"), 1_600).err(), Some(AnchorError::AppchainNotActive));
    assert_eq!(latest_status(&anchor, "v1"), ValidatorStatus::Jailed);
    anchor.appchain_state = AppchainState::Active;
    let request = anchor.unjail_validator(id("v1"), 1_600).unwrap();
    assert_eq!(latest_status(&anchor, "v1"), ValidatorStatus::Active);
    assert_eq!(powers(&request), vec![(key_of(1), 3), (key_of(2), 5)]);
    assert!(request.vsc_packet_data.slash_acks.is_empty());
    assert_eq!(
        anchor.validator_set_histories.get_last().unwrap().jailed_validators(),
        vec![(id("v1"), 1_000, 1_600)]
    );
    assert_eq!(fresh().unjail_validator(id("v1"), 0).err(), Some(AnchorError::NoValidatorSet));
}

#[test]
fn the_answer_to_a_slash_request() {
    let mut anchor = active();
    assert_eq!(anchor.slash_request_callback(vec![(id("v1"), 5)], None), Ok(()));
    assert_eq!(latest_status(&anchor, "v1"), ValidatorStatus::Active);
    assert_eq!(anchor.slash_request_callback(vec![], Some(3)), Err(AnchorError::InvalidValue));
    assert_eq!(anchor.slash_request_callback(vec![(id("v1"), 5), (id("v2"), 5)], Some(3)), Ok(()));
    assert_eq!(latest_status(&anchor, "v1"), ValidatorStatus::WaitForSlash(3));
    assert_eq!(latest_status(&anchor, "v2"), ValidatorStatus::Active);
    assert_eq!(
        fresh().slash_request_callback(vec![(id("v1"), 5)], Some(3)),
        Err(AnchorError::NoValidatorSet)
    );
}

#[test]
fn the_oldest_set_is_removed_in_steps() {
    let mut anchor = active();
    for i in 1..4u64 {
        anchor
            .get_validator_set_callback(report(&[("v1", 3 * NEAR_SCALE), ("v2", 5 * NEAR_SCALE)], i), i)
            .unwrap();
    }
    anchor.anchor_settings.min_length_of_validator_set_history = 2;
    let mut meter = GasMeter::new(300 * ONE_TERA, 169 * ONE_TERA, ONE_TERA);
    assert_eq!(
        anchor.remove_oldest_validator_set(&id(RELAY), &mut meter).err(),
        Some(AnchorError::NotOwner)
    );
    // the removal burns 1, the first validator another 1: 171 is above the limit
    let (era, result) = anchor.remove_oldest_validator_set(&id(ACCOUNT), &mut meter).unwrap();
    assert_eq!(era, 0);
    assert!(result.is_need_more_gas());
    assert_eq!(anchor.validator_set_histories.len(), 4);
    assert_eq!(anchor.validator_set_histories.get_first().unwrap().validator_count(), 1);
    let (_, result) = anchor.remove_oldest_validator_set(&id(ACCOUNT), &mut meter).unwrap();
    assert!(result.is_need_more_gas());
    assert_eq!(meter.used_gas(), 171 * ONE_TERA);
    let mut meter = GasMeter::new(300 * ONE_TERA, 0, ONE_TERA);
    let (era, result) = anchor.remove_oldest_validator_set(&id(ACCOUNT), &mut meter).unwrap();
    assert_eq!(era, 0);
    assert!(result.is_ok());
    assert_eq!(anchor.validator_set_histories.len(), 3);
    let (era, result) = anchor.remove_oldest_validator_set(&id(ACCOUNT), &mut meter).unwrap();
    assert_eq!(era, 1);
    assert!(result.is_ok());
    assert_eq!(anchor.validator_set_histories.len(), 2);
    assert_eq!(
        anchor.remove_oldest_validator_set(&id(ACCOUNT), &mut meter).err(),
        Some(AnchorError::HistoryTooShort)
    );
    assert_eq!(anchor.validator_set_histories.index_range().start_index, 2);
    assert_eq!(anchor.validator_set_histories.get_first().unwrap().id(), 2);
}

#[test]
fn going_live() {
    let mut anchor = fresh();
    assert_eq!(anchor.go_live(&id(RELAY)).err(), Some(AnchorError::NotOwner));
    assert_eq!(anchor.go_live(&id(ACCOUNT)).err(), Some(AnchorError::NoValidatorSet));
    let mut anchor = active();
    assert_eq!(anchor.go_live(&id(ACCOUNT)).err(), Some(AnchorError::AppchainNotBooting));
    anchor.appchain_state = AppchainState::Booting;
    assert_eq!(anchor.go_live(&id(ACCOUNT)).err(), Some(AnchorError::MissingSettings));
    anchor.anchor_settings.era_reward = 1;
    anchor.appchain_id = id("ot to");
    assert_eq!(anchor.go_live(&id(ACCOUNT)).err(), Some(AnchorError::InvalidChainId));
    assert_eq!(anchor.get_appchain_state(), AppchainState::Booting);
    anchor.appchain_id = id("otto");
    let (sync, packet) = anchor.go_live(&id(ACCOUNT)).unwrap();
    assert_eq!(anchor.get_appchain_state(), AppchainState::Active);
    let sync = sync.unwrap();
    assert_eq!(sync.appchain_registry, "registry.near");
    assert_eq!(sync.appchain_id, "otto");
    assert_eq!(sync.appchain_state, AppchainState::Active);
    assert_eq!(sync.validator_count, 2);
    assert_eq!(sync.total_stake, 8 * NEAR_SCALE);
    assert_eq!(powers(&packet.unwrap()), vec![(key_of(1), 3), (key_of(2), 5)]);
    assert!(fresh().sync_state_to_registry().unwrap().is_none());
}

#[test]
fn the_client_starts_from_the_first_set() {
    let mut anchor = active();
    anchor.appchain_state = AppchainState::Booting;
    let owner = id(ACCOUNT);
    assert_eq!(
        anchor.create_client_for_appchain(&id(RELAY), 10, 20, 5, vec![], 0).err(),
        Some(AnchorError::NotOwner)
    );
    assert_eq!(
        anchor.create_client_for_appchain(&owner, 20, 20, 5, vec![], 0).err(),
        Some(AnchorError::InvalidPeriods)
    );
    assert_eq!(
        anchor.create_client_for_appchain(&owner, 10, 20, 0, vec![], 0).err(),
        Some(AnchorError::InvalidPeriods)
    );
    assert_eq!(
        anchor.create_client_for_appchain(&owner, 10, 20, 10, vec![], 0).err(),
        Some(AnchorError::InvalidPeriods)
    );
    let request = anchor
        .create_client_for_appchain(&owner, 10, 20, 5, vec![id("upgrade")], 7_000_000_123)
        .unwrap();
    assert_eq!(request.near_ibc_contract, RELAY);
    assert_eq!(request.chain_id, "otto-0");
    assert_eq!(request.trusting_period, 10);
    assert_eq!(request.unbonding_period, 20);
    assert_eq!(request.max_clock_drift, 5);
    assert_eq!(request.upgrade_path, vec![id("upgrade")]);
    assert_eq!(request.consensus_state.timestamp_seconds, 7);
    assert_eq!(request.consensus_state.timestamp_nanos, 123);
    assert_eq!(request.consensus_state.root, b"sentinel_root".to_vec());
    // a validator update: the key as a message in field 1, the power in field 2
    let update = |key: u8, power: u8| -> Vec<u8> {
        let mut bytes = vec![0x0a, 34, 0x0a, 32];
        bytes.extend(key_of(key));
        bytes.extend([0x10, power]);
        bytes
    };
    assert_eq!(
        request.consensus_state.next_validators_hash,
        merkle_hash(&vec![update(1, 3), update(2, 5)])
    );
    anchor.appchain_state = AppchainState::Active;
    assert_eq!(
        anchor.create_client_for_appchain(&owner, 10, 20, 5, vec![], 0).err(),
        Some(AnchorError::AppchainNotBooting)
    );
    assert_eq!(
        fresh().create_client_for_appchain(&owner, 10, 20, 5, vec![], 0).err(),
        Some(AnchorError::NoValidatorSet)
    );
}

#[test]
fn a_set_is_shown_with_keys_and_addresses() {
    let mut anchor = active();
    anchor
        .get_validator_set_callback(report(&[("v1", 3 * NEAR_SCALE), ("v9", NEAR_SCALE / 2)], 2), 2_000)
        .unwrap();
    anchor.force_jail_validator(&id(ACCOUNT), id("v1"), 3_000).unwrap();
    let view = anchor.get_validator_set(1).unwrap();
    assert_eq!(view.id, 1);
    assert_eq!(view.sequence, 2);
    assert_eq!(view.timestamp, 2_000);
    assert_eq!(view.total_stake, 3 * NEAR_SCALE + NEAR_SCALE / 2);
    assert!(!view.matured_on_appchain);
    assert_eq!(view.jailed_validators, vec![(id("v1"), 3_000, 0)]);
    assert_eq!(view.validators.len(), 2);
    assert_eq!(view.validators[0].validator_id, "v1");
    assert_eq!(view.validators[0].voting_power, 3);
    assert_eq!(view.validators[0].status, ValidatorStatus::Jailed);
    assert_eq!(view.validators[0].registered_pubkey, key_text(1));
    assert_eq!(
        view.validators[0].address_in_appchain,
        appchain_anchor_ibc::codec::calculate_bech32_address(
            id("ottovalcons"),
            calculate_address(&key_of(1))
        )
        .unwrap()
    );
    assert_eq!(view.validators[1].validator_id, "v9");
    assert_eq!(view.validators[1].voting_power, 0);
    assert_eq!(view.validators[1].status, ValidatorStatus::Unqualified);
    assert_eq!(view.validators[1].registered_pubkey, "");
    assert_eq!(view.validators[1].address_in_appchain, "");
    assert!(anchor.get_validator_set(2).is_none());
    assert_eq!(anchor.get_latest_validator_set().unwrap().id, 1);
    assert!(fresh().get_latest_validator_set().is_none());
}

#[test]
fn old_records_are_brought_up_to_date() {
    let old = OldValidatorSet {
        id: 4,
        validators: vec![Validator {
            validator_id: id("v1"),
            total_stake: 9,
            status: ValidatorStatus::Slashed,
        }],
        total_stake: 9,
        sequence: 2,
        timestamp: 3,
        matured_in_appchain: true,
    };
    let set = ValidatorSet::from_old_version(old);
    assert_eq!(set.id(), 4);
    assert_eq!(set.total_stake(), 9);
    assert_eq!(set.sequence(), 2);
    assert_eq!(set.timestamp(), 3);
    assert!(set.matured_in_appchain());
    assert!(set.jailed_validators().is_empty());
    assert_eq!(set.get_validator_ids(), vec![id("v1")]);
    let reward = RewardDistribution::from_old_version(OldRewardDistribution {
        validator_set_id: 1,
        amount: 2,
        timestamp: 3,
    });
    assert_eq!(
        reward,
        RewardDistribution { validator_set_id: 1, amount: 2, timestamp: 3, distributed: false }
    );
    let settings = AnchorSettings::from_old_version(OldAnchorSettings {
        chain_revision_number: 1,
        era_reward: 2,
        max_count_of_validators: 3,
        min_length_of_validator_set_history: 4,
        min_interval_for_new_validator_set: 5,
        vsc_packet_timeout_interval: 6,
        min_validator_staking_amount: 7,
    });
    assert_eq!(settings.chain_revision_number, 1);
    assert_eq!(settings.era_reward, 2);
    assert_eq!(settings.max_count_of_validators, 3);
    assert_eq!(settings.min_length_of_validator_set_history, 4);
    assert_eq!(settings.min_interval_for_new_validator_set, 5);
    assert_eq!(settings.vsc_packet_timeout_interval, 6);
    assert_eq!(settings.min_validator_staking_amount, 7);
    assert_eq!(settings.min_unjail_interval, 600_000_000_000);
    assert_eq!(settings.appchain_address_bech32_hrp, "ottovalcons");
    assert_eq!(settings.duplicate().era_reward, 2);
}

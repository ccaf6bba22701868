use appchain_anchor_ibc::gas::GasMeter;
use appchain_anchor_ibc::lookup_array::{IndexedAndClearable, LookupArray, LookupArrayError};
use appchain_anchor_ibc::types::{ProcessingResult, RewardDistribution, StorageKey};
use appchain_anchor_ibc::validator_set::{
    RestakingBaseValidatorSet, ValidatorSet, ValidatorSetViewer,
};

const ONE_TERA: u64 = 1_000_000_000_000;

fn reward(validator_set_id: u64, amount: u128) -> RewardDistribution {
    RewardDistribution { validator_set_id, amount, timestamp: 0, distributed: false }
}

fn rewards(n: u64) -> LookupArray<RewardDistribution> {
    let mut array = LookupArray::<RewardDistribution>::new(StorageKey::PendingRewards);
    for i in 0..n {
        array.append(reward(i, 100 + i as u128));
    }
    array
}

fn validator_set(n: usize) -> ValidatorSet {
    let report = RestakingBaseValidatorSet {
        validator_set: (0..n).map(|i| (format!("v{}.near", i), 100u128)).collect(),
        sequence: 1,
    };
    ValidatorSet::new(None, &report, 10, 0).unwrap()
}

#[test]
fn test_lookup_array() {
    let max_gas = 10 * ONE_TERA;
    let mut meter = GasMeter::new(300 * ONE_TERA, 0, 1);
    let mut lookup_array = LookupArray::<RewardDistribution>::new(StorageKey::PendingRewards);
    // two elements, removed one by one
    lookup_array.append(reward(0, 100));
    lookup_array.append(reward(1, 101));
    assert_eq!(lookup_array.len(), 2);
    assert_eq!(lookup_array.index_range().start_index, 0);
    assert_eq!(lookup_array.index_range().end_index, 1);
    assert_eq!(lookup_array.get_first().unwrap().validator_set_id, 0);
    lookup_array.remove_first(&mut meter, max_gas);
    assert_eq!(lookup_array.len(), 1);
    assert_eq!(lookup_array.index_range().start_index, 1);
    assert_eq!(lookup_array.index_range().end_index, 1);
    lookup_array.remove_first(&mut meter, max_gas);
    assert_eq!(lookup_array.len(), 0);
    assert_eq!(lookup_array.index_range().start_index, 0);
    assert_eq!(lookup_array.index_range().end_index, 0);
    // three elements, removed at once
    lookup_array.append(reward(0, 100));
    lookup_array.append(reward(1, 101));
    lookup_array.append(reward(2, 102));
    assert_eq!(lookup_array.len(), 3);
    assert_eq!(lookup_array.index_range().start_index, 0);
    assert_eq!(lookup_array.index_range().end_index, 2);
    assert_eq!(lookup_array.get_first().unwrap().validator_set_id, 0);
    assert_eq!(lookup_array.get_latest().unwrap().validator_set_id, 2);
    lookup_array.clear(&mut meter, max_gas);
    assert_eq!(lookup_array.len(), 0);
    assert_eq!(lookup_array.index_range().start_index, 0);
    assert_eq!(lookup_array.index_range().end_index, 0);
    lookup_array.remove_first(&mut meter, max_gas);
    assert_eq!(lookup_array.len(), 0);
    assert_eq!(lookup_array.index_range().start_index, 0);
    assert_eq!(lookup_array.index_range().end_index, 0);
}

#[test]
fn append_assigns_consecutive_indices() {
    let mut array = LookupArray::<RewardDistribution>::new(StorageKey::PendingRewards);
    assert_eq!(array.append(reward(7, 1)), 0);
    assert_eq!(array.append(reward(8, 2)), 1);
    assert_eq!(array.append(reward(9, 3)), 2);
    assert_eq!(array.get(&1).unwrap().validator_set_id, 8);
    assert!(array.get(&3).is_none());
    assert!(array.contains(&2));
    assert!(!array.contains(&3));
}

#[test]
fn length_after_appends_and_front_removals() {
    let mut meter = GasMeter::new(0, 0, 1);
    let mut array = rewards(5);
    for expected in [4u64, 3, 2] {
        assert!(array.remove_first(&mut meter, u64::MAX).is_ok());
        assert_eq!(array.len(), expected);
    }
    assert_eq!(array.index_range().start_index, 3);
    assert_eq!(array.index_range().end_index, 4);
    array.append(reward(5, 0));
    assert_eq!(array.len(), 3);
    assert_eq!(array.index_range().end_index, 5);
}

#[test]
fn emptying_resets_the_bounds() {
    let mut meter = GasMeter::new(0, 0, 1);
    let mut array = rewards(3);
    for _ in 0..3 {
        array.remove_first(&mut meter, u64::MAX);
    }
    assert_eq!(array.len(), 0);
    assert_eq!(array.index_range().start_index, 0);
    assert_eq!(array.index_range().end_index, 0);
    assert_eq!(array.append(reward(0, 0)), 0);
}

#[test]
fn every_removal_burns_one_step() {
    let mut meter = GasMeter::new(100, 5, 7);
    let mut array = rewards(2);
    array.remove_first(&mut meter, u64::MAX);
    assert_eq!(meter.used_gas(), 12);
    assert_eq!(meter.prepaid_gas(), 100);
    assert_eq!(meter.remaining_gas(), 88);
    array.remove_at(&9, &mut meter, u64::MAX);
    assert_eq!(meter.used_gas(), 19);
    assert_eq!(array.len(), 1);
}

#[test]
fn the_meter_saturates() {
    let mut meter = GasMeter::new(0, u64::MAX - 1, 5);
    meter.burn();
    assert_eq!(meter.used_gas(), u64::MAX);
    assert_eq!(meter.remaining_gas(), 0);
}

#[test]
fn update_replaces_an_element() {
    let mut array = rewards(3);
    assert_eq!(array.update(&1, reward(42, 7)), Ok(()));
    assert_eq!(*array.get(&1).unwrap(), reward(42, 7));
    assert_eq!(array.update(&3, reward(1, 1)), Err(LookupArrayError::InvalidIndex));
    assert!(array.get(&3).is_none());
    array.update_last(reward(43, 8));
    assert_eq!(*array.get_last().unwrap(), reward(43, 8));
    assert_eq!(array.len(), 3);
}

#[test]
fn neighbours_of_the_ends() {
    let array = rewards(3);
    assert_eq!(array.get_second().unwrap().validator_set_id, 1);
    assert_eq!(array.get_second_last().unwrap().validator_set_id, 1);
    assert_eq!(array.get_last().unwrap().validator_set_id, 2);
    let single = rewards(1);
    assert!(single.get_second().is_none());
    assert!(single.get_second_last().is_none());
    let empty = rewards(0);
    assert!(empty.get_first().is_none());
    assert!(empty.get_last().is_none());
}

#[test]
fn slices_are_capped_at_fifty() {
    let array = rewards(120);
    let ids = |v: Vec<&RewardDistribution>| -> Vec<u64> {
        v.iter().map(|r| r.validator_set_id).collect()
    };
    assert_eq!(ids(array.get_slice_of(&10, Some(3))), vec![10, 11, 12]);
    assert_eq!(array.get_slice_of(&0, None).len(), 50);
    assert_eq!(array.get_slice_of(&0, Some(51)).len(), 50);
    assert_eq!(array.get_slice_of(&0, Some(50)).len(), 50);
    assert_eq!(ids(array.get_slice_of(&118, Some(10))), vec![118, 119]);
    assert_eq!(array.get_slice_of(&0, Some(0)).len(), 0);
    assert_eq!(array.get_slice_of(&500, None).len(), 0);
    assert_eq!(array.get_slice_of(&u64::MAX, None).len(), 0);
}

#[test]
fn a_slice_starts_at_the_first_element() {
    let mut meter = GasMeter::new(0, 0, 1);
    let mut array = rewards(10);
    array.remove_before(&4, &mut meter, u64::MAX);
    let slice = array.get_slice_of(&0, Some(2));
    assert_eq!(slice.len(), 2);
    assert_eq!(slice[0].validator_set_id, 4);
    assert_eq!(slice[1].validator_set_id, 5);
}

#[test]
fn to_vec_lists_in_index_order() {
    let array = rewards(4);
    let all: Vec<u128> = array.to_vec().iter().map(|r| r.amount).collect();
    assert_eq!(all, vec![100, 101, 102, 103]);
    assert_eq!(rewards(0).to_vec().len(), 0);
}

#[test]
fn remove_before_moves_the_start() {
    let mut meter = GasMeter::new(0, 0, 1);
    let mut array = rewards(6);
    assert!(array.remove_before(&3, &mut meter, u64::MAX).is_ok());
    assert_eq!(array.index_range().start_index, 3);
    assert_eq!(array.len(), 3);
    assert_eq!(meter.used_gas(), 3);
    assert!(array.remove_before(&2, &mut meter, u64::MAX).is_ok());
    assert_eq!(array.index_range().start_index, 3);
    assert_eq!(meter.used_gas(), 3);
}

#[test]
fn reset_to_cuts_the_end() {
    let mut meter = GasMeter::new(0, 0, 1);
    let mut array = rewards(6);
    assert!(array.reset_to(&2, &mut meter, u64::MAX).unwrap().is_ok());
    assert_eq!(meter.used_gas(), 3);
    assert_eq!(array.reset_to(&6, &mut meter, u64::MAX).err(), Some(LookupArrayError::InvalidIndex));
    assert_eq!(array.index_range().start_index, 0);
    assert_eq!(array.index_range().end_index, 2);
    assert_eq!(array.len(), 3);
    assert!(!array.contains(&3));
    assert!(!array.contains(&5));
    assert_eq!(array.append(reward(0, 0)), 3);
}

#[test]
fn removing_in_the_middle_leaves_a_gap() {
    let mut meter = GasMeter::new(0, 0, 1);
    let mut array = rewards(4);
    assert!(array.remove_at(&2, &mut meter, u64::MAX).is_ok());
    assert_eq!(array.index_range().start_index, 0);
    assert_eq!(array.index_range().end_index, 3);
    assert_eq!(array.len(), 4);
    assert_eq!(array.to_vec().len(), 3);
    assert!(array.get(&2).is_none());
}

#[test]
fn migrate_from_takes_the_bounds() {
    let mut array = LookupArray::<RewardDistribution>::migrate_from(StorageKey::PendingRewards, 3, 5);
    assert_eq!(array.index_range().start_index, 3);
    assert_eq!(array.index_range().end_index, 5);
    assert_eq!(array.len(), 3);
    assert_eq!(array.to_vec().len(), 0);
    array.update(&4, reward(4, 4)).unwrap();
    assert_eq!(array.get(&4).unwrap().amount, 4);
    assert_eq!(array.append(reward(6, 6)), 6);
}

#[test]
fn clear_pauses_when_the_budget_is_spent() {
    let mut meter = GasMeter::new(0, 0, 10);
    let mut array = rewards(5);
    let result = array.clear(&mut meter, 25);
    assert!(result.is_need_more_gas());
    assert_eq!(meter.used_gas(), 30);
    assert_eq!(array.index_range().start_index, 3);
    assert_eq!(array.len(), 2);
    let result = array.clear(&mut meter, 1_000);
    assert!(result.is_ok());
    assert_eq!(array.len(), 0);
    assert_eq!(array.index_range().start_index, 0);
    assert_eq!(array.index_range().end_index, 0);
}

#[test]
fn a_set_is_torn_down_in_steps() {
    let mut meter = GasMeter::new(0, 0, 10);
    let mut history = LookupArray::<ValidatorSet>::new(StorageKey::ValidatorSetHistories);
    history.append(validator_set(5));
    history.append(validator_set(1));
    // one step for the removal, then one for each validator: 10, 20, 30, 40 > 35
    let result = history.remove_first(&mut meter, 35);
    assert!(result.is_need_more_gas());
    assert_eq!(meter.used_gas(), 40);
    assert_eq!(history.len(), 2);
    assert_eq!(history.index_range().start_index, 0);
    let first = history.get_first().unwrap();
    assert_eq!(first.validator_count(), 2);
    assert_eq!(first.get_validator_ids(), vec!["v3.near".to_string(), "v4.near".to_string()]);
    assert_eq!(first.total_stake(), 500);
    let result = history.remove_first(&mut meter, 1_000);
    assert!(result.is_ok());
    assert_eq!(meter.used_gas(), 70);
    assert_eq!(history.len(), 1);
    assert_eq!(history.index_range().start_index, 1);
}

#[test]
fn clearing_a_set_within_the_budget() {
    let mut meter = GasMeter::new(0, 0, 1);
    let mut set = validator_set(3);
    let result = set.clear(&mut meter, 3);
    assert!(result.is_ok());
    assert_eq!(meter.used_gas(), 3);
    assert_eq!(set.validator_count(), 0);
    assert_eq!(set.total_stake(), 0);
    let result = set.clear_extra_storage(&mut meter, 0);
    assert!(result.is_ok());
    assert_eq!(meter.used_gas(), 3);
}

#[test]
fn the_last_step_may_exceed_the_budget() {
    let mut meter = GasMeter::new(0, 0, 2);
    let mut set = validator_set(2);
    let result = set.clear(&mut meter, 3);
    assert!(result.is_need_more_gas());
    assert_eq!(set.validator_count(), 0);
    assert_eq!(set.total_stake(), 200);
    assert!(set.clear(&mut meter, 3).is_ok());
    assert_eq!(set.total_stake(), 0);
}

#[test]
fn processing_results_tell_themselves_apart() {
    assert!(ProcessingResult::Done.is_ok());
    assert!(!ProcessingResult::Done.is_need_more_gas());
    assert!(!ProcessingResult::Done.is_error());
    assert!(ProcessingResult::NeedMoreGas.is_need_more_gas());
    assert!(!ProcessingResult::NeedMoreGas.is_ok());
    assert!(ProcessingResult::Error("e".to_string()).is_error());
    assert!(!ProcessingResult::Error("e".to_string()).is_ok());
}

#[test]
fn a_reward_and_a_text_need_no_teardown() {
    let mut meter = GasMeter::new(0, 0, 1);
    let mut r = reward(1, 2);
    r.set_index(&5);
    assert_eq!(r, reward(1, 2));
    assert!(r.clear_extra_storage(&mut meter, 0).is_ok());
    let mut text = "packet".to_string();
    text.set_index(&5);
    assert!(text.clear_extra_storage(&mut meter, 0).is_ok());
    assert_eq!(text, "packet");
    assert_eq!(meter.used_gas(), 0);
}

#[test]
fn walks_pause_when_the_budget_is_spent() {
    let mut meter = GasMeter::new(0, 0, 10);
    let mut array = rewards(6);
    assert!(array.remove_before(&4, &mut meter, 15).is_need_more_gas());
    assert_eq!(array.index_range().start_index, 2);
    assert_eq!(meter.used_gas(), 20);
    assert!(array.remove_before(&4, &mut meter, 1_000).is_ok());
    assert_eq!(array.index_range().start_index, 4);
    let mut meter = GasMeter::new(0, 0, 10);
    let mut array = rewards(6);
    assert!(array.reset_to(&1, &mut meter, 15).unwrap().is_need_more_gas());
    assert_eq!(array.index_range().end_index, 5);
    assert!(!array.contains(&2));
    assert!(!array.contains(&3));
    assert!(array.contains(&4));
    assert!(array.reset_to(&1, &mut meter, 1_000).unwrap().is_ok());
    assert_eq!(array.index_range().end_index, 1);
    assert_eq!(array.len(), 2);
}

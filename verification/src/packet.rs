use crate::anchor::NEAR_SCALE;
use crate::keyed::{
    bytes_equal, copy_bytes, entry_keys, first_index, lemma_first_index, lemma_first_index_is,
    value_of, KeyedList,
};
use crate::types::ValidatorKeyAndPower;
use crate::validator_set::{
    is_active, validator_views, AccountId, Validator, ValidatorModel, ValidatorStatus,
};
use vstd::prelude::*;

verus! {

/// A consensus key with its voting power.
pub type KeyPower = (Seq<u8>, u64);

/// Voting power of a stake: the stake in whole units of `NEAR_SCALE`.
pub open spec fn voting_power(stake: u128) -> u64 {
    (stake / NEAR_SCALE) as u64
}

/// Whether a validator is sent to the appchain: it is active and has power.
pub open spec fn has_power(v: ValidatorModel) -> bool {
    is_active(v) && voting_power(v.total_stake) > 0
}

/// Whether every active validator has a registered key.
pub open spec fn keys_registered(
    validators: Seq<ValidatorModel>,
    pubkeys: Seq<(Seq<char>, Seq<u8>)>,
) -> bool {
    forall|i: int|
        0 <= i < validators.len() && is_active(#[trigger] validators[i]) ==> value_of(
            pubkeys,
            validators[i].validator_id,
        ) is Some
}

/// Key and power of the active validators that have power, in the order of
/// the set.
pub open spec fn key_powers(
    validators: Seq<ValidatorModel>,
    pubkeys: Seq<(Seq<char>, Seq<u8>)>,
) -> Seq<KeyPower> {
    validators.filter(|v: ValidatorModel| has_power(v)).map_values(
        |v: ValidatorModel|
            (value_of(pubkeys, v.validator_id).unwrap(), voting_power(v.total_stake)),
    )
}

/// The entries of the set before: each with its power in the current set, or
/// with power 0 if its key is no longer there.
pub open spec fn reconciled(previous: Seq<KeyPower>, current: Seq<KeyPower>) -> Seq<KeyPower> {
    previous.map_values(
        |p: KeyPower|
            (
                p.0,
                match value_of(current, p.0) {
                    Some(power) => power,
                    None => 0u64,
                },
            ),
    )
}

/// `entries` followed by the entries of `current` whose key is not among
/// them yet.
pub open spec fn with_new(entries: Seq<KeyPower>, current: Seq<KeyPower>) -> Seq<KeyPower>
    decreases current.len(),
{
    if current.len() == 0 {
        entries
    } else {
        let before = with_new(entries, current.drop_last());
        if value_of(before, current.last().0) is Some {
            before
        } else {
            before.push(current.last())
        }
    }
}

/// An entry of power 0 for each key to remove.
pub open spec fn removals(removing: Seq<Seq<u8>>) -> Seq<KeyPower> {
    removing.map_values(|key: Seq<u8>| (key, 0u64))
}

/// The entries of a validator-set change packet: with a set before, its
/// entries reconciled with the current ones and then the new ones; without,
/// the current entries; and at the end the removals.
pub open spec fn vsc_entries(
    current: Seq<KeyPower>,
    previous: Option<Seq<KeyPower>>,
    removing: Seq<Seq<u8>>,
) -> Seq<KeyPower> {
    (match previous {
        Some(p) => with_new(reconciled(p, current), current),
        None => current,
    }) + removals(removing)
}

pub open spec fn key_power_views(entries: Seq<ValidatorKeyAndPower>) -> Seq<KeyPower> {
    entries.map_values(|e: ValidatorKeyAndPower| e@)
}

pub open spec fn byte_views(items: Seq<Vec<u8>>) -> Seq<Seq<u8>> {
    items.map_values(|b: Vec<u8>| b@)
}

pub open spec fn text_views(items: Seq<String>) -> Seq<Seq<char>> {
    items.map_values(|s: String| s@)
}

/// Reconciling entries with themselves changes nothing, as long as no key
/// occurs twice.
pub proof fn lemma_reconciled_with_itself(entries: Seq<KeyPower>)
    requires
        entry_keys(entries).no_duplicates(),
    ensures
        reconciled(entries, entries) == entries,
{
    assert forall|i: int| 0 <= i < entries.len() implies reconciled(entries, entries)[i]
        == entries[i] by {
        let keys = entry_keys(entries);
        assert(keys[i] == entries[i].0);
        lemma_first_index_is(keys, entries[i].0, i);
    }
    assert(reconciled(entries, entries) =~= entries);
}

/// Entries whose keys are all known bring nothing new.
pub proof fn lemma_with_new_of_known(entries: Seq<KeyPower>, current: Seq<KeyPower>)
    requires
        forall|i: int| 0 <= i < current.len() ==> entry_keys(entries).contains(#[trigger] current[i].0),
    ensures
        with_new(entries, current) == entries,
    decreases current.len(),
{
    if current.len() > 0 {
        assert forall|i: int| 0 <= i < current.drop_last().len() implies entry_keys(
            entries,
        ).contains(#[trigger] current.drop_last()[i].0) by {
            assert(current.drop_last()[i] == current[i]);
        }
        lemma_with_new_of_known(entries, current.drop_last());
        assert(entry_keys(entries).contains(current[current.len() - 1].0));
        lemma_first_index(entry_keys(entries), current.last().0);
    }
}

/// A packet from a set to an equal set repeats the set's entries, each with
/// its own power, which is above 0, and adds only the removals asked for. It
/// holds as long as no two validators share a key.
pub proof fn lemma_unchanged_set_gives_unchanged_powers(
    validators: Seq<ValidatorModel>,
    pubkeys: Seq<(Seq<char>, Seq<u8>)>,
    removing: Seq<Seq<u8>>,
)
    requires
        entry_keys(key_powers(validators, pubkeys)).no_duplicates(),
    ensures
        vsc_entries(
            key_powers(validators, pubkeys),
            Some(key_powers(validators, pubkeys)),
            removing,
        ) == key_powers(validators, pubkeys) + removals(removing),
        forall|i: int|
            0 <= i < key_powers(validators, pubkeys).len() ==> (#[trigger] key_powers(
                validators,
                pubkeys,
            )[i]).1 > 0,
{
    let entries = key_powers(validators, pubkeys);
    lemma_reconciled_with_itself(entries);
    assert forall|i: int| 0 <= i < entries.len() implies entry_keys(entries).contains(
        #[trigger] entries[i].0,
    ) by {
        assert(entry_keys(entries)[i] == entries[i].0);
    }
    lemma_with_new_of_known(entries, entries);
    let kept = validators.filter(|v: ValidatorModel| has_power(v));
    assert forall|i: int| 0 <= i < entries.len() implies (#[trigger] entries[i]).1 > 0 by {
        validators.lemma_filter_pred(|v: ValidatorModel| has_power(v), i);
        assert(has_power(kept[i]));
    }
}

/// A validator that has left the set gets power 0 in the packet.
pub proof fn lemma_dropped_key_gets_zero(
    current: Seq<KeyPower>,
    previous: Seq<KeyPower>,
    removing: Seq<Seq<u8>>,
    i: int,
)
    requires
        0 <= i < previous.len(),
        !entry_keys(current).contains(previous[i].0),
    ensures
        vsc_entries(current, Some(previous), removing).len() > i,
        vsc_entries(current, Some(previous), removing)[i] == (previous[i].0, 0u64),
{
    lemma_first_index(entry_keys(current), previous[i].0);
    let r = reconciled(previous, current);
    let w = with_new(r, current);
    lemma_with_new_keeps_prefix(r, current);
    assert(value_of(current, previous[i].0) is None);
    assert(r[i] == (previous[i].0, 0u64));
    assert(w[i] == r[i]);
    assert((w + removals(removing))[i] == w[i]);
}

/// `with_new` only appends.
pub proof fn lemma_with_new_keeps_prefix(entries: Seq<KeyPower>, current: Seq<KeyPower>)
    ensures
        entries.is_prefix_of(with_new(entries, current)),
    decreases current.len(),
{
    if current.len() > 0 {
        lemma_with_new_keeps_prefix(entries, current.drop_last());
    }
}

/// Position of the first entry with the key `key`, or the number of entries.
fn find_key(entries: &Vec<ValidatorKeyAndPower>, key: &Vec<u8>) -> (r: usize)
    ensures
        r == first_index(entry_keys(key_power_views(entries@)), key@),
        r <= entries.len(),
{
    let ghost keys = entry_keys(key_power_views(entries@));
    let mut i: usize = 0;
    while i < entries.len()
        invariant
            i <= entries.len(),
            keys == entry_keys(key_power_views(entries@)),
            forall|j: int| 0 <= j < i ==> keys[j] != key@,
        decreases entries.len() - i,
    {
        if bytes_equal(&entries[i].public_key, key) {
            proof {
                lemma_first_index_is(keys, key@, i as int);
            }
            return i;
        }
        i = i + 1;
    }
    proof {
        lemma_first_index_is(keys, key@, i as int);
    }
    i
}

/// Key and power of the validators that are sent to the appchain, or `None`
/// where an active validator has no registered key.
pub fn collect_key_powers(
    validators: &Vec<Validator>,
    pubkeys: &KeyedList<AccountId, Vec<u8>>,
) -> (r: Option<Vec<ValidatorKeyAndPower>>)
    ensures
        match r {
            Some(entries) => keys_registered(validator_views(validators@), pubkeys@)
                && key_power_views(entries@) == key_powers(
                validator_views(validators@),
                pubkeys@,
            ),
            None => !keys_registered(validator_views(validators@), pubkeys@),
        },
{
    let ghost all = validator_views(validators@);
    let ghost pred = |v: ValidatorModel| has_power(v);
    let ghost entry = |v: ValidatorModel|
        (value_of(pubkeys@, v.validator_id).unwrap(), voting_power(v.total_stake));
    let mut result: Vec<ValidatorKeyAndPower> = Vec::new();
    let mut i: usize = 0;
    proof {
        reveal(Seq::filter);
        assert(all.take(0) =~= Seq::empty());
        assert(key_power_views(result@) =~= Seq::empty());
    }
    while i < validators.len()
        invariant
            i <= validators.len(),
            all == validator_views(validators@),
            pred == |v: ValidatorModel| has_power(v),
            entry == |v: ValidatorModel|
                (value_of(pubkeys@, v.validator_id).unwrap(), voting_power(v.total_stake)),
            key_power_views(result@) == all.take(i as int).filter(pred).map_values(entry),
            forall|j: int|
                0 <= j < i && is_active(#[trigger] all[j]) ==> value_of(
                    pubkeys@,
                    all[j].validator_id,
                ) is Some,
        decreases validators.len() - i,
    {
        let ghost seen = all.take(i as int);
        let ghost v = all[i as int];
        let ghost before = key_power_views(result@);
        proof {
            assert(all.take(i as int + 1) =~= seen.push(v));
            seen.lemma_filter_push(v, pred);
            seen.filter(pred).lemma_push_map_commute(entry, v);
        }
        match validators[i].status {
            ValidatorStatus::Active => {
                match pubkeys.get(&validators[i].validator_id) {
                    Some(key) => {
                        let power: u64 = (validators[i].total_stake / NEAR_SCALE) as u64;
                        if power > 0 {
                            result.push(
                                ValidatorKeyAndPower { public_key: copy_bytes(key), power },
                            );
                            proof {
                                assert(key_power_views(result@) =~= before.push(entry(v)));
                            }
                        }
                    },
                    None => {
                        return None;
                    },
                }
            },
            _ => {},
        }
        i = i + 1;
    }
    proof {
        assert(all.take(i as int) =~= all);
    }
    Some(result)
}

/// The entries of a packet from the entries of the current set, those of the
/// set before and the keys to remove.
pub fn build_vsc_entries(
    current: Vec<ValidatorKeyAndPower>,
    previous: Option<Vec<ValidatorKeyAndPower>>,
    removing_pubkeys: &Vec<Vec<u8>>,
) -> (r: Vec<ValidatorKeyAndPower>)
    ensures
        key_power_views(r@) == vsc_entries(
            key_power_views(current@),
            match previous {
                Some(p) => Some(key_power_views(p@)),
                None => None,
            },
            byte_views(removing_pubkeys@),
        ),
{
    let ghost cur = key_power_views(current@);
    let mut entries: Vec<ValidatorKeyAndPower> = match previous {
        Some(previous) => {
            let ghost prev = key_power_views(previous@);
            let mut entries: Vec<ValidatorKeyAndPower> = Vec::new();
            let mut i: usize = 0;
            proof {
                assert(key_power_views(entries@) =~= reconciled(prev.take(0), cur));
            }
            while i < previous.len()
                invariant
                    i <= previous.len(),
                    cur == key_power_views(current@),
                    prev == key_power_views(previous@),
                    key_power_views(entries@) == reconciled(prev.take(i as int), cur),
                decreases previous.len() - i,
            {
                let ghost before = key_power_views(entries@);
                let k = find_key(&current, &previous[i].public_key);
                let power: u64 = if k < current.len() {
                    current[k].power
                } else {
                    0
                };
                entries.push(
                    ValidatorKeyAndPower { public_key: copy_bytes(&previous[i].public_key), power },
                );
                proof {
                    assert(prev[i as int].0 == previous@[i as int].public_key@);
                    assert(k < current.len() ==> cur[k as int].1 == current@[k as int].power);
                    assert(prev.take(i as int + 1) =~= prev.take(i as int).push(prev[i as int]));
                    assert(key_power_views(entries@) =~= before.push(
                        (prev[i as int].0, power),
                    ));
                    assert(key_power_views(entries@) =~= reconciled(
                        prev.take(i as int + 1),
                        cur,
                    ));
                }
                i = i + 1;
            }
            proof {
                assert(prev.take(i as int) =~= prev);
            }
            let ghost base = key_power_views(entries@);
            let mut j: usize = 0;
            proof {
                assert(cur.take(0) =~= Seq::empty());
            }
            while j < current.len()
                invariant
                    j <= current.len(),
                    cur == key_power_views(current@),
                    key_power_views(entries@) == with_new(base, cur.take(j as int)),
                decreases current.len() - j,
            {
                let ghost before = key_power_views(entries@);
                let k = find_key(&entries, &current[j].public_key);
                proof {
                    assert(cur.take(j as int + 1).drop_last() =~= cur.take(j as int));
                    assert(cur.take(j as int + 1).last() == cur[j as int]);
                    assert(cur[j as int] == (current@[j as int].public_key@, current@[j as int].power));
                }
                if k >= entries.len() {
                    entries.push(
                        ValidatorKeyAndPower {
                            public_key: copy_bytes(&current[j].public_key),
                            power: current[j].power,
                        },
                    );
                    proof {
                        assert(key_power_views(entries@) =~= before.push(cur[j as int]));
                    }
                }
                j = j + 1;
            }
            proof {
                assert(cur.take(j as int) =~= cur);
            }
            entries
        },
        None => current,
    };
    let ghost head = key_power_views(entries@);
    let ghost removing = byte_views(removing_pubkeys@);
    let mut i: usize = 0;
    proof {
        assert(head + removals(removing.take(0)) =~= head);
    }
    while i < removing_pubkeys.len()
        invariant
            i <= removing_pubkeys.len(),
            removing == byte_views(removing_pubkeys@),
            key_power_views(entries@) == head + removals(removing.take(i as int)),
        decreases removing_pubkeys.len() - i,
    {
        let ghost before = key_power_views(entries@);
        entries.push(
            ValidatorKeyAndPower { public_key: copy_bytes(&removing_pubkeys[i]), power: 0 },
        );
        proof {
            assert(removing.take(i as int + 1) =~= removing.take(i as int).push(
                removing[i as int],
            ));
            assert(key_power_views(entries@) =~= before.push((removing[i as int], 0u64)));
            assert(key_power_views(entries@) =~= head + removals(removing.take(i as int + 1)));
        }
        i = i + 1;
    }
    proof {
        assert(removing.take(i as int) =~= removing);
    }
    entries
}

/// A copy of a list of texts.
pub fn copy_texts(items: &Vec<String>) -> (r: Vec<String>)
    ensures
        r@ == items@,
{
    let mut result: Vec<String> = Vec::new();
    let mut i: usize = 0;
    while i < items.len()
        invariant
            i <= items.len(),
            result@ == items@.take(i as int),
        decreases items.len() - i,
    {
        result.push(items[i].clone());
        assert(items@.take(i as int + 1) =~= items@.take(i as int).push(items@[i as int]));
        i = i + 1;
    }
    assert(items@.take(i as int) =~= items@);
    result
}

} // verus!

use crate::gas::GasMeter;
use crate::keyed::{first_index, lemma_first_index, lemma_first_index_is};
use crate::lookup_array::IndexedAndClearable;
use crate::types::ProcessingResult;
use vstd::prelude::*;

verus! {

/// Account id of a validator on the staking chain.
pub type AccountId = String;

/// Point in time, in nanoseconds.
pub type Timestamp = u64;

#[derive(Clone, Copy, Debug, PartialEq, Eq, Structural)]
pub enum ValidatorStatus {
    /// Sent to the appchain in the next validator-set change packet.
    Active,
    /// Jailed for downtime; kept in later sets with this status until unjailed.
    Jailed,
    /// A slash request with this id is pending at the staking ledger.
    WaitForSlash(u64),
    /// Slashed by the appchain's governance.
    Slashed,
    /// Staked less than the minimum when the set was made.
    Unqualified,
}

#[derive(Debug)]
pub struct Validator {
    pub validator_id: AccountId,
    /// Stake of the validator, all delegations included.
    pub total_stake: u128,
    pub status: ValidatorStatus,
}

/// What the staking ledger reports: the validators with their stakes, and the
/// ledger's own sequence number of this set.
#[derive(Debug)]
pub struct RestakingBaseValidatorSet {
    pub validator_set: Vec<(AccountId, u128)>,
    pub sequence: u64,
}

#[derive(Clone, Copy, Debug, PartialEq, Eq, Structural)]
pub enum ValidatorSetError {
    /// The set before this one has the largest id there is.
    IdOverflow,
    /// A validator id occurs twice.
    DuplicateValidator,
    /// The stakes do not add up within 128 bits.
    StakeOverflow,
    /// No validator of the new set would be active.
    NoActiveValidator,
    ValidatorNotFound,
    /// The validator's status does not allow the transition.
    InvalidState,
    /// The set holds an open jail record of the validator.
    AlreadyJailed,
    JailRecordNotFound,
    /// The minimum time in jail has not passed.
    JailedTooShort,
}

/// The validators and their stakes at one epoch.
#[derive(Debug)]
pub struct ValidatorSet {
    pub id: u64,
    /// The validators, in the order in which they were added.
    pub validators: Vec<Validator>,
    /// Sum of the validators' stakes.
    pub total_stake: u128,
    /// Sequence number of this set at the staking ledger.
    pub sequence: u64,
    pub timestamp: Timestamp,
    /// Set once the appchain has acknowledged the set.
    pub matured_in_appchain: bool,
    /// Validator, time of jailing, time of unjailing or 0.
    pub jailed_validators: Vec<(AccountId, Timestamp, Timestamp)>,
}

/// Mathematical content of a `Validator`.
pub struct ValidatorModel {
    pub validator_id: Seq<char>,
    pub total_stake: u128,
    pub status: ValidatorStatus,
}

impl View for Validator {
    type V = ValidatorModel;

    open spec fn view(&self) -> ValidatorModel {
        ValidatorModel {
            validator_id: self.validator_id@,
            total_stake: self.total_stake,
            status: self.status,
        }
    }
}

/// Validator, time of jailing, time of unjailing or 0.
pub type JailRecord = (Seq<char>, Timestamp, Timestamp);

/// Mathematical content of a `ValidatorSet`.
pub struct ValidatorSetModel {
    pub id: u64,
    pub validators: Seq<ValidatorModel>,
    pub total_stake: u128,
    pub sequence: u64,
    pub timestamp: Timestamp,
    pub matured_in_appchain: bool,
    pub jailed_validators: Seq<JailRecord>,
}

pub open spec fn validator_views(validators: Seq<Validator>) -> Seq<ValidatorModel> {
    validators.map_values(|v: Validator| v@)
}

pub open spec fn record_views(records: Seq<(AccountId, Timestamp, Timestamp)>) -> Seq<JailRecord> {
    records.map_values(|r: (AccountId, Timestamp, Timestamp)| (r.0@, r.1, r.2))
}

/// Ids with stakes, by view.
pub open spec fn stake_views(entries: Seq<(AccountId, u128)>) -> Seq<(Seq<char>, u128)> {
    entries.map_values(|e: (AccountId, u128)| (e.0@, e.1))
}

pub open spec fn id_views(ids: Seq<AccountId>) -> Seq<Seq<char>> {
    ids.map_values(|id: AccountId| id@)
}

impl View for ValidatorSet {
    type V = ValidatorSetModel;

    open spec fn view(&self) -> ValidatorSetModel {
        ValidatorSetModel {
            id: self.id,
            validators: validator_views(self.validators@),
            total_stake: self.total_stake,
            sequence: self.sequence,
            timestamp: self.timestamp,
            matured_in_appchain: self.matured_in_appchain,
            jailed_validators: record_views(self.jailed_validators@),
        }
    }
}

pub open spec fn validator_ids(validators: Seq<ValidatorModel>) -> Seq<Seq<char>> {
    validators.map_values(|v: ValidatorModel| v.validator_id)
}

/// For each jail record, its validator and whether the record is open: the
/// validator has not been set free yet.
pub open spec fn open_marks(records: Seq<JailRecord>) -> Seq<(Seq<char>, bool)> {
    records.map_values(|r: JailRecord| (r.0, r.2 == 0))
}

pub open spec fn stake_sum(validators: Seq<ValidatorModel>) -> int
    decreases validators.len(),
{
    if validators.len() == 0 {
        0
    } else {
        stake_sum(validators.drop_last()) + validators.last().total_stake
    }
}

pub open spec fn has_active(validators: Seq<ValidatorModel>) -> bool {
    exists|i: int|
        0 <= i < validators.len() && (#[trigger] validators[i]).status == ValidatorStatus::Active
}

pub open spec fn is_active(v: ValidatorModel) -> bool {
    v.status == ValidatorStatus::Active
}

pub open spec fn is_slash_ack(v: ValidatorModel) -> bool {
    v.status == ValidatorStatus::Jailed || v.status is WaitForSlash
}

/// Status of a validator of a new set: unqualified below the minimum stake,
/// else what it was in the set before, else active.
pub open spec fn initial_status(
    last: Option<ValidatorSetModel>,
    id: Seq<char>,
    stake: u128,
    min_stake: u128,
) -> ValidatorStatus {
    if stake < min_stake {
        ValidatorStatus::Unqualified
    } else {
        match last {
            Some(l) => if l.contains_validator(id) {
                l.validators[l.position(id)].status
            } else {
                ValidatorStatus::Active
            },
            None => ValidatorStatus::Active,
        }
    }
}

/// The validators of a new set, in the order of the ledger's report.
pub open spec fn initial_validators(
    last: Option<ValidatorSetModel>,
    snapshot: Seq<(Seq<char>, u128)>,
    min_stake: u128,
) -> Seq<ValidatorModel> {
    snapshot.map_values(
        |e: (Seq<char>, u128)|
            ValidatorModel {
                validator_id: e.0,
                total_stake: e.1,
                status: initial_status(last, e.0, e.1, min_stake),
            },
    )
}

/// Why no set can be made of the report, if so.
pub open spec fn creation_error(
    last: Option<ValidatorSetModel>,
    snapshot: Seq<(Seq<char>, u128)>,
    min_stake: u128,
) -> Option<ValidatorSetError> {
    let validators = initial_validators(last, snapshot, min_stake);
    if last is Some && last->0.id == u64::MAX {
        Some(ValidatorSetError::IdOverflow)
    } else if !validator_ids(validators).no_duplicates() {
        Some(ValidatorSetError::DuplicateValidator)
    } else if stake_sum(validators) > u128::MAX {
        Some(ValidatorSetError::StakeOverflow)
    } else if !has_active(validators) {
        Some(ValidatorSetError::NoActiveValidator)
    } else {
        None
    }
}

/// The set that follows `last` on the ledger's report.
pub open spec fn created(
    last: Option<ValidatorSetModel>,
    snapshot: Seq<(Seq<char>, u128)>,
    sequence: u64,
    min_stake: u128,
    timestamp: Timestamp,
) -> ValidatorSetModel {
    let validators = initial_validators(last, snapshot, min_stake);
    ValidatorSetModel {
        id: match last {
            Some(l) => (l.id + 1) as u64,
            None => 0,
        },
        validators,
        total_stake: stake_sum(validators) as u128,
        sequence,
        timestamp,
        matured_in_appchain: false,
        jailed_validators: match last {
            Some(l) => l.jailed_validators.filter(|r: JailRecord| r.2 == 0),
            None => Seq::empty(),
        },
    }
}

impl ValidatorSetModel {
    /// Position of the validator `id`, or the number of validators if it is
    /// not in the set.
    pub open spec fn position(self, id: Seq<char>) -> int {
        first_index(validator_ids(self.validators), id)
    }

    pub open spec fn contains_validator(self, id: Seq<char>) -> bool {
        self.position(id) < self.validators.len()
    }

    /// Position of the open jail record of `id`, or the number of records if
    /// `id` has none. Closed records are history and are passed over.
    pub open spec fn jail_position(self, id: Seq<char>) -> int {
        first_index(open_marks(self.jailed_validators), (id, true))
    }

    /// No validator id occurs twice, and `total_stake` is the sum of the stakes.
    pub open spec fn wf(self) -> bool {
        &&& validator_ids(self.validators).no_duplicates()
        &&& self.total_stake == stake_sum(self.validators)
    }

    pub open spec fn with_status(self, k: int, status: ValidatorStatus) -> Self {
        ValidatorSetModel {
            validators: self.validators.update(
                k,
                ValidatorModel {
                    validator_id: self.validators[k].validator_id,
                    total_stake: self.validators[k].total_stake,
                    status,
                },
            ),
            ..self
        }
    }

    pub open spec fn add_error(self, id: Seq<char>, stake: u128) -> Option<ValidatorSetError> {
        if self.contains_validator(id) {
            Some(ValidatorSetError::DuplicateValidator)
        } else if self.total_stake + stake > u128::MAX {
            Some(ValidatorSetError::StakeOverflow)
        } else {
            None
        }
    }

    pub open spec fn added(self, id: Seq<char>, stake: u128, status: ValidatorStatus) -> Self {
        ValidatorSetModel {
            validators: self.validators.push(
                ValidatorModel { validator_id: id, total_stake: stake, status },
            ),
            total_stake: (self.total_stake + stake) as u128,
            ..self
        }
    }

    /// Why `id` cannot be jailed, if so: it is not in the set, it is not
    /// active, or it has an open jail record already.
    pub open spec fn jail_error(self, id: Seq<char>) -> Option<ValidatorSetError> {
        if !self.contains_validator(id) {
            Some(ValidatorSetError::ValidatorNotFound)
        } else if self.validators[self.position(id)].status != ValidatorStatus::Active {
            Some(ValidatorSetError::InvalidState)
        } else if self.jail_position(id) < self.jailed_validators.len() {
            Some(ValidatorSetError::AlreadyJailed)
        } else {
            None
        }
    }

    /// The set with `id` jailed at `now`.
    pub open spec fn jailed(self, id: Seq<char>, now: Timestamp) -> Self {
        ValidatorSetModel {
            jailed_validators: self.jailed_validators.push((id, now, 0)),
            ..self.with_status(self.position(id), ValidatorStatus::Jailed)
        }
    }

    /// Why `id` cannot be unjailed at `now`, if so: it is not in the set, it is
    /// not jailed, it has no open jail record, or the record is too young.
    pub open spec fn unjail_error(
        self,
        id: Seq<char>,
        min_unjail_interval: u64,
        now: Timestamp,
    ) -> Option<ValidatorSetError> {
        if !self.contains_validator(id) {
            Some(ValidatorSetError::ValidatorNotFound)
        } else if self.validators[self.position(id)].status != ValidatorStatus::Jailed {
            Some(ValidatorSetError::InvalidState)
        } else if self.jail_position(id) >= self.jailed_validators.len() {
            Some(ValidatorSetError::JailRecordNotFound)
        } else if now - self.jailed_validators[self.jail_position(id)].1 < min_unjail_interval {
            Some(ValidatorSetError::JailedTooShort)
        } else {
            None
        }
    }

    /// The set with `id` active again and its open jail record closed at
    /// `now`.
    pub open spec fn unjailed(self, id: Seq<char>, now: Timestamp) -> Self {
        let j = self.jail_position(id);
        ValidatorSetModel {
            jailed_validators: self.jailed_validators.update(
                j,
                (self.jailed_validators[j].0, self.jailed_validators[j].1, now),
            ),
            ..self.with_status(self.position(id), ValidatorStatus::Active)
        }
    }

    /// The set with `id` waiting for the slash `slash_id`, if `id` is an active
    /// validator; else the set as it is.
    pub open spec fn waiting_for_slash(self, id: Seq<char>, slash_id: u64) -> Self {
        if self.contains_validator(id) && self.validators[self.position(id)].status
            == ValidatorStatus::Active {
            self.with_status(self.position(id), ValidatorStatus::WaitForSlash(slash_id))
        } else {
            self
        }
    }

    pub open spec fn matured(self) -> Self {
        ValidatorSetModel { matured_in_appchain: true, ..self }
    }

    /// Id and stake of the active validators, in the order of the set.
    pub open spec fn active_validators(self) -> Seq<(Seq<char>, u128)> {
        self.validators.filter(|v: ValidatorModel| is_active(v)).map_values(
            |v: ValidatorModel| (v.validator_id, v.total_stake),
        )
    }

    /// Ids of the jailed validators and of those waiting for a slash.
    pub open spec fn slash_ack_validators(self) -> Seq<Seq<char>> {
        self.validators.filter(|v: ValidatorModel| is_slash_ack(v)).map_values(
            |v: ValidatorModel| v.validator_id,
        )
    }

    /// Number of validators that one teardown step removes.
    pub open spec fn clear_steps(self, meter: GasMeter, max_gas: u64) -> nat {
        meter.steps_within(max_gas, self.validators.len())
    }

    /// One teardown step: validators leave from the front, one burnt step
    /// each, until none is left or the meter reads above `max_gas`. The
    /// total stake falls to 0 with the step that ends within the budget.
    pub open spec fn cleared(self, meter: GasMeter, max_gas: u64) -> (
        Self,
        GasMeter,
        ProcessingResult,
    ) {
        let steps = self.clear_steps(meter, max_gas);
        let after = meter.burned_times(steps);
        if steps > 0 && after.used > max_gas {
            (
                ValidatorSetModel { validators: self.validators.skip(steps as int), ..self },
                after,
                ProcessingResult::NeedMoreGas,
            )
        } else {
            (
                ValidatorSetModel { validators: Seq::empty(), total_stake: 0, ..self },
                after,
                ProcessingResult::Done,
            )
        }
    }
}

/// The content of the set before a new one, if there is one.
pub open spec fn model_of(last: Option<&ValidatorSet>) -> Option<ValidatorSetModel> {
    match last {
        Some(l) => Some(l@),
        None => None,
    }
}

proof fn lemma_stake_sum_push(validators: Seq<ValidatorModel>, v: ValidatorModel)
    ensures
        stake_sum(validators.push(v)) == stake_sum(validators) + v.total_stake,
{
    assert(validators.push(v).drop_last() =~= validators);
}

proof fn lemma_ids_push(validators: Seq<ValidatorModel>, v: ValidatorModel)
    ensures
        validator_ids(validators.push(v)) =~= validator_ids(validators).push(v.validator_id),
{
}

proof fn lemma_stake_sum_same(a: Seq<ValidatorModel>, b: Seq<ValidatorModel>)
    requires
        a.len() == b.len(),
        forall|i: int| 0 <= i < a.len() ==> a[i].total_stake == b[i].total_stake,
    ensures
        stake_sum(a) == stake_sum(b),
    decreases a.len(),
{
    if a.len() > 0 {
        lemma_stake_sum_same(a.drop_last(), b.drop_last());
    }
}

pub proof fn lemma_stake_sum_nonnegative(validators: Seq<ValidatorModel>)
    ensures
        stake_sum(validators) >= 0,
    decreases validators.len(),
{
    if validators.len() > 0 {
        lemma_stake_sum_nonnegative(validators.drop_last());
    }
}

proof fn lemma_burned_times_succ(meter: GasMeter, n: nat)
    ensures
        meter.burned_times(n + 1) == meter.burned_times(n).burned(),
    decreases n,
{
    assert(meter.burned_times(n + 1) == meter.burned().burned_times(n)) by {
        assert(((n + 1) - 1) as nat == n);
    }
    if n > 0 {
        lemma_burned_times_succ(meter.burned(), (n - 1) as nat);
        assert(((n - 1) as nat + 1) as nat == n);
        assert(meter.burned_times(n) == meter.burned().burned_times((n - 1) as nat));
    } else {
        assert(meter.burned().burned_times(0) == meter.burned());
        assert(meter.burned_times(0) == meter);
    }
}

/// A change of one validator's status leaves the ids and the stakes, and with
/// them the well-formedness of the set.
pub proof fn lemma_with_status_keeps_wf(set: ValidatorSetModel, k: int, status: ValidatorStatus)
    requires
        0 <= k < set.validators.len(),
    ensures
        validator_ids(set.with_status(k, status).validators) == validator_ids(set.validators),
        stake_sum(set.with_status(k, status).validators) == stake_sum(set.validators),
        set.wf() ==> set.with_status(k, status).wf(),
{
    let after = set.with_status(k, status).validators;
    assert(validator_ids(after) =~= validator_ids(set.validators));
    lemma_stake_sum_same(set.validators, after);
}

/// Jailing, unjailing, the wait for a slash and maturing keep the ids and the
/// stakes of a set, and so keep a well-formed set well-formed.
pub proof fn lemma_transitions_keep_wf(
    set: ValidatorSetModel,
    id: Seq<char>,
    min_unjail_interval: u64,
    slash_id: u64,
    now: Timestamp,
)
    ensures
        set.jail_error(id) is None ==> same_members(set, set.jailed(id, now)),
        set.unjail_error(id, min_unjail_interval, now) is None ==> same_members(
            set,
            set.unjailed(id, now),
        ),
        same_members(set, set.waiting_for_slash(id, slash_id)),
        same_members(set, set.matured()),
{
    lemma_first_index(validator_ids(set.validators), id);
    if set.contains_validator(id) {
        lemma_with_status_keeps_wf(set, set.position(id), ValidatorStatus::Jailed);
        lemma_with_status_keeps_wf(set, set.position(id), ValidatorStatus::Active);
        lemma_with_status_keeps_wf(set, set.position(id), ValidatorStatus::WaitForSlash(slash_id));
    }
}

/// Two sets with the same id, the same validator ids, the same stakes and
/// the same total: one is well-formed exactly when the other is.
pub open spec fn same_members(a: ValidatorSetModel, b: ValidatorSetModel) -> bool {
    &&& a.id == b.id
    &&& validator_ids(a.validators) == validator_ids(b.validators)
    &&& stake_sum(a.validators) == stake_sum(b.validators)
    &&& a.total_stake == b.total_stake
    &&& a.wf() == b.wf()
}

/// Adding a validator to a well-formed set leaves it well-formed.
pub proof fn lemma_added_keeps_wf(
    set: ValidatorSetModel,
    id: Seq<char>,
    stake: u128,
    status: ValidatorStatus,
)
    requires
        set.wf(),
        set.add_error(id, stake) is None,
    ensures
        set.added(id, stake, status).wf(),
{
    let v = ValidatorModel { validator_id: id, total_stake: stake, status };
    lemma_first_index(validator_ids(set.validators), id);
    lemma_stake_sum_push(set.validators, v);
    lemma_ids_push(set.validators, v);
}

/// Maturing a set twice is maturing it once.
pub proof fn lemma_set_matured_idempotent(set: ValidatorSetModel)
    ensures
        set.matured().matured() == set.matured(),
        set.matured().matured_in_appchain,
{
}

/// A validator that has just been jailed cannot be jailed again: the second
/// attempt is refused for its state.
pub proof fn lemma_jail_twice_refused(set: ValidatorSetModel, id: Seq<char>, now: Timestamp)
    requires
        set.jail_error(id) is None,
    ensures
        set.jailed(id, now).jail_error(id) == Some(ValidatorSetError::InvalidState),
{
    lemma_first_index(validator_ids(set.validators), id);
    let after = set.jailed(id, now);
    assert(validator_ids(after.validators) =~= validator_ids(set.validators));
}

/// A validator jailed at `jailed_at` is set free at `now` exactly when
/// `min_unjail_interval` has passed: refused before, granted from then on.
pub proof fn lemma_unjail_boundary(
    set: ValidatorSetModel,
    id: Seq<char>,
    jailed_at: Timestamp,
    min_unjail_interval: u64,
    now: Timestamp,
)
    requires
        set.jail_error(id) is None,
    ensures
        now - jailed_at < min_unjail_interval ==> set.jailed(id, jailed_at).unjail_error(
            id,
            min_unjail_interval,
            now,
        ) == Some(ValidatorSetError::JailedTooShort),
        now - jailed_at >= min_unjail_interval ==> set.jailed(id, jailed_at).unjail_error(
            id,
            min_unjail_interval,
            now,
        ) is None,
{
    lemma_first_index(validator_ids(set.validators), id);
    lemma_first_index(open_marks(set.jailed_validators), (id, true));
    let after = set.jailed(id, jailed_at);
    assert(validator_ids(after.validators) =~= validator_ids(set.validators));
    let n = set.jailed_validators.len() as int;
    assert(open_marks(after.jailed_validators) =~= open_marks(set.jailed_validators).push(
        (id, true),
    ));
    lemma_first_index_is(open_marks(after.jailed_validators), (id, true), n);
}

/// A validator that was jailed and set free in a set can be jailed in it
/// again: its closed record does not stand in the way.
pub proof fn lemma_jail_after_unjail(
    set: ValidatorSetModel,
    id: Seq<char>,
    jailed_at: Timestamp,
    min_unjail_interval: u64,
    unjailed_at: Timestamp,
)
    requires
        set.jail_error(id) is None,
        unjailed_at > 0,
        set.jailed(id, jailed_at).unjail_error(id, min_unjail_interval, unjailed_at) is None,
    ensures
        set.jailed(id, jailed_at).unjailed(id, unjailed_at).jail_error(id) is None,
        set.jailed(id, jailed_at).unjailed(id, unjailed_at).jailed_validators
            == set.jailed_validators.push((id, jailed_at, unjailed_at)),
{
    lemma_first_index(validator_ids(set.validators), id);
    lemma_first_index(open_marks(set.jailed_validators), (id, true));
    let middle = set.jailed(id, jailed_at);
    let after = middle.unjailed(id, unjailed_at);
    let n = set.jailed_validators.len() as int;
    assert(validator_ids(middle.validators) =~= validator_ids(set.validators));
    assert(validator_ids(after.validators) =~= validator_ids(set.validators));
    assert(open_marks(middle.jailed_validators) =~= open_marks(set.jailed_validators).push(
        (id, true),
    ));
    lemma_first_index_is(open_marks(middle.jailed_validators), (id, true), n);
    assert(after.jailed_validators =~= set.jailed_validators.push((id, jailed_at, unjailed_at)));
    let marks = open_marks(after.jailed_validators);
    assert(marks =~= open_marks(set.jailed_validators).push((id, false)));
    lemma_first_index_is(marks, (id, true), n + 1);
}

/// Position of the validator `id` among `validators`.
pub fn find_validator(validators: &Vec<Validator>, id: &AccountId) -> (k: usize)
    ensures
        k == first_index(validator_ids(validator_views(validators@)), id@),
        k <= validators.len(),
{
    let ghost ids = validator_ids(validator_views(validators@));
    let mut i: usize = 0;
    while i < validators.len()
        invariant
            i <= validators.len(),
            ids == validator_ids(validator_views(validators@)),
            forall|j: int| 0 <= j < i ==> ids[j] != id@,
        decreases validators.len() - i,
    {
        if validators[i].validator_id == *id {
            proof {
                lemma_first_index_is(ids, id@, i as int);
            }
            return i;
        }
        i = i + 1;
    }
    proof {
        lemma_first_index_is(ids, id@, i as int);
    }
    i
}

/// Position of the open jail record of `id` among `records`.
pub fn find_open_jail_record(
    records: &Vec<(AccountId, Timestamp, Timestamp)>,
    id: &AccountId,
) -> (k: usize)
    ensures
        k == first_index(open_marks(record_views(records@)), (id@, true)),
        k <= records.len(),
{
    let ghost marks = open_marks(record_views(records@));
    let mut i: usize = 0;
    while i < records.len()
        invariant
            i <= records.len(),
            marks == open_marks(record_views(records@)),
            forall|j: int| 0 <= j < i ==> marks[j] != (id@, true),
        decreases records.len() - i,
    {
        if records[i].2 == 0 && records[i].0 == *id {
            proof {
                lemma_first_index_is(marks, (id@, true), i as int);
            }
            return i;
        }
        i = i + 1;
    }
    proof {
        lemma_first_index_is(marks, (id@, true), i as int);
    }
    i
}

/// The jail records that are still open, in order.
fn unresolved_records(records: &Vec<(AccountId, Timestamp, Timestamp)>) -> (r: Vec<
    (AccountId, Timestamp, Timestamp),
>)
    ensures
        record_views(r@) == record_views(records@).filter(|x: JailRecord| x.2 == 0),
{
    let ghost pred = |x: JailRecord| x.2 == 0;
    let ghost all = record_views(records@);
    let mut result: Vec<(AccountId, Timestamp, Timestamp)> = Vec::new();
    let mut i: usize = 0;
    proof {
        assert(all.take(0) =~= Seq::empty());
        assert(record_views(result@) =~= Seq::empty());
        reveal(Seq::filter);
    }
    while i < records.len()
        invariant
            i <= records.len(),
            pred == |x: JailRecord| x.2 == 0,
            all == record_views(records@),
            record_views(result@) == all.take(i as int).filter(pred),
        decreases records.len() - i,
    {
        let ghost before = record_views(result@);
        proof {
            assert(all.take(i as int + 1) =~= all.take(i as int).push(all[i as int]));
            all.take(i as int).lemma_filter_push(all[i as int], pred);
        }
        if records[i].2 == 0 {
            result.push((records[i].0.clone(), records[i].1, records[i].2));
            proof {
                assert(record_views(result@) =~= before.push(all[i as int]));
            }
        }
        i = i + 1;
    }
    proof {
        assert(all.take(i as int) =~= all);
    }
    result
}

impl Validator {
    /// A copy of the validator.
    pub fn duplicate(&self) -> (r: Validator)
        ensures
            r@ == self@,
    {
        Validator {
            validator_id: self.validator_id.clone(),
            total_stake: self.total_stake,
            status: self.status,
        }
    }
}

impl ValidatorSet {
    /// The set that follows `last_vs` on the report of the staking ledger. A
    /// validator below the minimum stake is unqualified; another one keeps the
    /// status it had in `last_vs`, and is active if it was not there. The open
    /// jail records of `last_vs` are carried over.
    pub fn new(
        last_vs: Option<&ValidatorSet>,
        restaking_base_vs: &RestakingBaseValidatorSet,
        min_validator_staking_amount: u128,
        timestamp: Timestamp,
    ) -> (r: Result<ValidatorSet, ValidatorSetError>)
        ensures
            match r {
                Ok(vs) => {
                    &&& creation_error(
                        model_of(last_vs),
                        stake_views(restaking_base_vs.validator_set@),
                        min_validator_staking_amount,
                    ) is None
                    &&& vs@ == created(
                        model_of(last_vs),
                        stake_views(restaking_base_vs.validator_set@),
                        restaking_base_vs.sequence,
                        min_validator_staking_amount,
                        timestamp,
                    )
                    &&& vs@.wf()
                },
                Err(e) => creation_error(
                    model_of(last_vs),
                    stake_views(restaking_base_vs.validator_set@),
                    min_validator_staking_amount,
                ) == Some(e),
            },
    {
        let ghost last = model_of(last_vs);
        let ghost snapshot = stake_views(restaking_base_vs.validator_set@);
        let ghost target = initial_validators(last, snapshot, min_validator_staking_amount);
        let id: u64 = match last_vs {
            Some(l) => {
                if l.id == u64::MAX {
                    return Err(ValidatorSetError::IdOverflow);
                }
                l.id + 1
            },
            None => 0,
        };
        let jailed_validators = match last_vs {
            Some(l) => unresolved_records(&l.jailed_validators),
            None => {
                let empty: Vec<(AccountId, Timestamp, Timestamp)> = Vec::new();
                assert(record_views(empty@) =~= Seq::empty());
                empty
            },
        };
        let mut validators: Vec<Validator> = Vec::new();
        let mut total: u128 = 0;
        let mut overflow = false;
        let mut any_active = false;
        let mut i: usize = 0;
        proof {
            assert(validator_views(validators@) =~= target.take(0));
        }
        while i < restaking_base_vs.validator_set.len()
            invariant
                i <= restaking_base_vs.validator_set.len(),
                last == model_of(last_vs),
                snapshot == stake_views(restaking_base_vs.validator_set@),
                target == initial_validators(last, snapshot, min_validator_staking_amount),
                !(last is Some && last->0.id == u64::MAX),
                validator_views(validators@) == target.take(i as int),
                validator_ids(validator_views(validators@)).no_duplicates(),
                overflow ==> stake_sum(validator_views(validators@)) > u128::MAX,
                !overflow ==> total == stake_sum(validator_views(validators@)),
                any_active == has_active(validator_views(validators@)),
            decreases restaking_base_vs.validator_set.len() - i,
        {
            let entry = &restaking_base_vs.validator_set[i];
            let ghost before = validator_views(validators@);
            let k = find_validator(&validators, &entry.0);
            proof {
                lemma_first_index(validator_ids(before), entry.0@);
                assert(snapshot[i as int] == (entry.0@, entry.1));
            }
            if k < validators.len() {
                proof {
                    let ids = validator_ids(target);
                    assert(before[k as int] == target[k as int]);
                    assert(validator_ids(before)[k as int] == entry.0@);
                    assert(ids[k as int] == entry.0@);
                    assert(ids[i as int] == entry.0@);
                    assert(!ids.no_duplicates());
                }
                return Err(ValidatorSetError::DuplicateValidator);
            }
            let status = if entry.1 >= min_validator_staking_amount {
                match last_vs {
                    Some(l) => {
                        let p = find_validator(&l.validators, &entry.0);
                        if p < l.validators.len() {
                            l.validators[p].status
                        } else {
                            ValidatorStatus::Active
                        }
                    },
                    None => ValidatorStatus::Active,
                }
            } else {
                ValidatorStatus::Unqualified
            };
            match status {
                ValidatorStatus::Active => {
                    any_active = true;
                },
                _ => {},
            }
            if overflow || entry.1 > u128::MAX - total {
                overflow = true;
            } else {
                total = total + entry.1;
            }
            let ghost v = ValidatorModel { validator_id: entry.0@, total_stake: entry.1, status };
            proof {
                lemma_stake_sum_push(before, v);
                lemma_stake_sum_nonnegative(before);
                lemma_ids_push(before, v);
                assert(target.take(i as int + 1) =~= target.take(i as int).push(target[i as int]));
                assert(target[i as int] == v);
                if has_active(before) {
                    let w = choose|w: int|
                        0 <= w < before.len() && (#[trigger] before[w]).status
                            == ValidatorStatus::Active;
                    assert(before.push(v)[w] == before[w]);
                }
                if status == ValidatorStatus::Active {
                    assert(before.push(v)[before.len() as int] == v);
                }
                if has_active(before.push(v)) && !(status == ValidatorStatus::Active) {
                    let w = choose|w: int|
                        0 <= w < before.push(v).len() && (#[trigger] before.push(v)[w]).status
                            == ValidatorStatus::Active;
                    assert(before[w] == before.push(v)[w]);
                }
            }
            validators.push(
                Validator { validator_id: entry.0.clone(), total_stake: entry.1, status },
            );
            proof {
                assert(validator_views(validators@) =~= before.push(v));
            }
            i = i + 1;
        }
        proof {
            assert(target.take(i as int) =~= target);
        }
        if overflow {
            return Err(ValidatorSetError::StakeOverflow);
        }
        if !any_active {
            return Err(ValidatorSetError::NoActiveValidator);
        }
        Ok(
            ValidatorSet {
                id,
                validators,
                total_stake: total,
                sequence: restaking_base_vs.sequence,
                timestamp,
                matured_in_appchain: false,
                jailed_validators,
            },
        )
    }

    /// Adds a validator to the set.
    pub fn add_validator(&mut self, validator_id: AccountId, stake: u128, status: ValidatorStatus) -> (r:
        Result<(), ValidatorSetError>)
        ensures
            match r {
                Ok(_) => old(self)@.add_error(validator_id@, stake) is None && final(self)@ == old(
                    self,
                )@.added(validator_id@, stake, status),
                Err(e) => old(self)@.add_error(validator_id@, stake) == Some(e) && final(self)@
                    == old(self)@,
            },
    {
        let k = find_validator(&self.validators, &validator_id);
        if k < self.validators.len() {
            return Err(ValidatorSetError::DuplicateValidator);
        }
        if stake > u128::MAX - self.total_stake {
            return Err(ValidatorSetError::StakeOverflow);
        }
        let ghost v = ValidatorModel { validator_id: validator_id@, total_stake: stake, status };
        self.validators.push(Validator { validator_id, total_stake: stake, status });
        self.total_stake = self.total_stake + stake;
        assert(self@.validators =~= old(self)@.validators.push(v));
        Ok(())
    }

    fn set_status(&mut self, k: usize, status: ValidatorStatus)
        requires
            k < old(self).validators.len(),
        ensures
            final(self)@ == old(self)@.with_status(k as int, status),
    {
        let validator_id = self.validators[k].validator_id.clone();
        let total_stake = self.validators[k].total_stake;
        self.validators.set(k, Validator { validator_id, total_stake, status });
        assert(self@.validators =~= old(self)@.with_status(k as int, status).validators);
    }

    /// Why the validator cannot be jailed, if so.
    pub fn check_jail(&self, validator_id: &AccountId) -> (r: Option<ValidatorSetError>)
        ensures
            r == self@.jail_error(validator_id@),
    {
        let k = find_validator(&self.validators, validator_id);
        if k >= self.validators.len() {
            return Some(ValidatorSetError::ValidatorNotFound);
        }
        match self.validators[k].status {
            ValidatorStatus::Active => {},
            _ => {
                return Some(ValidatorSetError::InvalidState);
            },
        }
        let j = find_open_jail_record(&self.jailed_validators, validator_id);
        if j < self.jailed_validators.len() {
            return Some(ValidatorSetError::AlreadyJailed);
        }
        None
    }

    /// Jails an active validator and opens a jail record for it at `now`,
    /// behind the records that the set holds already.
    pub fn jail_validator(&mut self, validator_id: &AccountId, now: Timestamp) -> (r: Result<
        (),
        ValidatorSetError,
    >)
        ensures
            match r {
                Ok(_) => old(self)@.jail_error(validator_id@) is None && final(self)@ == old(
                    self,
                )@.jailed(validator_id@, now),
                Err(e) => old(self)@.jail_error(validator_id@) == Some(e) && final(self)@ == old(
                    self,
                )@,
            },
    {
        match self.check_jail(validator_id) {
            Some(e) => {
                return Err(e);
            },
            None => {},
        }
        let k = find_validator(&self.validators, validator_id);
        self.set_status(k, ValidatorStatus::Jailed);
        let ghost before = self@.jailed_validators;
        self.jailed_validators.push((validator_id.clone(), now, 0));
        assert(self@.jailed_validators =~= before.push((validator_id@, now, 0u64)));
        Ok(())
    }

    /// Sets a jailed validator free once `min_unjail_interval` has passed since
    /// it was jailed, and closes its open jail record at `now`.
    pub fn unjail_validator(
        &mut self,
        validator_id: &AccountId,
        min_unjail_interval: u64,
        now: Timestamp,
    ) -> (r: Result<(), ValidatorSetError>)
        ensures
            match r {
                Ok(_) => old(self)@.unjail_error(validator_id@, min_unjail_interval, now) is None
                    && final(self)@ == old(self)@.unjailed(validator_id@, now),
                Err(e) => old(self)@.unjail_error(validator_id@, min_unjail_interval, now) == Some(
                    e,
                ) && final(self)@ == old(self)@,
            },
    {
        let k = find_validator(&self.validators, validator_id);
        if k >= self.validators.len() {
            return Err(ValidatorSetError::ValidatorNotFound);
        }
        match self.validators[k].status {
            ValidatorStatus::Jailed => {},
            _ => {
                return Err(ValidatorSetError::InvalidState);
            },
        }
        let j = find_open_jail_record(&self.jailed_validators, validator_id);
        if j >= self.jailed_validators.len() {
            return Err(ValidatorSetError::JailRecordNotFound);
        }
        let jailed_at = self.jailed_validators[j].1;
        if now < jailed_at || now - jailed_at < min_unjail_interval {
            return Err(ValidatorSetError::JailedTooShort);
        }
        self.set_status(k, ValidatorStatus::Active);
        let id = self.jailed_validators[j].0.clone();
        let ghost before = self@.jailed_validators;
        self.jailed_validators.set(j, (id, jailed_at, now));
        assert(self@.jailed_validators =~= before.update(
            j as int,
            (before[j as int].0, jailed_at, now),
        ));
        Ok(())
    }

    /// Marks an active validator as waiting for the slash `slash_id`; leaves
    /// any other validator, and a set without the validator, as it is.
    pub fn wait_for_slashing_validator(&mut self, validator_id: &AccountId, slash_id: u64)
        ensures
            final(self)@ == old(self)@.waiting_for_slash(validator_id@, slash_id),
    {
        let k = find_validator(&self.validators, validator_id);
        if k < self.validators.len() {
            match self.validators[k].status {
                ValidatorStatus::Active => {
                    self.set_status(k, ValidatorStatus::WaitForSlash(slash_id));
                },
                _ => {},
            }
        }
    }

    /// One teardown step within the budget; see `ValidatorSetModel::cleared`.
    pub fn clear(&mut self, meter: &mut GasMeter, max_gas: u64) -> (r: ProcessingResult)
        ensures
            (final(self)@, *final(meter), r) == old(self)@.cleared(*old(meter), max_gas),
    {
        let n = self.validators.len();
        let mut removed: usize = 0;
        let mut exceeded = false;
        while removed < n && !exceeded
            invariant
                n == self.validators.len(),
                *self == *old(self),
                removed <= n,
                *meter == old(meter).burned_times(removed as nat),
                exceeded ==> removed > 0 && meter.used > max_gas,
                exceeded ==> old(meter).steps_within(max_gas, n as nat) == removed,
                !exceeded ==> old(meter).steps_within(max_gas, n as nat) == removed
                    + meter.steps_within(max_gas, (n - removed) as nat),
                !exceeded && removed > 0 ==> meter.used <= max_gas,
            decreases n - removed, if exceeded { 0int } else { 1int },
        {
            proof {
                lemma_burned_times_succ(*old(meter), removed as nat);
            }
            meter.burn();
            removed = removed + 1;
            if meter.used_gas() > max_gas {
                exceeded = true;
            }
        }
        if exceeded {
            let rest = self.validators.split_off(removed);
            self.validators = rest;
            assert(self@.validators =~= old(self)@.validators.skip(removed as int));
            ProcessingResult::NeedMoreGas
        } else {
            self.validators = Vec::new();
            self.total_stake = 0;
            assert(self@.validators =~= Seq::<ValidatorModel>::empty());
            ProcessingResult::Done
        }
    }

    /// Records that the appchain has acknowledged the set.
    pub fn set_matured(&mut self)
        ensures
            final(self)@ == old(self)@.matured(),
    {
        self.matured_in_appchain = true;
    }

    /// A copy of the set.
    pub fn duplicate(&self) -> (r: ValidatorSet)
        ensures
            r@ == self@,
    {
        let ghost all = validator_views(self.validators@);
        let mut validators: Vec<Validator> = Vec::new();
        let mut i: usize = 0;
        proof {
            assert(validator_views(validators@) =~= all.take(0));
        }
        while i < self.validators.len()
            invariant
                i <= self.validators.len(),
                all == validator_views(self.validators@),
                validator_views(validators@) == all.take(i as int),
            decreases self.validators.len() - i,
        {
            let ghost before = validator_views(validators@);
            validators.push(self.validators[i].duplicate());
            proof {
                assert(validator_views(validators@) =~= before.push(all[i as int]));
                assert(all.take(i as int + 1) =~= all.take(i as int).push(all[i as int]));
            }
            i = i + 1;
        }
        proof {
            assert(all.take(i as int) =~= all);
        }
        ValidatorSet {
            id: self.id,
            validators,
            total_stake: self.total_stake,
            sequence: self.sequence,
            timestamp: self.timestamp,
            matured_in_appchain: self.matured_in_appchain,
            jailed_validators: self.jailed_validators(),
        }
    }
}

/// Read access to a validator set.
pub trait ValidatorSetViewer {
    fn contains_validator(&self, validator_id: &AccountId) -> bool;

    fn get_validator(&self, validator_id: &AccountId) -> Option<&Validator>;

    fn get_validator_by_index(&self, index: &u64) -> Option<&Validator>;

    fn get_validator_ids(&self) -> Vec<AccountId>;

    fn id(&self) -> u64;

    fn sequence(&self) -> u64;

    fn timestamp(&self) -> Timestamp;

    fn matured_in_appchain(&self) -> bool;

    fn total_stake(&self) -> u128;

    fn validator_count(&self) -> u64;

    fn active_validators(&self) -> Vec<(AccountId, u128)>;

    fn jailed_validators(&self) -> Vec<(AccountId, Timestamp, Timestamp)>;

    fn slash_ack_validators(&self) -> Vec<AccountId>;
}

impl ValidatorSetViewer for ValidatorSet {
    fn contains_validator(&self, validator_id: &AccountId) -> (r: bool)
        ensures
            r == self@.contains_validator(validator_id@),
    {
        find_validator(&self.validators, validator_id) < self.validators.len()
    }

    fn get_validator(&self, validator_id: &AccountId) -> (r: Option<&Validator>)
        ensures
            match r {
                Some(v) => self@.contains_validator(validator_id@) && v@
                    == self@.validators[self@.position(validator_id@)],
                None => !self@.contains_validator(validator_id@),
            },
    {
        let k = find_validator(&self.validators, validator_id);
        if k < self.validators.len() {
            Some(&self.validators[k])
        } else {
            None
        }
    }

    fn get_validator_by_index(&self, index: &u64) -> (r: Option<&Validator>)
        ensures
            match r {
                Some(v) => *index < self@.validators.len() && v@ == self@.validators[*index as int],
                None => *index >= self@.validators.len(),
            },
    {
        if *index < self.validators.len() as u64 {
            Some(&self.validators[*index as usize])
        } else {
            None
        }
    }

    fn get_validator_ids(&self) -> (r: Vec<AccountId>)
        ensures
            id_views(r@) == validator_ids(self@.validators),
    {
        let ghost all = validator_ids(self@.validators);
        let mut ids: Vec<AccountId> = Vec::new();
        let mut i: usize = 0;
        proof {
            assert(id_views(ids@) =~= all.take(0));
        }
        while i < self.validators.len()
            invariant
                i <= self.validators.len(),
                all == validator_ids(self@.validators),
                id_views(ids@) == all.take(i as int),
            decreases self.validators.len() - i,
        {
            let ghost before = id_views(ids@);
            ids.push(self.validators[i].validator_id.clone());
            proof {
                assert(id_views(ids@) =~= before.push(all[i as int]));
                assert(all.take(i as int + 1) =~= all.take(i as int).push(all[i as int]));
            }
            i = i + 1;
        }
        proof {
            assert(all.take(i as int) =~= all);
        }
        ids
    }

    fn id(&self) -> (r: u64)
        ensures
            r == self@.id,
    {
        self.id
    }

    fn sequence(&self) -> (r: u64)
        ensures
            r == self@.sequence,
    {
        self.sequence
    }

    fn timestamp(&self) -> (r: Timestamp)
        ensures
            r == self@.timestamp,
    {
        self.timestamp
    }

    fn matured_in_appchain(&self) -> (r: bool)
        ensures
            r == self@.matured_in_appchain,
    {
        self.matured_in_appchain
    }

    fn total_stake(&self) -> (r: u128)
        ensures
            r == self@.total_stake,
    {
        self.total_stake
    }

    fn validator_count(&self) -> (r: u64)
        ensures
            r == self@.validators.len(),
    {
        self.validators.len() as u64
    }

    fn active_validators(&self) -> (r: Vec<(AccountId, u128)>)
        ensures
            stake_views(r@) == self@.active_validators(),
    {
        let ghost pred = |v: ValidatorModel| is_active(v);
        let ghost pair = |v: ValidatorModel| (v.validator_id, v.total_stake);
        let ghost all = self@.validators;
        let mut result: Vec<(AccountId, u128)> = Vec::new();
        let mut i: usize = 0;
        proof {
            reveal(Seq::filter);
            assert(all.take(0) =~= Seq::empty());
            assert(stake_views(result@) =~= Seq::empty());
        }
        while i < self.validators.len()
            invariant
                i <= self.validators.len(),
                all == self@.validators,
                pred == |v: ValidatorModel| is_active(v),
                pair == |v: ValidatorModel| (v.validator_id, v.total_stake),
                stake_views(result@) == all.take(i as int).filter(pred).map_values(pair),
            decreases self.validators.len() - i,
        {
            let ghost seen = all.take(i as int);
            let ghost v = all[i as int];
            let ghost before = stake_views(result@);
            proof {
                assert(all.take(i as int + 1) =~= seen.push(v));
                seen.lemma_filter_push(v, pred);
                seen.filter(pred).lemma_push_map_commute(pair, v);
            }
            match self.validators[i].status {
                ValidatorStatus::Active => {
                    result.push(
                        (self.validators[i].validator_id.clone(), self.validators[i].total_stake),
                    );
                    proof {
                        assert(stake_views(result@) =~= before.push(pair(v)));
                    }
                },
                _ => {},
            }
            i = i + 1;
        }
        proof {
            assert(all.take(i as int) =~= all);
        }
        result
    }

    fn jailed_validators(&self) -> (r: Vec<(AccountId, Timestamp, Timestamp)>)
        ensures
            record_views(r@) == self@.jailed_validators,
    {
        let ghost all = self@.jailed_validators;
        let mut result: Vec<(AccountId, Timestamp, Timestamp)> = Vec::new();
        let mut i: usize = 0;
        proof {
            assert(record_views(result@) =~= all.take(0));
        }
        while i < self.jailed_validators.len()
            invariant
                i <= self.jailed_validators.len(),
                all == self@.jailed_validators,
                record_views(result@) == all.take(i as int),
            decreases self.jailed_validators.len() - i,
        {
            let ghost before = record_views(result@);
            let record = &self.jailed_validators[i];
            result.push((record.0.clone(), record.1, record.2));
            proof {
                assert(record_views(result@) =~= before.push(all[i as int]));
                assert(all.take(i as int + 1) =~= all.take(i as int).push(all[i as int]));
            }
            i = i + 1;
        }
        proof {
            assert(all.take(i as int) =~= all);
        }
        result
    }

    fn slash_ack_validators(&self) -> (r: Vec<AccountId>)
        ensures
            id_views(r@) == self@.slash_ack_validators(),
    {
        let ghost pred = |v: ValidatorModel| is_slash_ack(v);
        let ghost name = |v: ValidatorModel| v.validator_id;
        let ghost all = self@.validators;
        let mut result: Vec<AccountId> = Vec::new();
        let mut i: usize = 0;
        proof {
            reveal(Seq::filter);
            assert(all.take(0) =~= Seq::empty());
            assert(id_views(result@) =~= Seq::empty());
        }
        while i < self.validators.len()
            invariant
                i <= self.validators.len(),
                all == self@.validators,
                pred == |v: ValidatorModel| is_slash_ack(v),
                name == |v: ValidatorModel| v.validator_id,
                id_views(result@) == all.take(i as int).filter(pred).map_values(name),
            decreases self.validators.len() - i,
        {
            let ghost seen = all.take(i as int);
            let ghost v = all[i as int];
            let ghost before = id_views(result@);
            proof {
                assert(all.take(i as int + 1) =~= seen.push(v));
                seen.lemma_filter_push(v, pred);
                seen.filter(pred).lemma_push_map_commute(name, v);
            }
            match self.validators[i].status {
                ValidatorStatus::Jailed => {
                    result.push(self.validators[i].validator_id.clone());
                    proof {
                        assert(id_views(result@) =~= before.push(name(v)));
                    }
                },
                ValidatorStatus::WaitForSlash(_) => {
                    result.push(self.validators[i].validator_id.clone());
                    proof {
                        assert(id_views(result@) =~= before.push(name(v)));
                    }
                },
                _ => {},
            }
            i = i + 1;
        }
        proof {
            assert(all.take(i as int) =~= all);
        }
        result
    }
}

impl IndexedAndClearable for ValidatorSet {
    open spec fn spec_set_index(element: ValidatorSetModel, index: u64) -> ValidatorSetModel {
        element
    }

    open spec fn spec_clear_extra_storage(
        element: ValidatorSetModel,
        meter: GasMeter,
        max_gas: u64,
    ) -> (ValidatorSetModel, GasMeter, ProcessingResult) {
        element.cleared(meter, max_gas)
    }

    /// A validator set carries its own id; the index is not recorded.
    fn set_index(&mut self, index: &u64) {
    }

    fn clear_extra_storage(&mut self, meter: &mut GasMeter, max_gas: u64) -> (r: ProcessingResult) {
        self.clear(meter, max_gas)
    }
}

} // verus!

use crate::anchor::{
    lemma_append_keeps_inv, lemma_latest_has_last_index, lemma_update_keeps_inv, AnchorError,
    AnchorModel, AppchainAnchor,
};
use crate::validator_set::{
    created, creation_error, lemma_transitions_keep_wf, model_of, stake_views, AccountId,
    RestakingBaseValidatorSet, Timestamp, ValidatorSet, ValidatorSetModel,
};
use vstd::prelude::*;

verus! {

/// Answers of the staking ledger.
pub trait RestakingBaseCallbacks {
    /// The answer to `get_validator_set`: the report, or `None` where the call
    /// failed. A report becomes the next validator set of the history; the
    /// index of the new set is returned.
    fn get_validator_set_callback(
        &mut self,
        report: Option<RestakingBaseValidatorSet>,
        now: Timestamp,
    ) -> Result<Option<u64>, AnchorError>;

    /// The answer to a slash request for `slash_items`: the id of the
    /// request, or `None` where the call failed. The first validator of the
    /// items then waits for that slash.
    fn slash_request_callback(
        &mut self,
        slash_items: Vec<(AccountId, u128)>,
        slash_id: Option<u64>,
    ) -> Result<(), AnchorError>;
}

impl AnchorModel {
    /// Why the report cannot become the next validator set, if so.
    pub open spec fn new_set_error(self, snapshot: Seq<(Seq<char>, u128)>) -> Option<AnchorError> {
        match creation_error(
            self.latest_validator_set(),
            snapshot,
            self.anchor_settings.min_validator_staking_amount,
        ) {
            Some(e) => Some(AnchorError::ValidatorSet(e)),
            None => if self.validator_set_histories.next_index() > u64::MAX {
                Some(AnchorError::Overflow)
            } else {
                None
            },
        }
    }

    /// The validator set that the report makes at `now`.
    pub open spec fn new_set(
        self,
        snapshot: Seq<(Seq<char>, u128)>,
        sequence: u64,
        now: Timestamp,
    ) -> ValidatorSetModel {
        created(
            self.latest_validator_set(),
            snapshot,
            sequence,
            self.anchor_settings.min_validator_staking_amount,
            now,
        )
    }

    pub open spec fn slash_answer_error(self, items: Seq<(Seq<char>, u128)>) -> Option<
        AnchorError,
    > {
        if self.latest_validator_set() is None {
            Some(AnchorError::NoValidatorSet)
        } else if items.len() == 0 {
            Some(AnchorError::InvalidValue)
        } else {
            None
        }
    }
}

impl AppchainAnchor {
    /// The validator set that follows the latest one on the report.
    pub fn generate_new_validator_set(
        &self,
        restaking_base_vs: &RestakingBaseValidatorSet,
        now: Timestamp,
    ) -> (r: Result<ValidatorSet, AnchorError>)
        ensures
            match r {
                Ok(set) => {
                    &&& creation_error(
                        self@.latest_validator_set(),
                        stake_views(restaking_base_vs.validator_set@),
                        self@.anchor_settings.min_validator_staking_amount,
                    ) is None
                    &&& set@ == self@.new_set(
                        stake_views(restaking_base_vs.validator_set@),
                        restaking_base_vs.sequence,
                        now,
                    )
                    &&& set@.wf()
                },
                Err(e) => {
                    let error = creation_error(
                        self@.latest_validator_set(),
                        stake_views(restaking_base_vs.validator_set@),
                        self@.anchor_settings.min_validator_staking_amount,
                    );
                    error is Some && e == AnchorError::ValidatorSet(error->0)
                },
            },
    {
        let latest = self.validator_set_histories.get_last();
        assert(model_of(latest) == self@.latest_validator_set());
        match ValidatorSet::new(
            latest,
            restaking_base_vs,
            self.anchor_settings.min_validator_staking_amount,
            now,
        ) {
            Ok(set) => Ok(set),
            Err(e) => Err(AnchorError::ValidatorSet(e)),
        }
    }
}

impl RestakingBaseCallbacks for AppchainAnchor {
    fn get_validator_set_callback(
        &mut self,
        report: Option<RestakingBaseValidatorSet>,
        now: Timestamp,
    ) -> (r: Result<Option<u64>, AnchorError>)
        ensures
            match report {
                None => r == Ok::<Option<u64>, AnchorError>(None) && final(self)@ == old(self)@,
                Some(vs) => match r {
                    Ok(index) => {
                        &&& old(self)@.new_set_error(stake_views(vs.validator_set@)) is None
                        &&& index == Some(old(self)@.validator_set_histories.next_index() as u64)
                        &&& final(self)@ == (AnchorModel {
                            validator_set_histories: old(self)@.validator_set_histories.append(
                                old(self)@.new_set(
                                    stake_views(vs.validator_set@),
                                    vs.sequence,
                                    now,
                                ),
                            ),
                            ..old(self)@
                        })
                    },
                    Err(e) => old(self)@.new_set_error(stake_views(vs.validator_set@)) == Some(e)
                        && final(self)@ == old(self)@,
                },
            },
            old(self)@.inv() ==> final(self)@.inv(),
    {
        let restaking_base_vs = match report {
            Some(vs) => vs,
            None => {
                return Ok(None);
            },
        };
        let validator_set = match self.generate_new_validator_set(&restaking_base_vs, now) {
            Ok(set) => set,
            Err(e) => {
                return Err(e);
            },
        };
        if !(self.validator_set_histories.start_index == 0 && !self.validator_set_histories.contains(
            &0,
        )) && self.validator_set_histories.end_index == u64::MAX {
            return Err(AnchorError::Overflow);
        }
        proof {
            if self@.inv() {
                lemma_latest_has_last_index(self@);
                lemma_append_keeps_inv(self@, validator_set@);
            }
        }
        let index = self.validator_set_histories.append(validator_set);
        Ok(Some(index))
    }

    fn slash_request_callback(
        &mut self,
        slash_items: Vec<(AccountId, u128)>,
        slash_id: Option<u64>,
    ) -> (r: Result<(), AnchorError>)
        ensures
            match slash_id {
                None => r == Ok::<(), AnchorError>(()) && final(self)@ == old(self)@,
                Some(id) => match r {
                    Ok(_) => old(self)@.slash_answer_error(stake_views(slash_items@)) is None
                        && final(self)@ == old(self)@.with_latest(
                        old(self)@.latest_validator_set()->0.waiting_for_slash(
                            slash_items@[0].0@,
                            id,
                        ),
                    ),
                    Err(e) => old(self)@.slash_answer_error(stake_views(slash_items@)) == Some(e)
                        && final(self)@ == old(self)@,
                },
            },
            old(self)@.inv() ==> final(self)@.inv(),
    {
        let id = match slash_id {
            Some(id) => id,
            None => {
                return Ok(());
            },
        };
        let latest = match self.validator_set_histories.get_last() {
            Some(set) => set,
            None => {
                return Err(AnchorError::NoValidatorSet);
            },
        };
        if slash_items.len() == 0 {
            return Err(AnchorError::InvalidValue);
        }
        let mut validator_set = latest.duplicate();
        validator_set.wait_for_slashing_validator(&slash_items[0].0, id);
        proof {
            lemma_transitions_keep_wf(latest@, slash_items@[0].0@, 0, id, 0);
            if self@.inv() {
                lemma_update_keeps_inv(
                    self@,
                    self.validator_set_histories.end_index,
                    validator_set@,
                );
            }
        }
        self.validator_set_histories.update_last(validator_set);
        Ok(())
    }
}

} // verus!

use crate::anchor::{AnchorError, AnchorModel, AppchainAnchor};
use crate::types::RewardDistribution;
use vstd::prelude::*;

verus! {

/// Answers of the reward token contract.
pub trait RewardTokenCallbacks {
    /// The answer to a reward transfer: the amount that the receiver
    /// accepted, or `None` where the transfer failed.
    fn ft_transfer_call_callback(
        &mut self,
        reward_distribution: RewardDistribution,
        reward_distribution_index: u64,
        accepted_amount: Option<u128>,
    ) -> Result<SettlementOutcome, AnchorError>;

    /// The answer to a balance query: the balance, or `None` where the query
    /// failed.
    fn ft_balance_of_callback(&mut self, balance: Option<u128>);
}

/// How a reward transfer was settled.
#[derive(Clone, Copy, Debug, PartialEq, Eq, Structural)]
pub enum SettlementOutcome {
    /// All was accepted: the reward is paid out.
    Settled,
    /// A part was accepted: the rest stays to be paid out.
    PartlyAccepted,
    /// Nothing was accepted: nothing has changed.
    NothingAccepted,
    /// The transfer failed: nothing has changed.
    TransferFailed,
}

/// How a transfer of `requested` is settled when `accepted` comes back.
pub open spec fn settlement_of(requested: u128, accepted: Option<u128>) -> SettlementOutcome {
    match accepted {
        None => SettlementOutcome::TransferFailed,
        Some(a) => if a == requested {
            SettlementOutcome::Settled
        } else if a > 0 {
            SettlementOutcome::PartlyAccepted
        } else {
            SettlementOutcome::NothingAccepted
        },
    }
}

/// The reward after the settlement: paid out when all was accepted; reduced
/// to the rest, and not paid out, when a part was.
pub open spec fn settled_reward(reward: RewardDistribution, accepted: u128) -> RewardDistribution {
    if accepted == reward.amount {
        RewardDistribution { distributed: true, ..reward }
    } else {
        RewardDistribution {
            amount: (reward.amount - accepted) as u128,
            distributed: false,
            ..reward
        }
    }
}

impl AnchorModel {
    /// Why the settlement is refused, if so.
    pub open spec fn settle_error(
        self,
        reward: RewardDistribution,
        index: u64,
        accepted: Option<u128>,
    ) -> Option<AnchorError> {
        match accepted {
            None => None,
            Some(a) => if a > reward.amount {
                Some(AnchorError::AcceptedExceedsRequested)
            } else if a == 0 && reward.amount != 0 {
                None
            } else if self.locked_reward_token_amount < a {
                Some(AnchorError::InsufficientEscrow)
            } else if !(self.pending_rewards.start_index <= index
                <= self.pending_rewards.end_index) {
                Some(AnchorError::InvalidRewardIndex)
            } else {
                None
            },
        }
    }

    /// The anchor after the settlement: the escrow less what was accepted, the
    /// reward at `index` written anew.
    pub open spec fn settled(
        self,
        reward: RewardDistribution,
        index: u64,
        accepted: Option<u128>,
    ) -> AnchorModel {
        match settlement_of(reward.amount, accepted) {
            SettlementOutcome::Settled | SettlementOutcome::PartlyAccepted => AnchorModel {
                locked_reward_token_amount: (self.locked_reward_token_amount
                    - accepted->0) as u128,
                pending_rewards: self.pending_rewards.update(
                    index,
                    settled_reward(reward, accepted->0),
                ),
                ..self
            },
            _ => self,
        }
    }
}

impl RewardTokenCallbacks for AppchainAnchor {
    fn ft_transfer_call_callback(
        &mut self,
        reward_distribution: RewardDistribution,
        reward_distribution_index: u64,
        accepted_amount: Option<u128>,
    ) -> (r: Result<SettlementOutcome, AnchorError>)
        ensures
            match r {
                Ok(outcome) => {
                    &&& old(self)@.settle_error(
                        reward_distribution,
                        reward_distribution_index,
                        accepted_amount,
                    ) is None
                    &&& outcome == settlement_of(reward_distribution.amount, accepted_amount)
                    &&& final(self)@ == old(self)@.settled(
                        reward_distribution,
                        reward_distribution_index,
                        accepted_amount,
                    )
                },
                Err(e) => old(self)@.settle_error(
                    reward_distribution,
                    reward_distribution_index,
                    accepted_amount,
                ) == Some(e) && final(self)@ == old(self)@,
            },
    {
        let accepted = match accepted_amount {
            Some(amount) => amount,
            None => {
                return Ok(SettlementOutcome::TransferFailed);
            },
        };
        if accepted > reward_distribution.amount {
            return Err(AnchorError::AcceptedExceedsRequested);
        }
        if accepted == 0 && reward_distribution.amount != 0 {
            return Ok(SettlementOutcome::NothingAccepted);
        }
        if self.locked_reward_token_amount < accepted {
            return Err(AnchorError::InsufficientEscrow);
        }
        if !(self.pending_rewards.start_index <= reward_distribution_index
            && reward_distribution_index <= self.pending_rewards.end_index) {
            return Err(AnchorError::InvalidRewardIndex);
        }
        self.locked_reward_token_amount = self.locked_reward_token_amount - accepted;
        if accepted == reward_distribution.amount {
            let paid = RewardDistribution {
                validator_set_id: reward_distribution.validator_set_id,
                amount: reward_distribution.amount,
                timestamp: reward_distribution.timestamp,
                distributed: true,
            };
            let written = self.pending_rewards.update(&reward_distribution_index, paid);
            assert(written is Ok);
            Ok(SettlementOutcome::Settled)
        } else {
            let rest = RewardDistribution {
                validator_set_id: reward_distribution.validator_set_id,
                amount: reward_distribution.amount - accepted,
                timestamp: reward_distribution.timestamp,
                distributed: false,
            };
            let written = self.pending_rewards.update(&reward_distribution_index, rest);
            assert(written is Ok);
            Ok(SettlementOutcome::PartlyAccepted)
        }
    }

    fn ft_balance_of_callback(&mut self, balance: Option<u128>)
        ensures
            final(self)@ == match balance {
                Some(b) => AnchorModel { locked_reward_token_amount: b, ..old(self)@ },
                None => old(self)@,
            },
    {
        match balance {
            Some(b) => {
                self.locked_reward_token_amount = b;
            },
            None => {},
        }
    }
}

} // verus!

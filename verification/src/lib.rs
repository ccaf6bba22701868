//! Anchor of an appchain: the validator-set history, the validator-set change
//! packets derived from it, slash handling and the reward escrow, as a state
//! machine over plain values. Every call that the anchor dispatches to another
//! contract is returned as a request value; every answer is handed back to a
//! callback function.

pub mod anchor;
pub mod anchor_viewer;
pub mod appchain_lifecycle;
pub mod codec;
pub mod ext_contracts;
pub mod gas;
pub mod keyed;
pub mod lookup_array;
pub mod near_ibc_actions;
pub mod packet;
pub mod permissionless_actions;
pub mod restaking_base_actions;
pub mod restaking_base_callbacks;
pub mod reward_token_callbacks;
pub mod settings_manager;
pub mod storage_migration;
pub mod sudo_actions;
pub mod types;
pub mod validator_set;

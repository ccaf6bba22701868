use crate::anchor::{AnchorError, AnchorModel, AppchainAnchor};
use crate::codec::{calculate_address, decode_ed25519_pubkey, decoded_pubkey, sha256_digest};
use crate::keyed::{value_of, with_entry, without_entry};
use crate::validator_set::AccountId;
use vstd::prelude::*;

verus! {

/// What the staking ledger tells the anchor.
pub trait RestakingBaseActions {
    /// Registers the consensus key of a staker. The key is given as
    /// `ed25519:` and base64.
    fn bond(&mut self, caller: &AccountId, staker_id: AccountId, key: String) -> Result<
        (),
        AnchorError,
    >;

    /// Replaces the consensus key of a staker.
    fn change_key(&mut self, caller: &AccountId, staker_id: AccountId, key: String) -> Result<
        (),
        AnchorError,
    >;
}

/// The address that belongs to a public key.
pub open spec fn address_of(public_key: Seq<u8>) -> Seq<u8> {
    sha256_digest(public_key).take(20)
}

impl AnchorModel {
    /// The anchor with `public_key` registered for `staker_id` under
    /// `address`.
    pub open spec fn with_key(
        self,
        staker_id: Seq<char>,
        public_key: Seq<u8>,
        address: Seq<u8>,
    ) -> AnchorModel {
        AnchorModel {
            validator_id_to_pubkey_map: with_entry(
                self.validator_id_to_pubkey_map,
                staker_id,
                public_key,
            ),
            validator_address_to_id_map: with_entry(
                self.validator_address_to_id_map,
                address,
                staker_id,
            ),
            ..self
        }
    }

    /// The anchor without the address `address`.
    pub open spec fn without_address(self, address: Seq<u8>) -> AnchorModel {
        AnchorModel {
            validator_address_to_id_map: without_entry(self.validator_address_to_id_map, address),
            ..self
        }
    }

    pub open spec fn bond_error(self, caller: Seq<char>, key: Seq<char>) -> Option<AnchorError> {
        if caller != self.restaking_base_contract {
            Some(AnchorError::NotRestakingBaseContract)
        } else if decoded_pubkey(key) is None {
            Some(AnchorError::InvalidPublicKey)
        } else {
            None
        }
    }

    pub open spec fn change_key_error(
        self,
        caller: Seq<char>,
        staker_id: Seq<char>,
        key: Seq<char>,
    ) -> Option<AnchorError> {
        if caller != self.restaking_base_contract {
            Some(AnchorError::NotRestakingBaseContract)
        } else if value_of(self.validator_id_to_pubkey_map, staker_id) is None {
            Some(AnchorError::NotBonded)
        } else if decoded_pubkey(key) is None {
            Some(AnchorError::InvalidPublicKey)
        } else {
            None
        }
    }
}

impl AppchainAnchor {
    /// Registers `public_key` for `staker_id`, and `staker_id` under
    /// `address`.
    pub fn register_key(&mut self, staker_id: AccountId, public_key: Vec<u8>, address: Vec<u8>)
        ensures
            final(self)@ == old(self)@.with_key(staker_id@, public_key@, address@),
    {
        self.validator_id_to_pubkey_map.insert(staker_id.clone(), public_key);
        self.validator_address_to_id_map.insert(address, staker_id);
    }

    /// Forgets the address `address`.
    pub fn unregister_address(&mut self, address: &Vec<u8>)
        ensures
            final(self)@ == old(self)@.without_address(address@),
    {
        self.validator_address_to_id_map.remove(address);
    }
}

impl RestakingBaseActions for AppchainAnchor {
    fn bond(&mut self, caller: &AccountId, staker_id: AccountId, key: String) -> (r: Result<
        (),
        AnchorError,
    >)
        ensures
            match r {
                Ok(_) => old(self)@.bond_error(caller@, key@) is None && final(self)@ == old(
                    self,
                )@.with_key(
                    staker_id@,
                    decoded_pubkey(key@)->0,
                    address_of(decoded_pubkey(key@)->0),
                ),
                Err(e) => old(self)@.bond_error(caller@, key@) == Some(e) && final(self)@ == old(
                    self,
                )@,
            },
    {
        if !self.is_restaking_base_contract(caller) {
            return Err(AnchorError::NotRestakingBaseContract);
        }
        let public_key = match decode_ed25519_pubkey(&key) {
            Ok(bytes) => bytes,
            Err(_) => {
                return Err(AnchorError::InvalidPublicKey);
            },
        };
        let address = calculate_address(public_key.as_slice());
        self.register_key(staker_id, public_key, address);
        Ok(())
    }

    fn change_key(&mut self, caller: &AccountId, staker_id: AccountId, key: String) -> (r: Result<
        (),
        AnchorError,
    >)
        ensures
            match r {
                Ok(_) => {
                    let old_key = value_of(old(self)@.validator_id_to_pubkey_map, staker_id@)->0;
                    let new_key = decoded_pubkey(key@)->0;
                    &&& old(self)@.change_key_error(caller@, staker_id@, key@) is None
                    &&& final(self)@ == old(self)@.without_address(address_of(old_key)).with_key(
                        staker_id@,
                        new_key,
                        address_of(new_key),
                    )
                },
                Err(e) => old(self)@.change_key_error(caller@, staker_id@, key@) == Some(e)
                    && final(self)@ == old(self)@,
            },
    {
        if !self.is_restaking_base_contract(caller) {
            return Err(AnchorError::NotRestakingBaseContract);
        }
        let old_address = match self.validator_id_to_pubkey_map.get(&staker_id) {
            Some(old_key) => calculate_address(old_key.as_slice()),
            None => {
                return Err(AnchorError::NotBonded);
            },
        };
        let public_key = match decode_ed25519_pubkey(&key) {
            Ok(bytes) => bytes,
            Err(_) => {
                return Err(AnchorError::InvalidPublicKey);
            },
        };
        let address = calculate_address(public_key.as_slice());
        self.unregister_address(&old_address);
        self.register_key(staker_id, public_key, address);
        Ok(())
    }
}

} // verus!

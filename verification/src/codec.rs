use base64::Engine;
use bech32::ToBase32;
use prost::Message;
use vstd::prelude::*;

verus! {

/// The error of `base64::Engine::decode`; nothing is known of its content.
#[verifier::external_type_specification]
#[verifier::external_body]
pub struct ExBase64DecodeError(base64::DecodeError);

/// The error of `bech32::encode`; nothing is known of its content.
#[verifier::external_type_specification]
#[verifier::external_body]
pub struct ExBech32Error(bech32::Error);

/// The bytes that the standard base64 alphabet with padding decodes `text`
/// to, or `None` where `text` is not such an encoding.
pub uninterp spec fn base64_decoding(text: Seq<char>) -> Option<Seq<u8>>;

/// The standard base64 encoding of `bytes`, with padding.
pub uninterp spec fn base64_encoding(bytes: Seq<u8>) -> Seq<char>;

/// The SHA-256 digest of `bytes`.
pub uninterp spec fn sha256_digest(bytes: Seq<u8>) -> Seq<u8>;

/// The bech32 string with the human-readable part `hrp` and the payload
/// `data`.
pub uninterp spec fn bech32_encoding(hrp: Seq<char>, data: Seq<u8>) -> Seq<char>;

/// The protobuf encoding of a validator update with an ed25519 key.
pub uninterp spec fn validator_update_encoding(public_key: Seq<u8>, power: i64) -> Seq<u8>;

/// Whether `text` is accepted as the identifier of a chain.
pub uninterp spec fn chain_id_accepted(text: Seq<char>) -> bool;

pub open spec fn is_lower(c: char) -> bool {
    'a' <= c <= 'z'
}

pub open spec fn is_upper(c: char) -> bool {
    'A' <= c <= 'Z'
}

/// A human-readable part that bech32 accepts: 1 to 83 printable ASCII
/// characters, not both lower and upper case letters among them.
pub open spec fn bech32_hrp_valid(hrp: Seq<char>) -> bool {
    &&& 1 <= hrp.len() <= 83
    &&& forall|i: int| 0 <= i < hrp.len() ==> 33 <= (#[trigger] hrp[i]) as u32 <= 126
    &&& !((exists|i: int| 0 <= i < hrp.len() && is_lower(#[trigger] hrp[i])) && (exists|i: int|
        0 <= i < hrp.len() && is_upper(#[trigger] hrp[i])))
}

/// `text` without the copies of `prefix` that it starts with.
pub open spec fn without_leading(text: Seq<char>, prefix: Seq<char>) -> Seq<char>
    decreases text.len(),
{
    if prefix.len() > 0 && prefix.is_prefix_of(text) {
        without_leading(text.skip(prefix.len() as int), prefix)
    } else {
        text
    }
}

pub open spec fn digit_char(d: int) -> char {
    if d == 0 {
        '0'
    } else if d == 1 {
        '1'
    } else if d == 2 {
        '2'
    } else if d == 3 {
        '3'
    } else if d == 4 {
        '4'
    } else if d == 5 {
        '5'
    } else if d == 6 {
        '6'
    } else if d == 7 {
        '7'
    } else if d == 8 {
        '8'
    } else {
        '9'
    }
}

/// The decimal digits of `n`.
pub open spec fn decimal(n: nat) -> Seq<char>
    decreases n,
{
    if n < 10 {
        seq![digit_char(n as int)]
    } else {
        decimal(n / 10).push(digit_char((n % 10) as int))
    }
}

/// `base64::Engine::decode` on the engine `STANDARD`: the bytes that `text`
/// encodes, or the crate's error where it encodes none.
#[verifier::external_body]
fn base64_decode(text: &str) -> (r: Result<Vec<u8>, base64::DecodeError>)
    ensures
        match r {
            Ok(bytes) => base64_decoding(text@) == Some(bytes@),
            Err(_) => base64_decoding(text@) is None,
        },
{
    base64::engine::general_purpose::STANDARD.decode(text)
}

/// `base64::Engine::encode` on the engine `STANDARD`.
#[verifier::external_body]
fn base64_encode(bytes: &Vec<u8>) -> (r: String)
    ensures
        r@ == base64_encoding(bytes@),
{
    base64::engine::general_purpose::STANDARD.encode(bytes)
}

/// `near_sdk::env::sha256`: the digest, which is 32 bytes long.
#[verifier::external_body]
pub(crate) fn sha256(bytes: &[u8]) -> (r: Vec<u8>)
    ensures
        r@ == sha256_digest(bytes@),
        r@.len() == 32,
{
    near_sdk::env::sha256(bytes)
}

/// `bech32::encode` of the payload's base32 form, in the variant `Bech32`. It
/// fails exactly where the human-readable part is not valid.
#[verifier::external_body]
fn bech32_encode(hrp: &str, data: &Vec<u8>) -> (r: Result<String, bech32::Error>)
    ensures
        r is Ok <==> bech32_hrp_valid(hrp@),
        r is Ok ==> r->Ok_0@ == bech32_encoding(hrp@, data@),
{
    bech32::encode(hrp, data.to_base32(), bech32::Variant::Bech32)
}

/// `prost::Message::encode_to_vec` of a `tendermint_proto::abci::ValidatorUpdate`
/// that holds the ed25519 key and the power.
#[verifier::external_body]
pub(crate) fn encode_validator_update(public_key: &Vec<u8>, power: i64) -> (r: Vec<u8>)
    ensures
        r@ == validator_update_encoding(public_key@, power),
{
    tendermint_proto::abci::ValidatorUpdate {
        pub_key: Some(
            tendermint_proto::crypto::PublicKey {
                sum: Some(tendermint_proto::crypto::public_key::Sum::Ed25519(public_key.clone())),
            },
        ),
        power,
    }.encode_to_vec()
}

/// `ibc::core::host::types::identifiers::ChainId::new`: whether it accepts
/// the text.
#[verifier::external_body]
fn chain_id_is_valid(text: &str) -> (r: bool)
    ensures
        r == chain_id_accepted(text@),
{
    ibc::core::host::types::identifiers::ChainId::new(text).is_ok()
}

/// `str::trim_start_matches` with a string as the pattern: every leading copy
/// of the pattern is removed.
#[verifier::external_body]
fn trim_start_matches<'a>(text: &'a str, prefix: &str) -> (r: &'a str)
    requires
        prefix@.len() > 0,
    ensures
        r@ == without_leading(text@, prefix@),
{
    text.trim_start_matches(prefix)
}

/// `u64::to_string`: the decimal digits.
#[verifier::external_body]
fn u64_to_string(n: u64) -> (r: String)
    ensures
        r@ == decimal(n as nat),
{
    n.to_string()
}

#[derive(Clone, Copy, Debug, PartialEq, Eq, Structural)]
pub enum CodecError {
    /// The key is not base64.
    InvalidPublicKey,
    /// The human-readable part of an address is not valid.
    InvalidAddressPrefix,
}

pub open spec fn key_prefix() -> Seq<char> {
    "ed25519:"@
}

/// The key that `key` holds: the base64 decoding of what follows the
/// prefix `ed25519:`.
pub open spec fn decoded_pubkey(key: Seq<char>) -> Option<Seq<u8>> {
    base64_decoding(without_leading(key, key_prefix()))
}

/// Decodes a public key given as `ed25519:` and base64.
pub fn decode_ed25519_pubkey(key: &String) -> (r: Result<Vec<u8>, CodecError>)
    ensures
        match r {
            Ok(bytes) => decoded_pubkey(key@) == Some(bytes@),
            Err(e) => decoded_pubkey(key@) is None && e == CodecError::InvalidPublicKey,
        },
{
    proof {
        reveal_strlit("ed25519:");
    }
    let text = trim_start_matches(key.as_str(), "ed25519:");
    match base64_decode(text) {
        Ok(bytes) => Ok(bytes),
        Err(_) => Err(CodecError::InvalidPublicKey),
    }
}

/// The key in the form that `decode_ed25519_pubkey` reads.
pub fn encode_ed25519_pubkey(public_key: &Vec<u8>) -> (r: String)
    ensures
        r@ == key_prefix() + base64_encoding(public_key@),
{
    let encoded = base64_encode(public_key);
    String::from_str("ed25519:").concat(encoded.as_str())
}

/// The base64 form of `bytes`.
pub fn encode_base64(bytes: &Vec<u8>) -> (r: String)
    ensures
        r@ == base64_encoding(bytes@),
{
    base64_encode(bytes)
}

/// The address that belongs to a digest: its first 20 bytes.
pub fn address_of_hash(hash: &Vec<u8>) -> (r: Vec<u8>)
    requires
        hash@.len() >= 20,
    ensures
        r@ == hash@.take(20),
{
    let mut address: Vec<u8> = Vec::new();
    let mut i: usize = 0;
    while i < 20
        invariant
            i <= 20,
            hash@.len() >= 20,
            address@ == hash@.take(i as int),
        decreases 20 - i,
    {
        address.push(hash[i]);
        assert(hash@.take(i as int + 1) =~= hash@.take(i as int).push(hash@[i as int]));
        i = i + 1;
    }
    address
}

/// The address of a validator on the appchain: the first 20 bytes of the
/// SHA-256 digest of its public key.
pub fn calculate_address(public_key: &[u8]) -> (r: Vec<u8>)
    ensures
        r@ == sha256_digest(public_key@).take(20),
{
    let hash = sha256(public_key);
    address_of_hash(&hash)
}

/// The bech32 form of an address.
pub fn calculate_bech32_address(hrp: String, address: Vec<u8>) -> (r: Result<String, CodecError>)
    ensures
        match r {
            Ok(text) => bech32_hrp_valid(hrp@) && text@ == bech32_encoding(hrp@, address@),
            Err(e) => !bech32_hrp_valid(hrp@) && e == CodecError::InvalidAddressPrefix,
        },
{
    match bech32_encode(hrp.as_str(), &address) {
        Ok(text) => Ok(text),
        Err(_) => Err(CodecError::InvalidAddressPrefix),
    }
}

/// The chain id of an appchain at a revision: the id, a hyphen and the
/// revision number.
pub open spec fn chain_id_text(appchain_id: Seq<char>, revision: u64) -> Seq<char> {
    appchain_id + "-"@ + decimal(revision as nat)
}

/// The chain id of an appchain at a revision, or `None` where the result is
/// not accepted as a chain id.
pub fn make_chain_id(appchain_id: &String, revision: u64) -> (r: Option<String>)
    ensures
        match r {
            Some(text) => text@ == chain_id_text(appchain_id@, revision) && chain_id_accepted(
                text@,
            ),
            None => !chain_id_accepted(chain_id_text(appchain_id@, revision)),
        },
{
    let number = u64_to_string(revision);
    let text = appchain_id.clone().concat("-").concat(number.as_str());
    if chain_id_is_valid(text.as_str()) {
        Some(text)
    } else {
        None
    }
}

/// Whether `text` may name an appchain.
pub fn is_valid_chain_id(text: &String) -> (r: bool)
    ensures
        r == chain_id_accepted(text@),
{
    chain_id_is_valid(text.as_str())
}

/// The id under which the staking ledger knows the appchain.
pub open spec fn consumer_chain_id_text(appchain_id: Seq<char>) -> Seq<char> {
    "cosmos:"@ + appchain_id
}

pub fn consumer_chain_id(appchain_id: &String) -> (r: String)
    ensures
        r@ == consumer_chain_id_text(appchain_id@),
{
    String::from_str("cosmos:").concat(appchain_id.as_str())
}

} // verus!

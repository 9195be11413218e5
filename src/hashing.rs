//! The calls into sha2, serde_json, rand and chrono that the ledger relies on.
use vstd::prelude::*;

verus! {

/// The SHA-256 digest of a byte string.
pub uninterp spec fn sha256(bytes: Seq<u8>) -> Seq<u8>;

/// The compact JSON object that a block's hash is taken over, with keys
/// `id`, `naked` (the data), `nonce`, `p_hash` (the previous digest as an array
/// of numbers) and `timestamp`.
pub uninterp spec fn block_json(
    id: u64,
    nonce: u64,
    data: Seq<char>,
    timestamp: i64,
    previous: Seq<u8>,
) -> Seq<char>;

/// The compact JSON object `{"nonce": .., "rand": ..}` of the genesis search.
pub uninterp spec fn seed_json(nonce: u64, seed: u64) -> Seq<char>;

/// Relies on sha2's `Sha256::digest`: the 32-byte SHA-256 digest of `bytes`,
/// which depends on the bytes alone.
#[verifier::external_body]
pub(crate) fn sha256_digest(bytes: &[u8]) -> (r: [u8; 32])
    ensures
        r@ == sha256(bytes@),
{
    <sha2::Sha256 as sha2::Digest>::digest(bytes).into()
}

/// Relies on serde_json's `Value::to_string` of an object (a `Map`, sorted by
/// key) built from the five fields: the text depends on their values alone.
#[verifier::external_body]
pub(crate) fn block_json_text(
    id: u64,
    nonce: u64,
    data: &str,
    timestamp: i64,
    previous: &[u8; 32],
) -> (r: String)
    ensures
        r@ == block_json(id, nonce, data@, timestamp, previous@),
{
    let mut m = serde_json::Map::new();
    m.insert("id".to_string(), id.into());
    m.insert("nonce".to_string(), nonce.into());
    m.insert("naked".to_string(), data.into());
    m.insert("timestamp".to_string(), timestamp.into());
    m.insert("p_hash".to_string(), previous.to_vec().into());
    serde_json::Value::Object(m).to_string()
}

/// Relies on serde_json's `Value::to_string` of the object `{nonce, rand}`:
/// the text depends on the two numbers alone.
#[verifier::external_body]
pub(crate) fn seed_json_text(nonce: u64, seed: u64) -> (r: String)
    ensures
        r@ == seed_json(nonce, seed),
{
    let mut m = serde_json::Map::new();
    m.insert("nonce".to_string(), nonce.into());
    m.insert("rand".to_string(), seed.into());
    serde_json::Value::Object(m).to_string()
}

/// Relies on rand's `random::<u64>`: any value may come back.
#[verifier::external_body]
pub(crate) fn random_seed() -> (r: u64) {
    rand::random::<u64>()
}

/// Relies on chrono's `Utc::now` and `DateTime::timestamp`: the current time in
/// seconds since the epoch; any value may come back.
#[verifier::external_body]
pub(crate) fn now_timestamp() -> (r: i64) {
    chrono::Utc::now().timestamp()
}

} // verus!

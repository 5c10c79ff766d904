//! Decodability of stored byte payloads as user records.
//!
//! The persistent store keeps each user record as a serialized JSON payload.
//! The cache loader admits an entry only when its payload decodes as a user
//! record whose embedded id equals the entry's key; the decoding itself is
//! serde_json's work and stands behind a single trusted wrapper.

use vstd::prelude::*;

verus! {

/// The outcome of decoding a byte payload as a JSON user record: `Some(id)`
/// when the bytes parse as a JSON object carrying a 32-bit unsigned `id`
/// number together with `email`, `password` and `created_at` strings, and
/// `None` otherwise. The outcome is a function of the bytes alone.
pub uninterp spec fn user_payload_id(s: Seq<u8>) -> Option<u32>;

/// Relies on serde_json's `from_slice` and the `Value` accessors `get`,
/// `as_u64` and `as_str`: whether the bytes parse as JSON, and which fields
/// the parsed object carries, depend on the bytes alone.
#[verifier::external_body]
fn decode_user_id(payload: &[u8]) -> (r: Option<u32>)
    ensures
        r == user_payload_id(payload@),
{
    let parsed: Result<serde_json::Value, serde_json::Error> = serde_json::from_slice(payload);
    let v = parsed.ok()?;
    let id = u32::try_from(v.get("id")?.as_u64()?).ok()?;
    v.get("email")?.as_str()?;
    v.get("password")?.as_str()?;
    v.get("created_at")?.as_str()?;
    Some(id)
}

/// A store entry is fit for the cache when its payload decodes to a user
/// record whose embedded id equals the entry's own key.
pub open spec fn valid_entry(key: u32, payload: Seq<u8>) -> bool {
    user_payload_id(payload) == Some(key)
}

/// Whether a decoding outcome names exactly the given key.
pub fn decoded_id_matches_key(decoded: Option<u32>, key: u32) -> (r: bool)
    ensures
        r == (decoded == Some(key)),
{
    match decoded {
        Some(id) => id == key,
        None => false,
    }
}

/// Whether the payload stored under `key` decodes to a user record carrying
/// that same id.
pub fn payload_matches_key(key: u32, payload: &[u8]) -> (r: bool)
    ensures
        r == valid_entry(key, payload@),
{
    decoded_id_matches_key(decode_user_id(payload), key)
}

} // verus!

//! Snapshot preprocessing cache keys: a content hash of the input (capped
//! at a prefix for very large files) plus the device and format version.
use crate::strings::str_eq;
use crate::utils::{dec_digits, push_u64};
use vstd::prelude::*;

verus! {

/// Hash at most this many leading bytes of the input.
pub const HASH_CAP: usize = 134217728;

/// Name for what `blake3::hash` returns on a byte string, rendered in
/// lowercase hexadecimal: a pure function of the bytes alone.
pub uninterp spec fn blake3_hex_of(data: Seq<u8>) -> Seq<char>;

/// Relies on `blake3::hash` and `Hash::to_hex`: 64 hexadecimal characters
/// determined by the hashed bytes alone.
#[verifier::external_body]
fn hash_prefix_hex(data: &Vec<u8>, cap: usize) -> (r: String)
    requires
        cap <= data@.len(),
    ensures
        r@ == blake3_hex_of(data@.take(cap as int)),
        r@.len() == 64,
{
    blake3::hash(&data[..cap]).to_hex().as_str().to_string()
}

/// The content hash of a snapshot file: the hash of its first `HASH_CAP`
/// bytes (or all of them, when it is smaller), in hexadecimal.
pub fn compute_content_hash(data: &Vec<u8>) -> (r: String)
    ensures
        r@ == blake3_hex_of(
            data@.take(if data@.len() < HASH_CAP { data@.len() as int } else { HASH_CAP as int }),
        ),
        r@.len() == 64,
{
    let cap: usize = if data.len() < HASH_CAP {
        data.len()
    } else {
        HASH_CAP
    };
    hash_prefix_hex(data, cap)
}

/// The cache directory key for a preprocessed snapshot: content hash,
/// device id, and format version.
pub fn cache_key(file_hash: &str, device_id: u32) -> (r: String)
    ensures
        r@ == file_hash@ + "_dev"@ + dec_digits(device_id as nat) + "_v0"@,
{
    let mut key: String = String::new();
    key.append(file_hash);
    key.append("_dev");
    push_u64(&mut key, device_id as u64);
    key.append("_v0");
    proof {
        assert(key@ =~= file_hash@ + "_dev"@ + dec_digits(device_id as nat) + "_v0"@);
    }
    key
}

} // verus!

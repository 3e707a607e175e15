//! Percentage rollouts: a stable bucket for each user and flag.

use vstd::prelude::*;

verus! {

/// The MurmurHash3 (x86, 32-bit, seed 0) of the UTF-8 encoding of a text.
pub uninterp spec fn murmur3_32_of(s: Seq<char>) -> u32;

/// Longest text, in characters, that is hashed: its UTF-8 encoding then has
/// fewer than 2^32 bytes, which the hash can count.
pub const MAX_HASHED_CHARS: usize = 0x3fff_ffff;

/// Relies on `murmur3::murmur3_32` with seed 0 over the UTF-8 bytes of the
/// text: the hash depends on the text alone. Reading from a byte slice never
/// fails, so the error case does not arise.
#[verifier::external_body]
fn murmur3_hash(input: &str) -> (r: u32)
    requires
        input@.len() <= MAX_HASHED_CHARS,
    ensures
        r == murmur3_32_of(input@),
{
    let mut bytes: &[u8] = input.as_bytes();
    murmur3::murmur3_32(&mut bytes, 0).unwrap_or(0)
}

/// Whether the bucket of `hash` (its remainder modulo 100) is below `percentage`.
pub open spec fn bucket_in(hash: u32, percentage: u8) -> bool {
    hash % 100 < percentage
}

/// Whether a user is in a rollout of `percentage` percent of a flag: always
/// at 100 and above, never at 0; otherwise by the bucket of the hash of the
/// flag key followed by the user key. Keys too long to hash are never in a
/// partial rollout.
pub open spec fn in_rollout_spec(user: Seq<char>, flag_key: Seq<char>, percentage: u8) -> bool {
    if percentage >= 100 {
        true
    } else if percentage == 0 {
        false
    } else if flag_key.len() + user.len() > MAX_HASHED_CHARS {
        false
    } else {
        bucket_in(murmur3_32_of(flag_key + user), percentage)
    }
}

/// Whether the bucket of a hash is below the percentage.
pub fn bucket_includes(hash: u32, percentage: u8) -> (r: bool)
    ensures
        r == bucket_in(hash, percentage),
{
    ((hash % 100) as u8) < percentage
}

/// Whether a user is in a rollout, as [`in_rollout_spec`] states it.
pub fn in_rollout(user_id: &str, flag_key: &str, percentage: u8) -> (r: bool)
    ensures
        r == in_rollout_spec(user_id@, flag_key@, percentage),
{
    if percentage >= 100 {
        return true;
    }
    if percentage == 0 {
        return false;
    }
    let a = flag_key.unicode_len();
    let b = user_id.unicode_len();
    if a > MAX_HASHED_CHARS || b > MAX_HASHED_CHARS - a {
        return false;
    }
    let mut key = String::from_str(flag_key);
    key.append(user_id);
    let hash = murmur3_hash(key.as_str());
    bucket_includes(hash, percentage)
}

/// Rollout decisions are a function of the user key, the flag key and the
/// percentage alone: equal inputs give equal decisions, in any process.
pub proof fn lemma_rollout_deterministic(
    user_a: Seq<char>,
    key_a: Seq<char>,
    percentage_a: u8,
    user_b: Seq<char>,
    key_b: Seq<char>,
    percentage_b: u8,
)
    requires
        user_a == user_b,
        key_a == key_b,
        percentage_a == percentage_b,
    ensures
        in_rollout_spec(user_a, key_a, percentage_a) == in_rollout_spec(user_b, key_b, percentage_b),
{
}

/// Nobody is in a rollout of 0 percent, and everybody is in one of 100.
pub proof fn lemma_rollout_bounds(u: Seq<char>, k: Seq<char>)
    ensures
        !in_rollout_spec(u, k, 0),
        in_rollout_spec(u, k, 100),
{
}

} // verus!

//! The hash that assigns keys to shards.
//!
//! Keys are hashed with `fxhash::FxHasher32`, fed one byte of the key's
//! UTF-8 form at a time. Fed this way the hasher works on 32-bit words only,
//! so a key has the same hash on every machine, which a snapshot or a log
//! shipped to another machine relies on.

use std::hash::Hasher;
use vstd::prelude::*;
use vstd::utf8::encode_utf8;

verus! {

/// Makes `fxhash::FxHasher32` known as a type whose inside is not looked
/// at.
#[verifier::external_type_specification]
#[verifier::external_body]
pub struct ExFxHasher32(fxhash::FxHasher32);

/// The 32-bit word a hasher holds.
pub uninterp spec fn hasher_state(h: fxhash::FxHasher32) -> u32;

/// The word a hasher holds after one more byte, as `FxHasher32::write_u8`
/// computes it from the word before and the byte.
pub uninterp spec fn fx_mix(state: u32, byte: u8) -> u32;

/// `FxHasher32::default`. Trusted: a new hasher holds zero.
#[verifier::external_body]
fn hasher_new() -> (h: fxhash::FxHasher32)
    ensures
        hasher_state(h) == 0,
{
    fxhash::FxHasher32::default()
}

/// `Hasher::write_u8` of `FxHasher32`. Trusted: the new word depends on the
/// old word and the byte alone.
#[verifier::external_body]
fn hasher_write_u8(h: &mut fxhash::FxHasher32, byte: u8)
    ensures
        hasher_state(*final(h)) == fx_mix(hasher_state(*old(h)), byte),
{
    h.write_u8(byte)
}

/// `Hasher::finish` of `FxHasher32`. Trusted: the result is the word held,
/// widened.
#[verifier::external_body]
fn hasher_finish(h: &fxhash::FxHasher32) -> (v: u64)
    ensures
        v == hasher_state(*h),
{
    h.finish()
}

/// The hash of a byte string: the bytes mixed in one by one, from zero.
pub open spec fn bytes_hash(bytes: Seq<u8>) -> u32
    decreases bytes.len(),
{
    if bytes.len() == 0 {
        0
    } else {
        fx_mix(bytes_hash(bytes.drop_last()), bytes.last())
    }
}

/// The hash of a key: that of its UTF-8 bytes.
pub open spec fn key_hash(key: Seq<char>) -> u32 {
    bytes_hash(encode_utf8(key))
}

/// The shard that holds `key` among `num_shards`.
pub open spec fn shard_index(key: Seq<char>, num_shards: nat) -> int {
    (key_hash(key) as int) % (num_shards as int)
}

/// Hashes a key.
pub fn hash_key(key: &str) -> (h: u32)
    ensures
        h == key_hash(key@),
{
    let bytes = key.as_bytes();
    let mut hasher = hasher_new();
    let mut i: usize = 0;
    assert(bytes@.take(0) =~= Seq::<u8>::empty());
    while i < bytes.len()
        invariant
            i <= bytes@.len(),
            hasher_state(hasher) == bytes_hash(bytes@.take(i as int)),
        decreases bytes@.len() - i,
    {
        assert(bytes@.take(i + 1).drop_last() =~= bytes@.take(i as int));
        hasher_write_u8(&mut hasher, bytes[i]);
        i = i + 1;
    }
    assert(bytes@.take(i as int) =~= bytes@);
    hasher_finish(&hasher) as u32
}

} // verus!

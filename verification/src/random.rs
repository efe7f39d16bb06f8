//! Draws from a random number generator.
//!
//! What a draw returns rests on chance, so the contracts here state only what
//! holds of every outcome.

use rand::rngs::StdRng;
use rand::seq::SliceRandom;
use rand::{Rng, RngCore};
use vstd::prelude::*;

verus! {

/// `rand`'s standard generator. Nothing is known of the state it holds.
#[verifier::external_type_specification]
#[verifier::external_body]
pub struct ExStdRng(StdRng);

/// Calls `rand::Rng::gen_range` on the half-open range `low..high` of `usize`,
/// which panics on an empty range. The result lies in the range.
#[verifier::external_body]
pub(crate) fn draw_usize(rng: &mut StdRng, low: usize, high: usize) -> (r: usize)
    requires
        low < high,
    ensures
        low <= r < high,
{
    rng.gen_range(low..high)
}

/// Calls `rand::Rng::gen_range` on the half-open range `low..high` of `u64`,
/// which panics on an empty range. The result lies in the range.
#[verifier::external_body]
pub(crate) fn draw_u64(rng: &mut StdRng, low: u64, high: u64) -> (r: u64)
    requires
        low < high,
    ensures
        low <= r < high,
{
    rng.gen_range(low..high)
}

/// Calls `rand::Rng::gen_range` on the half-open range `low..high` of `u32`,
/// which panics on an empty range. The result lies in the range.
#[verifier::external_body]
pub(crate) fn draw_u32(rng: &mut StdRng, low: u32, high: u32) -> (r: u32)
    requires
        low < high,
    ensures
        low <= r < high,
{
    rng.gen_range(low..high)
}

/// Calls `rand::Rng::gen_range` on the half-open range `low..high` of `u8`,
/// which panics on an empty range. The result lies in the range.
#[verifier::external_body]
pub(crate) fn draw_u8(rng: &mut StdRng, low: u8, high: u8) -> (r: u8)
    requires
        low < high,
    ensures
        low <= r < high,
{
    rng.gen_range(low..high)
}

/// Calls `rand::Rng::gen_ratio` with one chance in two. Either outcome can
/// come, so nothing is claimed of it.
#[verifier::external_body]
pub(crate) fn flip(rng: &mut StdRng) -> bool {
    rng.gen_ratio(1, 2)
}

/// Calls `rand::Rng::gen` for one byte. Any byte can come, so nothing is
/// claimed of it.
#[verifier::external_body]
pub(crate) fn draw_byte(rng: &mut StdRng) -> u8 {
    rng.gen()
}

/// Calls `rand::RngCore::fill_bytes` on 32 bytes. Any bytes can come, so
/// nothing is claimed of them.
#[verifier::external_body]
pub(crate) fn draw_block(rng: &mut StdRng) -> [u8; 32] {
    let mut block = [0u8; 32];
    rng.fill_bytes(&mut block);
    block
}

/// Calls `rand::seq::SliceRandom::choose`: `None` on an empty slice, and one of
/// the items of any other.
#[verifier::external_body]
pub(crate) fn choose_item<'a, T>(rng: &mut StdRng, items: &'a [T]) -> (r: Option<&'a T>)
    ensures
        r is None <==> items@.len() == 0,
        r matches Some(item) ==> items@.contains(*item),
{
    items.choose(rng)
}

/// Calls `rand::seq::SliceRandom::shuffle`, which only swaps items: the items
/// are the same before and after, each as often.
#[verifier::external_body]
pub(crate) fn shuffle_items<T>(rng: &mut StdRng, items: &mut Vec<T>)
    ensures
        final(items)@.to_multiset() == old(items)@.to_multiset(),
{
    items.shuffle(rng)
}

/// `count` bytes, one draw each.
pub(crate) fn draw_bytes(rng: &mut StdRng, count: usize) -> (r: Vec<u8>)
    ensures
        r@.len() == count,
{
    let mut bytes: Vec<u8> = Vec::with_capacity(count);
    while bytes.len() < count
        invariant
            bytes@.len() <= count,
        decreases count - bytes@.len(),
    {
        bytes.push(draw_byte(rng));
    }
    bytes
}

/// The key that 32 bytes make up.
pub fn key_of(bytes: &Vec<u8>) -> (r: [u8; 32])
    requires
        bytes@.len() == 32,
    ensures
        r@ == bytes@,
{
    let mut key: [u8; 32] = [0u8; 32];
    let mut i: usize = 0;
    while i < 32
        invariant
            i <= 32,
            bytes@.len() == 32,
            forall|j: int| 0 <= j < i ==> #[trigger] key@[j] == bytes@[j],
        decreases 32 - i,
    {
        key[i] = bytes[i];
        i += 1;
    }
    assert(key@ =~= bytes@);
    key
}

/// The key that 32 drawn bytes make up, one draw each. Any key can come, so
/// nothing is claimed of it.
pub(crate) fn draw_key(rng: &mut StdRng) -> [u8; 32] {
    key_of(&draw_bytes(rng, 32))
}

} // verus!

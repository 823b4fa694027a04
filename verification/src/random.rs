//! The random source: a seed taken from the standard library's randomly
//! keyed hasher, and a xorshift stream over 64-bit states.

use std::collections::hash_map::DefaultHasher;
use std::collections::hash_map::RandomState;
use std::hash::BuildHasher;
use std::hash::Hasher;
use vstd::prelude::*;

verus! {

/// One step of the stream: the state that follows `state`, which is also
/// the value drawn.
pub open spec fn xorshift(state: u64) -> u64 {
    let a = state ^ (state << 13);
    let b = a ^ (a >> 17);
    b ^ (b << 5)
}

/// The state after `count` draws from a stream that starts at `seed`.
pub open spec fn nth_state(seed: u64, count: nat) -> u64
    decreases count,
{
    if count == 0 {
        seed
    } else {
        xorshift(nth_state(seed, (count - 1) as nat))
    }
}

/// `RandomState::new`: a hasher factory with keys that differ from call to
/// call. Nothing is claimed of it.
#[verifier::external_body]
fn fresh_keys() -> (keys: RandomState)
{
    RandomState::new()
}

/// `BuildHasher::build_hasher` on a `RandomState`: a hasher that starts
/// from the factory's keys. Nothing is claimed of it.
#[verifier::external_body]
fn keyed_hasher(keys: &RandomState) -> (hasher: DefaultHasher)
{
    keys.build_hasher()
}

/// A seed that differs from call to call.
pub fn random_seed() -> (seed: u64)
{
    let keys = fresh_keys();
    let hasher = keyed_hasher(&keys);
    hasher.finish()
}

/// An endless stream of 64-bit values.
pub struct RandomNumbers {
    state: u64,
}

impl RandomNumbers {
    /// The current state of the stream.
    pub closed spec fn state(&self) -> u64 {
        self.state
    }

    /// A stream that starts at a chosen seed.
    pub fn seeded(seed: u64) -> (stream: Self)
        ensures
            stream.state() == seed,
    {
        RandomNumbers { state: seed }
    }

    /// Draws the next value. The stream never ends.
    pub fn next(&mut self) -> (drawn: Option<u64>)
        ensures
            drawn == Some(xorshift(old(self).state())),
            final(self).state() == xorshift(old(self).state()),
    {
        let mut random: u64 = self.state;
        random ^= random << 13;
        random ^= random >> 17;
        random ^= random << 5;
        self.state = random;
        Some(random)
    }
}

/// A stream that starts at a fresh random seed.
pub fn random_numbers() -> (stream: RandomNumbers)
{
    RandomNumbers::seeded(random_seed())
}

/// A stream that starts at zero stays at zero, and no other stream ever
/// reaches zero.
pub proof fn xorshift_keeps_zero_apart(state: u64)
    ensures
        xorshift(state) == 0 <==> state == 0,
{
    let a = state ^ (state << 13);
    let b = a ^ (a >> 17);
    let c = b ^ (b << 5);
    assert(state ^ (state << 13) == 0 <==> state == 0) by (bit_vector);
    assert(a ^ (a >> 17) == 0 <==> a == 0) by (bit_vector);
    assert(b ^ (b << 5) == 0 <==> b == 0) by (bit_vector);
}

/// Two different states are never followed by the same state.
pub proof fn xorshift_is_injective(first: u64, second: u64)
    ensures
        xorshift(first) == xorshift(second) <==> first == second,
{
    let both = first ^ second;
    let a1 = first ^ (first << 13);
    let a2 = second ^ (second << 13);
    let b1 = a1 ^ (a1 >> 17);
    let b2 = a2 ^ (a2 >> 17);
    assert((first ^ (first << 13)) ^ (second ^ (second << 13)) == (first ^ second) ^ ((first
        ^ second) << 13)) by (bit_vector);
    assert((a1 ^ (a1 >> 17)) ^ (a2 ^ (a2 >> 17)) == (a1 ^ a2) ^ ((a1 ^ a2) >> 17))
        by (bit_vector);
    assert((b1 ^ (b1 << 5)) ^ (b2 ^ (b2 << 5)) == (b1 ^ b2) ^ ((b1 ^ b2) << 5)) by (bit_vector);
    assert(xorshift(first) ^ xorshift(second) == xorshift(both));
    xorshift_keeps_zero_apart(both);
    assert(first ^ second == 0 <==> first == second) by (bit_vector);
    let x = xorshift(first);
    let y = xorshift(second);
    assert(x ^ y == 0 <==> x == y) by (bit_vector);
}

} // verus!

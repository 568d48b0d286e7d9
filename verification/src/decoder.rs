//! A secret message hidden in a word array, decoded with the stream of values
//! of the code generator. The generator state is the seed that each call of
//! [`codgen`] advances.

use vstd::prelude::*;
use crate::codgen::{code_of, next_seed, seed_after};

verus! {

/// The seed that the decoding of the course's message starts from.
pub const INITIAL_SEED: u32 = 0x0e06_57c1;

/// `x - y`, wrapped around to a 32-bit word.
pub open spec fn wsub(x: u32, y: u32) -> u32 {
    vstd::wrapping::u32_specs::wrapping_sub(x, y)
}

/// `x + y`, wrapped around to a 32-bit word.
pub open spec fn wadd(x: u32, y: u32) -> u32 {
    vstd::wrapping::u32_specs::wrapping_add(x, y)
}

/// Some word at index `n` or after it in `words` is zero: the message ends.
pub open spec fn terminated_from(words: Seq<u32>, n: int) -> bool {
    exists|z: int| n <= z < words.len() && words[z] == 0
}

/// The byte that a decoding step stores for the mixed word `m`.
pub open spec fn byte_of(m: u32) -> u8 {
    ((m >> 13u32) & 0xffu32) as u8
}

/// Decoding from index `n`, with the generator at `seed` and the byte array
/// `bytes`: the value returned, the seed afterwards, and the byte array
/// afterwards.
///
/// The step at `n` draws one value of the generator, complemented, as `x`.
/// At a zero word it stores the byte 0 and returns `x`. Otherwise it decodes
/// from `n + 1` first, which returns `y`; it stores the byte taken from bits
/// 13 to 20 of `m = x - y - words[n]`, draws one more value `v` and returns
/// `x + y + m - v + 5`, all in wrapping 32-bit arithmetic.
pub open spec fn decode_spec(seed: u32, words: Seq<u32>, bytes: Seq<u8>, n: nat) -> (u32, u32, Seq<u8>)
    decreases words.len() - n,
{
    if n >= words.len() {
        (0, seed, bytes)
    } else {
        let s1 = next_seed(seed);
        let x = !code_of(s1);
        if words[n as int] == 0 {
            (x, s1, bytes.update(n as int, 0u8))
        } else {
            let rest = decode_spec(s1, words, bytes, n + 1);
            let y = rest.0;
            let m = wsub(wsub(x, y), words[n as int]);
            let s3 = next_seed(rest.1);
            let r = wadd(!code_of(s3), 1);
            (wadd(wadd(wadd(wadd(x, y), m), r), 5), s3, rest.2.update(n as int, byte_of(m)))
        }
    }
}

/// Decoding keeps the length of the byte array.
pub proof fn lemma_decode_spec_len(seed: u32, words: Seq<u32>, bytes: Seq<u8>, n: nat)
    requires
        words.len() <= bytes.len(),
    ensures
        decode_spec(seed, words, bytes, n).2.len() == bytes.len(),
    decreases words.len() - n,
{
    if n < words.len() && words[n as int] != 0 {
        lemma_decode_spec_len(next_seed(seed), words, bytes, n + 1);
    }
}

/// Decoding from index `n` leaves the bytes before `n` as they were.
pub proof fn lemma_decode_keeps_earlier_bytes(seed: u32, words: Seq<u32>, bytes: Seq<u8>, n: nat, i: int)
    requires
        words.len() <= bytes.len(),
        0 <= i < n,
    ensures
        decode_spec(seed, words, bytes, n).2[i] == bytes[i],
    decreases words.len() - n,
{
    if n < words.len() && words[n as int] != 0 {
        lemma_decode_keeps_earlier_bytes(next_seed(seed), words, bytes, n + 1, i);
        lemma_decode_spec_len(next_seed(seed), words, bytes, n + 1);
    }
}

/// Decoding from index `n` to the first zero word at `z` or after it stores
/// the byte 0 at `z` and leaves the bytes after `z` as they were.
pub proof fn lemma_decode_stops_at_zero(seed: u32, words: Seq<u32>, bytes: Seq<u8>, n: nat, z: int)
    requires
        words.len() <= bytes.len(),
        n <= z < words.len(),
        words[z] == 0,
        forall|k: int| n <= k < z ==> words[k] != 0,
    ensures
        decode_spec(seed, words, bytes, n).2[z] == 0,
        forall|k: int|
            z < k < bytes.len() ==> #[trigger] decode_spec(seed, words, bytes, n).2[k] == bytes[k],
    decreases z - n,
{
    if n < z {
        lemma_decode_stops_at_zero(next_seed(seed), words, bytes, n + 1, z);
        lemma_decode_spec_len(next_seed(seed), words, bytes, n + 1);
    }
}

proof fn lemma_seed_after_shift(seed: u32, k: nat)
    ensures
        seed_after(next_seed(seed), k) == seed_after(seed, k + 1),
    decreases k,
{
    if k > 0 {
        lemma_seed_after_shift(seed, (k - 1) as nat);
        assert(seed_after(next_seed(seed), k) == next_seed(seed_after(next_seed(seed), (k - 1) as nat)));
        assert(seed_after(seed, k + 1) == next_seed(seed_after(seed, k)));
    } else {
        assert(seed_after(seed, 1) == next_seed(seed_after(seed, 0)));
    }
}

/// Decoding from `n` to the first zero word at `z` draws exactly
/// `2 * (z - n) + 1` values of the generator: two for each word before the
/// zero word and one for it.
pub proof fn lemma_decode_draws(seed: u32, words: Seq<u32>, bytes: Seq<u8>, n: nat, z: int)
    requires
        n <= z < words.len(),
        words[z] == 0,
        forall|k: int| n <= k < z ==> words[k] != 0,
    ensures
        decode_spec(seed, words, bytes, n).1 == seed_after(seed, (2 * (z - n) + 1) as nat),
    decreases z - n,
{
    reveal_with_fuel(seed_after, 2);
    if n < z {
        lemma_decode_draws(next_seed(seed), words, bytes, n + 1, z);
        let k = (2 * (z - n - 1) + 1) as nat;
        lemma_seed_after_shift(seed, k);
        assert(seed_after(seed, k + 2) == next_seed(seed_after(seed, k + 1)));
    } else {
        assert(seed_after(seed, 1) == next_seed(seed_after(seed, 0)));
    }
}

/// Advances the generator state `seed` by one step and returns the value of
/// that step.
pub fn codgen(seed: &mut u32) -> (v: u32)
    ensures
        *final(seed) == next_seed(*old(seed)),
        v == code_of(*final(seed)),
{
    let (s, v) = crate::codgen::codgen(*seed);
    *seed = s;
    v
}

/// Decodes the message in `wordarr` from index `n` on into `bytearr`, drawing
/// values from the generator state `seed`, and returns the check value of the
/// step at `n` (see [`decode_spec`]).
pub fn decode(seed: &mut u32, wordarr: &[u32], bytearr: &mut Vec<u8>, n: usize) -> (r: u32)
    requires
        terminated_from(wordarr@, n as int),
        wordarr@.len() <= old(bytearr)@.len(),
    ensures
        (r, *final(seed), final(bytearr)@) == decode_spec(*old(seed), wordarr@, old(bytearr)@, n as nat),
    decreases wordarr@.len() - n,
{
    let mut x = codgen(seed);
    x = !x;

    if wordarr[n] == 0 {
        bytearr.set(n, 0);
        x
    } else {
        assert(terminated_from(wordarr@, n + 1));
        let ghost before = bytearr@;
        let y = decode(seed, wordarr, bytearr, n + 1);
        proof {
            lemma_decode_spec_len(next_seed(*old(seed)), wordarr@, before, (n + 1) as nat);
        }
        let m = x.wrapping_sub(y).wrapping_sub(wordarr[n]);
        bytearr.set(n, ((m >> 13) & 0xFF) as u8);
        let r = (!codgen(seed)).wrapping_add(1);
        x.wrapping_add(y).wrapping_add(m).wrapping_add(r).wrapping_add(5)
    }
}

} // verus!

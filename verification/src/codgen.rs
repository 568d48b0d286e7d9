//! The pseudo-random code generator `codgen` and the secret-message decoder
//! that consumes its output.

use vstd::prelude::*;

verus! {

/// Number of zero bits among the lowest `k` bits of `x`.
pub open spec fn zero_bits_below(x: u32, k: nat) -> nat
    decreases k,
{
    if k == 0 {
        0
    } else {
        zero_bits_below(x, (k - 1) as nat) + (if (x >> ((k - 1) as u32)) & 1u32 == 0u32 {
            1nat
        } else {
            0nat
        })
    }
}

/// Number of zero bits in the 32-bit word `x`.
pub open spec fn count_zero_bits(x: u32) -> nat {
    zero_bits_below(x, 32)
}

/// `x` rotated left by `k` bits, for `k` below the word width.
pub open spec fn rotate_left(x: u32, k: u32) -> u32
    recommends
        k < 32,
{
    if k == 0 {
        x
    } else {
        (x << k) | (x >> ((32 - k) as u32))
    }
}

/// `x`, read as a signed word, shifted right arithmetically by six bits.
pub open spec fn signed_shift_right_6(x: u32) -> u32 {
    ((x as i32) >> 6u32) as u32
}

/// The seed that follows `seed`: the seed rotated left by 30 bits, xored with
/// the seed shifted right arithmetically by 6 bits and with its number of
/// zero bits.
pub open spec fn next_seed(seed: u32) -> u32 {
    rotate_left(seed, 30) ^ signed_shift_right_6(seed) ^ (count_zero_bits(seed) as u32)
}

/// The value that the generator hands out together with the seed `s`.
pub open spec fn code_of(s: u32) -> u32 {
    s ^ 0x464b713eu32
}

/// The arithmetic shift copies the sign bit into the six vacated top bits.
pub proof fn lemma_signed_shift_fills_sign(x: u32)
    ensures
        signed_shift_right_6(x) == (x >> 6u32) | (if x & 0x8000_0000u32 != 0 {
            0xfc00_0000u32
        } else {
            0u32
        }),
{
    assert(((x as i32) >> 6u32) as u32 == (x >> 6u32) | (if x & 0x8000_0000u32 != 0 {
        0xfc00_0000u32
    } else {
        0u32
    })) by (bit_vector);
}

/// Rotating left by 30 bits moves the two low bits to the top and the rest
/// down by two.
pub proof fn lemma_rotate_left_30(x: u32)
    ensures
        rotate_left(x, 30) & 0x3fff_ffffu32 == x >> 2u32,
        rotate_left(x, 30) >> 30u32 == x & 3u32,
{
    assert(((x << 30u32) | (x >> 2u32)) & 0x3fff_ffffu32 == x >> 2u32) by (bit_vector);
    assert(((x << 30u32) | (x >> 2u32)) >> 30u32 == x & 3u32) by (bit_vector);
}

/// Each bit is a zero bit of `x` or of its complement, never of both: the
/// zero bits of `x` and of `!x` add up to the number of bits counted.
pub proof fn lemma_zero_bits_complement(x: u32, k: nat)
    requires
        k <= 32,
    ensures
        zero_bits_below(x, k) + zero_bits_below(!x, k) == k,
    decreases k,
{
    if k > 0 {
        lemma_zero_bits_complement(x, (k - 1) as nat);
        let j = (k - 1) as u32;
        assert(j < 32 ==> (((!x) >> j) & 1u32 == 0u32 <==> (x >> j) & 1u32 != 0u32)) by (bit_vector);
    }
}

/// No bit of 0 is set, every bit of `u32::MAX` is.
pub proof fn lemma_zero_bits_extremes()
    ensures
        count_zero_bits(0) == 32,
        count_zero_bits(0xffff_ffff) == 0,
{
    assert forall|k: nat| k <= 32 implies zero_bits_below(0, k) == k && zero_bits_below(0xffff_ffff, k) == 0 by {
        lemma_zero_bits_extremes_below(k);
    }
}

proof fn lemma_zero_bits_extremes_below(k: nat)
    requires
        k <= 32,
    ensures
        zero_bits_below(0, k) == k,
        zero_bits_below(0xffff_ffff, k) == 0,
    decreases k,
{
    if k > 0 {
        lemma_zero_bits_extremes_below((k - 1) as nat);
        let j = (k - 1) as u32;
        assert(j < 32 ==> (0u32 >> j) & 1u32 == 0u32 && (0xffff_ffffu32 >> j) & 1u32 == 1u32) by (bit_vector);
    }
}

proof fn lemma_zero_bits_below_bound(x: u32, k: nat)
    ensures
        zero_bits_below(x, k) <= k,
    decreases k,
{
    if k > 0 {
        lemma_zero_bits_below_bound(x, (k - 1) as nat);
    }
}

proof fn lemma_rotate_one_bit(x: u32, msb: u32)
    requires
        msb == (x & 0x8000_0000u32) >> 31u32,
    ensures
        msb == 0u32 || msb == 1u32,
        msb == 1u32 ==> (x << 1u32) | 1u32 == (x << 1u32) | msb,
        msb != 1u32 ==> x << 1u32 == (x << 1u32) | msb,
        (x << 1u32) | msb == (x << 1u32) | (x >> 31u32),
{
    assert(msb == 0u32 || msb == 1u32) by (bit_vector)
        requires
            msb == (x & 0x8000_0000u32) >> 31u32,
    ;
    assert(msb == 1u32 ==> (x << 1u32) | 1u32 == (x << 1u32) | msb) by (bit_vector);
    assert(msb != 1u32 ==> x << 1u32 == (x << 1u32) | msb) by (bit_vector)
        requires
            msb == 0u32 || msb == 1u32,
    ;
    assert((x << 1u32) | msb == (x << 1u32) | (x >> 31u32)) by (bit_vector)
        requires
            msb == (x & 0x8000_0000u32) >> 31u32,
    ;
}

proof fn lemma_rotate_left_step(s: u32, j: u32)
    requires
        j < 31,
    ensures
        (rotate_left(s, j) << 1u32) | (rotate_left(s, j) >> 31u32) == rotate_left(s, (j + 1) as u32),
{
    if j == 0 {
        assert(rotate_left(s, 1) == (s << 1u32) | (s >> 31u32));
    } else {
        let x = rotate_left(s, j);
        let a = (32 - j) as u32;
        let b = (31 - j) as u32;
        let j1 = (j + 1) as u32;
        assert(x == (s << j) | (s >> a));
        assert(((s << j) | (s >> a)) << 1u32 | (((s << j) | (s >> a)) >> 31u32) == (s << j1) | (s
            >> b)) by (bit_vector)
            requires
                0 < j < 31,
                a == 32 - j,
                b == 31 - j,
                j1 == j + 1,
        ;
    }
}

/// One step of the generator: from `seed`, the next seed and the value that
/// goes with it.
pub fn codgen(seed: u32) -> (r: (u32, u32))
    ensures
        r.0 == next_seed(seed),
        r.1 == code_of(r.0),
{
    let mut n: u32 = 0;
    let rotate_amount: u32 = 30;
    let mut x: u32 = seed;
    let y: i32 = seed as i32 >> 6;

    // Count the zero bits of the seed.
    let mut k: u32 = 0;
    while k < 32
        invariant
            k <= 32,
            n == zero_bits_below(seed, k as nat),
        decreases 32 - k,
    {
        proof {
            lemma_zero_bits_below_bound(seed, k as nat);
        }
        if seed >> k & 1 == 0 {
            n = n + 1;
        }
        k = k + 1;
    }

    // Rotate the seed left, one bit at a time.
    let mut j: u32 = 0;
    while j < rotate_amount
        invariant
            rotate_amount == 30,
            j <= rotate_amount,
            x == rotate_left(seed, j),
        decreases rotate_amount - j,
    {
        let msb = (x & 0x8000_0000) >> 31;
        proof {
            lemma_rotate_one_bit(x, msb);
            lemma_rotate_left_step(seed, j);
        }
        x = x << 1;
        if msb == 1 {
            x = x | 1;
        }
        j = j + 1;
    }

    let new_seed = x ^ (y as u32) ^ n;
    (new_seed, new_seed ^ 0x464b713e)
}

/// The seed after `k` steps of the generator from `seed`.
pub open spec fn seed_after(seed: u32, k: nat) -> u32
    decreases k,
{
    if k == 0 {
        seed
    } else {
        next_seed(seed_after(seed, (k - 1) as nat))
    }
}

/// The first `count` values of the generator seeded with `seed`.
pub fn codgen_values(seed: u32, count: usize) -> (v: Vec<u32>)
    ensures
        v@.len() == count,
        forall|i: int| 0 <= i < count ==> #[trigger] v@[i] == code_of(seed_after(seed, (i + 1) as nat)),
{
    let mut v: Vec<u32> = Vec::new();
    let mut s = seed;
    let mut k: usize = 0;
    while k < count
        invariant
            k <= count,
            v@.len() == k,
            s == seed_after(seed, k as nat),
            forall|i: int| 0 <= i < k ==> #[trigger] v@[i] == code_of(seed_after(seed, (i + 1) as nat)),
        decreases count - k,
    {
        let (next, value) = codgen(s);
        v.push(value);
        s = next;
        k = k + 1;
    }
    v
}

} // verus!

//! SHA-256: 64-byte blocks, eight 32-bit state words, 64 rounds.
//!
//! The message padding is byte-identical to SHA-1's, so this module
//! states it with the crate-root padding model.

use crate::{be_word32, padded_message, rotl32};
use vstd::prelude::*;

verus! {

broadcast use vstd::array::group_array_axioms;

/// Constants K as defined in the standard, one per round.
pub const K: [u32; 64] = [
    0x428a2f98, 0x71374491, 0xb5c0fbcf, 0xe9b5dba5, 0x3956c25b, 0x59f111f1, 0x923f82a4, 0xab1c5ed5,
    0xd807aa98, 0x12835b01, 0x243185be, 0x550c7dc3, 0x72be5d74, 0x80deb1fe, 0x9bdc06a7, 0xc19bf174,
    0xe49b69c1, 0xefbe4786, 0x0fc19dc6, 0x240ca1cc, 0x2de92c6f, 0x4a7484aa, 0x5cb0a9dc, 0x76f988da,
    0x983e5152, 0xa831c66d, 0xb00327c8, 0xbf597fc7, 0xc6e00bf3, 0xd5a79147, 0x06ca6351, 0x14292967,
    0x27b70a85, 0x2e1b2138, 0x4d2c6dfc, 0x53380d13, 0x650a7354, 0x766a0abb, 0x81c2c92e, 0x92722c85,
    0xa2bfe8a1, 0xa81a664b, 0xc24b8b70, 0xc76c51a3, 0xd192e819, 0xd6990624, 0xf40e3585, 0x106aa070,
    0x19a4c116, 0x1e376c08, 0x2748774c, 0x34b0bcb5, 0x391c0cb3, 0x4ed8aa4a, 0x5b9cca4f, 0x682e6ff3,
    0x748f82ee, 0x78a5636f, 0x84c87814, 0x8cc70208, 0x90befffa, 0xa4506ceb, 0xbef9a3f7, 0xc67178f2,
];

/// Initial hash values.
pub const H: [u32; 8] = [
    0x6a09e667, 0xbb67ae85, 0x3c6ef372, 0xa54ff53a, 0x510e527f, 0x9b05688c, 0x1f83d9ab, 0x5be0cd19,
];

/// Rotation of a 32-bit word right by `n` bits, `1 <= n <= 31`.
pub open spec fn rotr32(x: u32, n: u32) -> u32
    recommends
        1 <= n <= 31,
{
    (x >> n) | (x << (32 - n) as u32)
}

/// A circular left shift operation is defined by the following:
/// (X << n) OR (X >> (32 - n))
pub fn circular_left_shift(x: u32, n: u32) -> (r: u32)
    requires
        1 <= n <= 31,
    ensures
        r == rotl32(x, n),
{
    (x << n) | (x >> (32 - n))
}

/// A circular right shift operation is defined by the following:
/// (X >> n) OR (X << (32 - n))
pub fn circular_right_shift(x: u32, n: u32) -> (r: u32)
    requires
        1 <= n <= 31,
    ensures
        r == rotr32(x, n),
{
    (x >> n) | (x << (32 - n))
}

/// Following the standard, the message is to be padded as follows:
/// 1. Append a 1 bit to the message
/// 2. Append 0 bits until the length of the message is congruent to 448 mod 512
/// 3. Append the length of the message in bits as a 64 bit number
pub fn message_padding(message: &[u8]) -> (padded: Vec<u8>)
    requires
        message@.len() * 8 <= u64::MAX,
        message@.len() + 72 <= usize::MAX,
    ensures
        padded@ == padded_message(message@),
        padded@.len() % 64 == 0,
{
    crate::message_padding(message)
}

pub open spec fn spec_ch(x: u32, y: u32, z: u32) -> u32 {
    (x & y) ^ ((!x) & z)
}

pub open spec fn spec_maj(x: u32, y: u32, z: u32) -> u32 {
    (x & y) ^ (x & z) ^ (y & z)
}

pub open spec fn spec_big_sigma_0(x: u32) -> u32 {
    rotr32(x, 2) ^ rotr32(x, 13) ^ rotr32(x, 22)
}

pub open spec fn spec_big_sigma_1(x: u32) -> u32 {
    rotr32(x, 6) ^ rotr32(x, 11) ^ rotr32(x, 25)
}

pub open spec fn spec_small_sigma_0(x: u32) -> u32 {
    rotr32(x, 7) ^ rotr32(x, 18) ^ (x >> 3)
}

pub open spec fn spec_small_sigma_1(x: u32) -> u32 {
    rotr32(x, 17) ^ rotr32(x, 19) ^ (x >> 10)
}

// functions for the hash algorithm
pub fn ch(x: u32, y: u32, z: u32) -> (r: u32)
    ensures
        r == spec_ch(x, y, z),
{
    (x & y) ^ ((!x) & z)
}

pub fn maj(x: u32, y: u32, z: u32) -> (r: u32)
    ensures
        r == spec_maj(x, y, z),
{
    (x & y) ^ (x & z) ^ (y & z)
}

pub fn big_sigma_0(x: u32) -> (r: u32)
    ensures
        r == spec_big_sigma_0(x),
{
    circular_right_shift(x, 2) ^ circular_right_shift(x, 13) ^ circular_right_shift(x, 22)
}

pub fn big_sigma_1(x: u32) -> (r: u32)
    ensures
        r == spec_big_sigma_1(x),
{
    circular_right_shift(x, 6) ^ circular_right_shift(x, 11) ^ circular_right_shift(x, 25)
}

pub fn small_sigma_0(x: u32) -> (r: u32)
    ensures
        r == spec_small_sigma_0(x),
{
    circular_right_shift(x, 7) ^ circular_right_shift(x, 18) ^ (x >> 3)
}

pub fn small_sigma_1(x: u32) -> (r: u32)
    ensures
        r == spec_small_sigma_1(x),
{
    circular_right_shift(x, 17) ^ circular_right_shift(x, 19) ^ (x >> 10)
}

/// Word `t` of the schedule for one 64-byte block: the first sixteen are
/// the block's words, the rest follow the SHA-256 recurrence.
pub open spec fn schedule_word(block: Seq<u8>, t: int) -> u32
    recommends
        block.len() == 64,
        0 <= t < 64,
    decreases t,
{
    if t < 16 {
        be_word32(block[4 * t], block[4 * t + 1], block[4 * t + 2], block[4 * t + 3])
    } else {
        spec_small_sigma_1(schedule_word(block, t - 2)).wrapping_add(
            schedule_word(block, t - 7),
        ).wrapping_add(spec_small_sigma_0(schedule_word(block, t - 15))).wrapping_add(
            schedule_word(block, t - 16),
        )
    }
}

/// The eight working registers after the first `t` rounds on `block`,
/// starting from the registers `regs`.
pub open spec fn spec_rounds(
    regs: (u32, u32, u32, u32, u32, u32, u32, u32),
    block: Seq<u8>,
    t: int,
) -> (u32, u32, u32, u32, u32, u32, u32, u32)
    recommends
        block.len() == 64,
        0 <= t <= 64,
    decreases t,
{
    if t <= 0 {
        regs
    } else {
        let (a, b, c, d, e, f, g, h) = spec_rounds(regs, block, t - 1);
        let temp1 = h.wrapping_add(spec_big_sigma_1(e)).wrapping_add(spec_ch(e, f, g)).wrapping_add(
            K@[t - 1],
        ).wrapping_add(schedule_word(block, t - 1));
        let temp2 = spec_big_sigma_0(a).wrapping_add(spec_maj(a, b, c));
        (temp1.wrapping_add(temp2), a, b, c, d.wrapping_add(temp1), e, f, g)
    }
}

/// One block folded into the running state: 64 rounds, then a wrapping
/// addition of each register into its state word.
pub open spec fn compress_block(h: Seq<u32>, block: Seq<u8>) -> Seq<u32>
    recommends
        h.len() == 8,
        block.len() == 64,
{
    let s = spec_rounds((h[0], h[1], h[2], h[3], h[4], h[5], h[6], h[7]), block, 64);
    seq![
        h[0].wrapping_add(s.0),
        h[1].wrapping_add(s.1),
        h[2].wrapping_add(s.2),
        h[3].wrapping_add(s.3),
        h[4].wrapping_add(s.4),
        h[5].wrapping_add(s.5),
        h[6].wrapping_add(s.6),
        h[7].wrapping_add(s.7),
    ]
}

/// The running state after the first `i` blocks of the padded message.
pub open spec fn state_after(padded: Seq<u8>, i: int) -> Seq<u32>
    recommends
        padded.len() % 64 == 0,
        0 <= i <= padded.len() / 64,
    decreases i,
{
    if i <= 0 {
        H@
    } else {
        compress_block(state_after(padded, i - 1), padded.subrange(64 * (i - 1), 64 * i))
    }
}

/// The SHA-256 digest of a message: the running state after every block
/// of the padded message, as eight 32-bit words.
pub open spec fn sha256(message: Seq<u8>) -> Seq<u32> {
    let padded = padded_message(message);
    state_after(padded, padded.len() as int / 64)
}

/// Law: the digest is a function of the message alone, so hashing the
/// same message twice yields identical digests.
pub proof fn lemma_hash_deterministic(m1: Seq<u8>, m2: Seq<u8>)
    requires
        m1 == m2,
    ensures
        sha256(m1) == sha256(m2),
{
}

/// Create a SHA-256 hash of a message, returned as eight u32 values.
pub fn hash(message: &[u8]) -> (digest: [u32; 8])
    requires
        message@.len() * 8 <= u64::MAX,
        message@.len() + 72 <= usize::MAX,
    ensures
        digest@ == sha256(message@),
{
    let message_bytes = message_padding(message);
    let ghost padded = message_bytes@;
    let num_blocks = message_bytes.len() / 64;
    assert(message_bytes@.len() == 64 * num_blocks);
    assert(64 * num_blocks <= usize::MAX);

    let mut h_const = H;
    assert(h_const@ == state_after(padded, 0));

    let mut i: usize = 0;
    while i < num_blocks
        invariant
            i <= num_blocks,
            padded == message_bytes@,
            padded.len() == 64 * num_blocks,
            64 * num_blocks <= usize::MAX,
            h_const@ == state_after(padded, i as int),
        decreases num_blocks - i,
    {
        let ghost block = padded.subrange(64 * i as int, 64 * i as int + 64);

        let mut w = [0u32; 64];
        let mut t: usize = 0;
        while t < 16
            invariant
                t <= 16,
                i < num_blocks,
                padded == message_bytes@,
                padded.len() == 64 * num_blocks,
                64 * num_blocks <= usize::MAX,
                block == padded.subrange(64 * i as int, 64 * i as int + 64),
                forall|j: int| 0 <= j < t ==> w@[j] == schedule_word(block, j),
            decreases 16 - t,
        {
            assert(64 * (i as int) + 64 <= padded.len());
            let w_t = ((message_bytes[64 * i + 4 * t] as u32) << 24) | ((message_bytes[64 * i + 4
                * t + 1] as u32) << 16) | ((message_bytes[64 * i + 4 * t + 2] as u32) << 8) | (
            message_bytes[64 * i + 4 * t + 3] as u32);
            assert(w_t == be_word32(
                block[4 * t as int],
                block[4 * t as int + 1],
                block[4 * t as int + 2],
                block[4 * t as int + 3],
            ));
            w[t] = w_t;
            assert(w@[t as int] == schedule_word(block, t as int));
            t = t + 1;
        }
        while t < 64
            invariant
                16 <= t <= 64,
                block == padded.subrange(64 * i as int, 64 * i as int + 64),
                forall|j: int| 0 <= j < t ==> w@[j] == schedule_word(block, j),
            decreases 64 - t,
        {
            let w_t = small_sigma_1(w[t - 2]).wrapping_add(w[t - 7]).wrapping_add(
                small_sigma_0(w[t - 15]),
            ).wrapping_add(w[t - 16]);
            assert(schedule_word(block, t as int) == spec_small_sigma_1(
                schedule_word(block, t as int - 2),
            ).wrapping_add(schedule_word(block, t as int - 7)).wrapping_add(
                spec_small_sigma_0(schedule_word(block, t as int - 15)),
            ).wrapping_add(schedule_word(block, t as int - 16)));
            w[t] = w_t;
            assert(w@[t as int] == schedule_word(block, t as int));
            t = t + 1;
        }

        let ghost regs_in = (
            h_const@[0],
            h_const@[1],
            h_const@[2],
            h_const@[3],
            h_const@[4],
            h_const@[5],
            h_const@[6],
            h_const@[7],
        );
        let mut a = h_const[0];
        let mut b = h_const[1];
        let mut c = h_const[2];
        let mut d = h_const[3];
        let mut e = h_const[4];
        let mut f = h_const[5];
        let mut g = h_const[6];
        let mut h = h_const[7];

        let mut t: usize = 0;
        while t < 64
            invariant
                t <= 64,
                block == padded.subrange(64 * i as int, 64 * i as int + 64),
                forall|j: int| 0 <= j < 64 ==> w@[j] == schedule_word(block, j),
                regs_in == (
                    h_const@[0],
                    h_const@[1],
                    h_const@[2],
                    h_const@[3],
                    h_const@[4],
                    h_const@[5],
                    h_const@[6],
                    h_const@[7],
                ),
                (a, b, c, d, e, f, g, h) == spec_rounds(regs_in, block, t as int),
            decreases 64 - t,
        {
            let temp1 = h.wrapping_add(big_sigma_1(e)).wrapping_add(ch(e, f, g)).wrapping_add(
                K[t],
            ).wrapping_add(w[t]);
            let temp2 = big_sigma_0(a).wrapping_add(maj(a, b, c));
            h = g;
            g = f;
            f = e;
            e = d.wrapping_add(temp1);
            d = c;
            c = b;
            b = a;
            a = temp1.wrapping_add(temp2);
            t = t + 1;
        }

        h_const[0] = h_const[0].wrapping_add(a);
        h_const[1] = h_const[1].wrapping_add(b);
        h_const[2] = h_const[2].wrapping_add(c);
        h_const[3] = h_const[3].wrapping_add(d);
        h_const[4] = h_const[4].wrapping_add(e);
        h_const[5] = h_const[5].wrapping_add(f);
        h_const[6] = h_const[6].wrapping_add(g);
        h_const[7] = h_const[7].wrapping_add(h);
        assert(h_const@ =~= compress_block(state_after(padded, i as int), block));
        i = i + 1;
    }

    h_const
}

} // verus!

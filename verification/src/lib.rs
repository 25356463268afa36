//! SHA-1, SHA-256 and SHA-512 digests, each proved against a direct
//! statement of its FIPS 180 recurrences: big-endian message padding,
//! word-schedule expansion, and the round-based compression function.
//!
//! SHA-1 lives at the crate root; the two larger digests in their own
//! modules.

pub mod sha256;
pub mod sha512;

use vstd::arithmetic::div_mod::{lemma_fundamental_div_mod, lemma_mod_multiples_vanish,
    lemma_small_mod};
use vstd::prelude::*;

verus! {

broadcast use vstd::array::group_array_axioms;

/// K constants for SHA-1, one per group of twenty rounds.
pub const K: [u32; 4] = [0x5A827999, 0x6ED9EBA1, 0x8F1BBCDC, 0xCA62C1D6];

/// Initial hash values for SHA-1.
pub const H: [u32; 5] = [0x67452301, 0xEFCDAB89, 0x98BADCFE, 0x10325476, 0xC3D2E1F0];

/// Rotation of a 32-bit word left by `n` bits, `1 <= n <= 31`.
pub open spec fn rotl32(x: u32, n: u32) -> u32
    recommends
        1 <= n <= 31,
{
    (x << n) | (x >> (32 - n) as u32)
}

/// A circular left shift operation is defined by the following:
/// (X << n) OR (X >> (32 - n))
pub fn circular_left_shift(x: u32, n: u32) -> (r: u32)
    requires
        1 <= n <= 31,
    ensures
        r == rotl32(x, n),
{
    (x << n) | (x >> (32 - n))
}

/// Count of zero bytes between the sentinel byte and the length trailer:
/// the least `p >= 0` with `(len + 1 + p + 8) % 64 == 0`.
pub open spec fn pad_zero_count(len: int) -> int {
    (64 - ((len + 9) % 64)) % 64
}

/// The eight bytes of a 64-bit word, most significant first.
pub open spec fn be_bytes_u64(n: u64) -> Seq<u8> {
    seq![
        (n >> 56) as u8,
        (n >> 48) as u8,
        (n >> 40) as u8,
        (n >> 32) as u8,
        (n >> 24) as u8,
        (n >> 16) as u8,
        (n >> 8) as u8,
        n as u8,
    ]
}

/// The value of eight bytes read as one big-endian 64-bit integer.
pub open spec fn be_value_u64(b: Seq<u8>) -> u64
    recommends
        b.len() == 8,
{
    ((b[0] as u64) << 56) | ((b[1] as u64) << 48) | ((b[2] as u64) << 40) | ((b[3] as u64) << 32)
        | ((b[4] as u64) << 24) | ((b[5] as u64) << 16) | ((b[6] as u64) << 8) | (b[7] as u64)
}

/// The message followed by the sentinel byte 0x80, a zero fill, and the
/// bit length of the message as a big-endian 64-bit trailer.
pub open spec fn padded_message(message: Seq<u8>) -> Seq<u8> {
    message + seq![0x80u8] + Seq::new(pad_zero_count(message.len() as int) as nat, |i: int| 0u8)
        + be_bytes_u64((message.len() * 8) as u64)
}

/// Law: the zero fill is the least count that lands the sentinel byte,
/// fill and length trailer together on a block boundary.
pub proof fn lemma_pad_zero_count_minimal(len: int)
    requires
        len >= 0,
    ensures
        0 <= pad_zero_count(len) < 64,
        (len + 1 + pad_zero_count(len) + 8) % 64 == 0,
        forall|p: int| 0 <= p < pad_zero_count(len) ==> #[trigger] ((len + 1 + p + 8) % 64) != 0,
{
    let r = (len + 9) % 64;
    lemma_fundamental_div_mod(len + 9, 64);
    let q = (len + 9) / 64;
    if r == 0 {
        assert(pad_zero_count(len) == 0);
    } else {
        assert(pad_zero_count(len) == 64 - r);
        lemma_mod_multiples_vanish(q + 1, 0, 64);
        assert(len + 1 + pad_zero_count(len) + 8 == 64 * (q + 1) + 0);
        assert forall|p: int|
            0 <= p < pad_zero_count(len) implies #[trigger] ((len + 1 + p + 8) % 64) != 0 by {
            lemma_mod_multiples_vanish(q, r + p, 64);
            lemma_small_mod((r + p) as nat, 64 as nat);
            assert(len + 1 + p + 8 == 64 * q + (r + p));
        }
    }
}

/// Law: for every message, the padded length is a multiple of the
/// 64-byte block size.
pub proof fn lemma_padded_length_block_multiple(message: Seq<u8>)
    ensures
        padded_message(message).len() % 64 == 0,
{
    let len = message.len() as int;
    lemma_pad_zero_count_minimal(len);
    assert(padded_message(message).len() == len + 1 + pad_zero_count(len) + 8);
}

/// Law: the last eight bytes of the padded message decode, as a
/// big-endian integer, to eight times the original byte length.
pub proof fn lemma_padded_trailer_bit_length(message: Seq<u8>)
    requires
        message.len() * 8 <= u64::MAX,
    ensures
        be_value_u64(padded_message(message).skip(padded_message(message).len() - 8)) == message.len() * 8,
{
    let padded = padded_message(message);
    let n = (message.len() * 8) as u64;
    assert(padded.skip(padded.len() - 8) =~= be_bytes_u64(n));
    assert(((((n >> 56) as u8) as u64) << 56) | ((((n >> 48) as u8) as u64) << 48)
        | ((((n >> 40) as u8) as u64) << 40) | ((((n >> 32) as u8) as u64) << 32)
        | ((((n >> 24) as u8) as u64) << 24) | ((((n >> 16) as u8) as u64) << 16)
        | ((((n >> 8) as u8) as u64) << 8) | ((n as u8) as u64) == n) by (bit_vector);
}

/// Following the standard, the message is to be padded as follows:
/// 1. Append a 1 bit to the message
/// 2. Append 0 bits until the length of the message is congruent to 448 mod 512
/// 3. Append the length of the message in bits as a 64 bit number
pub fn message_padding(message: &[u8]) -> (padded: Vec<u8>)
    requires
        message@.len() * 8 <= u64::MAX,
        message@.len() + 72 <= usize::MAX,
    ensures
        padded@ == padded_message(message@),
        padded@.len() % 64 == 0,
{
    let message_len_bits: u64 = (message.len() as u64) * 8;
    let mut message_bytes: Vec<u8> = Vec::new();

    let mut i: usize = 0;
    while i < message.len()
        invariant
            i <= message@.len(),
            message@.len() + 72 <= usize::MAX,
            message_bytes@ == message@.subrange(0, i as int),
        decreases message@.len() - i,
    {
        message_bytes.push(message[i]);
        assert(message_bytes@ =~= message@.subrange(0, i + 1));
        i = i + 1;
    }
    assert(message_bytes@ =~= message@);

    // append 1 bit as per the standard
    message_bytes.push(0x80);

    // message must be a multiple of 512 bits, so add padding to the message until it is
    let padding_len: usize = (64 - (message_bytes.len() + 8) % 64) % 64;
    assert(padding_len == pad_zero_count(message@.len() as int));

    let mut j: usize = 0;
    while j < padding_len
        invariant
            j <= padding_len,
            padding_len == pad_zero_count(message@.len() as int),
            message_bytes@ == message@ + seq![0x80u8] + Seq::new(j as nat, |k: int| 0u8),
        decreases padding_len - j,
    {
        message_bytes.push(0);
        assert(message_bytes@ =~= message@ + seq![0x80u8] + Seq::new((j + 1) as nat, |k: int| 0u8));
        j = j + 1;
    }

    // now just append the length of the message (as stated in the standard)
    message_bytes.push(#[verifier::truncate] ((message_len_bits >> 56) as u8));
    message_bytes.push(#[verifier::truncate] ((message_len_bits >> 48) as u8));
    message_bytes.push(#[verifier::truncate] ((message_len_bits >> 40) as u8));
    message_bytes.push(#[verifier::truncate] ((message_len_bits >> 32) as u8));
    message_bytes.push(#[verifier::truncate] ((message_len_bits >> 24) as u8));
    message_bytes.push(#[verifier::truncate] ((message_len_bits >> 16) as u8));
    message_bytes.push(#[verifier::truncate] ((message_len_bits >> 8) as u8));
    message_bytes.push(#[verifier::truncate] (message_len_bits as u8));

    assert(message_bytes@ =~= padded_message(message@));
    proof {
        lemma_padded_length_block_multiple(message@);
    }
    message_bytes
}

/// Big-endian decoding of four message bytes into one schedule word.
pub open spec fn be_word32(b0: u8, b1: u8, b2: u8, b3: u8) -> u32 {
    ((b0 as u32) << 24) | ((b1 as u32) << 16) | ((b2 as u32) << 8) | (b3 as u32)
}

/// Word `t` of the schedule for one 64-byte block: the first sixteen are
/// the block's words, the rest follow the SHA-1 recurrence.
pub open spec fn schedule_word(block: Seq<u8>, t: int) -> u32
    recommends
        block.len() == 64,
        0 <= t < 80,
    decreases t,
{
    if t < 16 {
        be_word32(block[4 * t], block[4 * t + 1], block[4 * t + 2], block[4 * t + 3])
    } else {
        rotl32(
            schedule_word(block, t - 3) ^ schedule_word(block, t - 8) ^ schedule_word(block, t - 14)
                ^ schedule_word(block, t - 16),
            1,
        )
    }
}

/// The round function f(t;B,C,D) of the standard, selected by the range
/// that the round index falls in.
pub open spec fn spec_f(t: int, b: u32, c: u32, d: u32) -> u32
    recommends
        0 <= t < 80,
{
    if t <= 19 {
        (b & c) | ((!b) & d)
    } else if t <= 39 {
        b ^ c ^ d
    } else if t <= 59 {
        (b & c) | (b & d) | (c & d)
    } else {
        b ^ c ^ d
    }
}

/// The round constant K(t), selected by the same four ranges as f.
pub open spec fn spec_k(t: int) -> u32
    recommends
        0 <= t < 80,
{
    if t <= 19 {
        K@[0]
    } else if t <= 39 {
        K@[1]
    } else if t <= 59 {
        K@[2]
    } else {
        K@[3]
    }
}

/// The function f(t;B,C,D) is defined as follows:
/// f(t;B,C,D) = (B AND C) OR ((NOT B) AND D) when 0 ≤ t ≤ 19
/// f(t;B,C,D) = B XOR C XOR D when 20 ≤ t ≤ 39
/// f(t;B,C,D) = (B AND C) OR (B AND D) OR (C AND D) when 40 ≤ t ≤ 59
/// f(t;B,C,D) = B XOR C XOR D when 60 ≤ t ≤ 79
pub fn func_f(t: u32, b: u32, c: u32, d: u32) -> (r: u32)
    requires
        t < 80,
    ensures
        r == spec_f(t as int, b, c, d),
{
    match t {
        0..=19 => (b & c) | ((!b) & d),
        20..=39 => b ^ c ^ d,
        40..=59 => (b & c) | (b & d) | (c & d),
        _ => b ^ c ^ d,
    }
}

/// The Kt values are defined as follows:
/// Kt = 0x5A827999 when 0 ≤ t ≤ 19
/// Kt = 0x6ED9EBA1 when 20 ≤ t ≤ 39
/// Kt = 0x8F1BBCDC when 40 ≤ t ≤ 59
/// Kt = 0xCA62C1D6 when 60 ≤ t ≤ 79
pub fn get_k(t: u32) -> (r: u32)
    requires
        t < 80,
    ensures
        r == spec_k(t as int),
{
    match t {
        0..=19 => K[0],
        20..=39 => K[1],
        40..=59 => K[2],
        _ => K[3],
    }
}

/// The five working registers after the first `t` rounds on `block`,
/// starting from the registers `h`.
pub open spec fn spec_rounds(h: (u32, u32, u32, u32, u32), block: Seq<u8>, t: int) -> (
    u32,
    u32,
    u32,
    u32,
    u32,
)
    recommends
        block.len() == 64,
        0 <= t <= 80,
    decreases t,
{
    if t <= 0 {
        h
    } else {
        let (a, b, c, d, e) = spec_rounds(h, block, t - 1);
        let temp = rotl32(a, 5).wrapping_add(spec_f(t - 1, b, c, d)).wrapping_add(e).wrapping_add(
            schedule_word(block, t - 1),
        ).wrapping_add(spec_k(t - 1));
        (temp, a, rotl32(b, 30), c, d)
    }
}

/// One block folded into the running state: eighty rounds, then a
/// wrapping addition of each register into its state word.
pub open spec fn compress_block(h: Seq<u32>, block: Seq<u8>) -> Seq<u32>
    recommends
        h.len() == 5,
        block.len() == 64,
{
    let s = spec_rounds((h[0], h[1], h[2], h[3], h[4]), block, 80);
    seq![
        h[0].wrapping_add(s.0),
        h[1].wrapping_add(s.1),
        h[2].wrapping_add(s.2),
        h[3].wrapping_add(s.3),
        h[4].wrapping_add(s.4),
    ]
}

/// The running state after the first `i` blocks of the padded message.
pub open spec fn state_after(padded: Seq<u8>, i: int) -> Seq<u32>
    recommends
        padded.len() % 64 == 0,
        0 <= i <= padded.len() / 64,
    decreases i,
{
    if i <= 0 {
        H@
    } else {
        compress_block(state_after(padded, i - 1), padded.subrange(64 * (i - 1), 64 * i))
    }
}

/// The SHA-1 digest of a message: the running state after every block of
/// the padded message, as five 32-bit words.
pub open spec fn sha1(message: Seq<u8>) -> Seq<u32> {
    let padded = padded_message(message);
    state_after(padded, padded.len() as int / 64)
}

/// Law: the digest is a function of the message alone, so hashing the
/// same message twice yields identical digests.
pub proof fn lemma_hash_deterministic(m1: Seq<u8>, m2: Seq<u8>)
    requires
        m1 == m2,
    ensures
        sha1(m1) == sha1(m2),
{
}

/// The main hashing function of the SHA-1 algorithm.
/// It expects a message as a byte slice and returns the hash as an array
/// of 5 u32 values.
pub fn hash(message: &[u8]) -> (digest: [u32; 5])
    requires
        message@.len() * 8 <= u64::MAX,
        message@.len() + 72 <= usize::MAX,
    ensures
        digest@ == sha1(message@),
{
    let message_bytes = message_padding(message);
    let ghost padded = message_bytes@;
    let num_blocks = message_bytes.len() / 64;
    assert(message_bytes@.len() == 64 * num_blocks);
    assert(64 * num_blocks <= usize::MAX);

    let mut h = H;
    assert(h@ == state_after(padded, 0));

    let mut i: usize = 0;
    while i < num_blocks
        invariant
            i <= num_blocks,
            padded == message_bytes@,
            padded.len() == 64 * num_blocks,
            64 * num_blocks <= usize::MAX,
            h@ == state_after(padded, i as int),
        decreases num_blocks - i,
    {
        let ghost block = padded.subrange(64 * i as int, 64 * i as int + 64);

        let mut w = [0u32; 80];
        let mut t: usize = 0;
        while t < 16
            invariant
                t <= 16,
                i < num_blocks,
                padded == message_bytes@,
                padded.len() == 64 * num_blocks,
                64 * num_blocks <= usize::MAX,
                block == padded.subrange(64 * i as int, 64 * i as int + 64),
                forall|j: int| 0 <= j < t ==> w@[j] == schedule_word(block, j),
            decreases 16 - t,
        {
            assert(64 * (i as int) + 64 <= padded.len());
            let w_t = ((message_bytes[64 * i + 4 * t] as u32) << 24) | ((message_bytes[64 * i + 4
                * t + 1] as u32) << 16) | ((message_bytes[64 * i + 4 * t + 2] as u32) << 8) | (
            message_bytes[64 * i + 4 * t + 3] as u32);
            assert(w_t == be_word32(
                block[4 * t as int],
                block[4 * t as int + 1],
                block[4 * t as int + 2],
                block[4 * t as int + 3],
            ));
            w[t] = w_t;
            assert(w@[t as int] == schedule_word(block, t as int));
            t = t + 1;
        }
        while t < 80
            invariant
                16 <= t <= 80,
                block == padded.subrange(64 * i as int, 64 * i as int + 64),
                forall|j: int| 0 <= j < t ==> w@[j] == schedule_word(block, j),
            decreases 80 - t,
        {
            let w_t = circular_left_shift(w[t - 3] ^ w[t - 8] ^ w[t - 14] ^ w[t - 16], 1);
            assert(schedule_word(block, t as int) == rotl32(
                schedule_word(block, t as int - 3) ^ schedule_word(block, t as int - 8)
                    ^ schedule_word(block, t as int - 14) ^ schedule_word(block, t as int - 16),
                1,
            ));
            w[t] = w_t;
            assert(w@[t as int] == schedule_word(block, t as int));
            t = t + 1;
        }

        let ghost h_in = (h@[0], h@[1], h@[2], h@[3], h@[4]);
        let mut a = h[0];
        let mut b = h[1];
        let mut c = h[2];
        let mut d = h[3];
        let mut e = h[4];
        let mut t: u32 = 0;
        while t < 80
            invariant
                t <= 80,
                block == padded.subrange(64 * i as int, 64 * i as int + 64),
                forall|j: int| 0 <= j < 80 ==> w@[j] == schedule_word(block, j),
                h_in == (h@[0], h@[1], h@[2], h@[3], h@[4]),
                (a, b, c, d, e) == spec_rounds(h_in, block, t as int),
            decreases 80 - t,
        {
            let temp = circular_left_shift(a, 5).wrapping_add(func_f(t, b, c, d)).wrapping_add(
                e,
            ).wrapping_add(w[t as usize]).wrapping_add(get_k(t));
            e = d;
            d = c;
            c = circular_left_shift(b, 30);
            b = a;
            a = temp;
            t = t + 1;
        }

        h[0] = h[0].wrapping_add(a);
        h[1] = h[1].wrapping_add(b);
        h[2] = h[2].wrapping_add(c);
        h[3] = h[3].wrapping_add(d);
        h[4] = h[4].wrapping_add(e);
        assert(h@ =~= compress_block(state_after(padded, i as int), block));
        i = i + 1;
    }
    h
}

} // verus!

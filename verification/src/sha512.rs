//! SHA-512: 128-byte blocks, eight 64-bit state words, 80 rounds, and a
//! 16-byte big-endian bit-length trailer in the padding.

use vstd::arithmetic::div_mod::{lemma_fundamental_div_mod, lemma_mod_multiples_vanish,
    lemma_small_mod};
use vstd::prelude::*;

verus! {

broadcast use vstd::array::group_array_axioms;

/// Initial hash values.
pub const H: [u64; 8] = [
    0x6a09e667f3bcc908,
    0xbb67ae8584caa73b,
    0x3c6ef372fe94f82b,
    0xa54ff53a5f1d36f1,
    0x510e527fade682d1,
    0x9b05688c2b3e6c1f,
    0x1f83d9abfb41bd6b,
    0x5be0cd19137e2179,
];

/// Constants K as defined in the standard, one per round.
pub const K: [u64; 80] = [
    0x428a2f98d728ae22, 0x7137449123ef65cd, 0xb5c0fbcfec4d3b2f, 0xe9b5dba58189dbbc,
    0x3956c25bf348b538, 0x59f111f1b605d019, 0x923f82a4af194f9b, 0xab1c5ed5da6d8118,
    0xd807aa98a3030242, 0x12835b0145706fbe, 0x243185be4ee4b28c, 0x550c7dc3d5ffb4e2,
    0x72be5d74f27b896f, 0x80deb1fe3b1696b1, 0x9bdc06a725c71235, 0xc19bf174cf692694,
    0xe49b69c19ef14ad2, 0xefbe4786384f25e3, 0x0fc19dc68b8cd5b5, 0x240ca1cc77ac9c65,
    0x2de92c6f592b0275, 0x4a7484aa6ea6e483, 0x5cb0a9dcbd41fbd4, 0x76f988da831153b5,
    0x983e5152ee66dfab, 0xa831c66d2db43210, 0xb00327c898fb213f, 0xbf597fc7beef0ee4,
    0xc6e00bf33da88fc2, 0xd5a79147930aa725, 0x06ca6351e003826f, 0x142929670a0e6e70,
    0x27b70a8546d22ffc, 0x2e1b21385c26c926, 0x4d2c6dfc5ac42aed, 0x53380d139d95b3df,
    0x650a73548baf63de, 0x766a0abb3c77b2a8, 0x81c2c92e47edaee6, 0x92722c851482353b,
    0xa2bfe8a14cf10364, 0xa81a664bbc423001, 0xc24b8b70d0f89791, 0xc76c51a30654be30,
    0xd192e819d6ef5218, 0xd69906245565a910, 0xf40e35855771202a, 0x106aa07032bbd1b8,
    0x19a4c116b8d2d0c8, 0x1e376c085141ab53, 0x2748774cdf8eeb99, 0x34b0bcb5e19b48a8,
    0x391c0cb3c5c95a63, 0x4ed8aa4ae3418acb, 0x5b9cca4f7763e373, 0x682e6ff3d6b2b8a3,
    0x748f82ee5defb2fc, 0x78a5636f43172f60, 0x84c87814a1f0ab72, 0x8cc702081a6439ec,
    0x90befffa23631e28, 0xa4506cebde82bde9, 0xbef9a3f7b2c67915, 0xc67178f2e372532b,
    0xca273eceea26619c, 0xd186b8c721c0c207, 0xeada7dd6cde0eb1e, 0xf57d4f7fee6ed178,
    0x06f067aa72176fba, 0x0a637dc5a2c898a6, 0x113f9804bef90dae, 0x1b710b35131c471b,
    0x28db77f523047d84, 0x32caab7b40c72493, 0x3c9ebe0a15c9bebc, 0x431d67c49c100d4c,
    0x4cc5d4becb3e42b6, 0x597f299cfc657e2a, 0x5fcb6fab3ad6faec, 0x6c44198c4a475817,
];

/// Rotation of a 64-bit word right by `n` bits, `1 <= n <= 63`.
pub open spec fn rotr64(x: u64, n: u64) -> u64
    recommends
        1 <= n <= 63,
{
    (x >> n) | (x << (64 - n) as u64)
}

/// A circular right shift: (X >> n) OR (X << (64 - n)).
fn circular_right_shift(x: u64, n: u64) -> (r: u64)
    requires
        1 <= n <= 63,
    ensures
        r == rotr64(x, n),
{
    (x >> n) | (x << (64 - n))
}

/// Count of zero bytes between the sentinel byte and the length trailer:
/// the least `p >= 0` with `(len + 1 + p + 16) % 128 == 0`.
pub open spec fn pad_zero_count(len: int) -> int {
    (128 - ((len + 17) % 128)) % 128
}

/// The sixteen bytes of a 128-bit word, most significant first.
pub open spec fn be_bytes_u128(n: u128) -> Seq<u8> {
    seq![
        (n >> 120) as u8,
        (n >> 112) as u8,
        (n >> 104) as u8,
        (n >> 96) as u8,
        (n >> 88) as u8,
        (n >> 80) as u8,
        (n >> 72) as u8,
        (n >> 64) as u8,
        (n >> 56) as u8,
        (n >> 48) as u8,
        (n >> 40) as u8,
        (n >> 32) as u8,
        (n >> 24) as u8,
        (n >> 16) as u8,
        (n >> 8) as u8,
        n as u8,
    ]
}

/// The value of sixteen bytes read as one big-endian 128-bit integer.
pub open spec fn be_value_u128(b: Seq<u8>) -> u128
    recommends
        b.len() == 16,
{
    ((b[0] as u128) << 120) | ((b[1] as u128) << 112) | ((b[2] as u128) << 104) | ((b[3]
        as u128) << 96) | ((b[4] as u128) << 88) | ((b[5] as u128) << 80) | ((b[6] as u128) << 72)
        | ((b[7] as u128) << 64) | ((b[8] as u128) << 56) | ((b[9] as u128) << 48) | ((b[10]
        as u128) << 40) | ((b[11] as u128) << 32) | ((b[12] as u128) << 24) | ((b[13]
        as u128) << 16) | ((b[14] as u128) << 8) | (b[15] as u128)
}

/// The message followed by the sentinel byte 0x80, a zero fill, and the
/// bit length of the message as a big-endian 128-bit trailer.
pub open spec fn padded_message(message: Seq<u8>) -> Seq<u8> {
    message + seq![0x80u8] + Seq::new(pad_zero_count(message.len() as int) as nat, |i: int| 0u8)
        + be_bytes_u128((message.len() * 8) as u128)
}

/// Law: the zero fill is the least count that lands the sentinel byte,
/// fill and length trailer together on a block boundary.
pub proof fn lemma_pad_zero_count_minimal(len: int)
    requires
        len >= 0,
    ensures
        0 <= pad_zero_count(len) < 128,
        (len + 1 + pad_zero_count(len) + 16) % 128 == 0,
        forall|p: int|
            0 <= p < pad_zero_count(len) ==> #[trigger] ((len + 1 + p + 16) % 128) != 0,
{
    let r = (len + 17) % 128;
    lemma_fundamental_div_mod(len + 17, 128);
    let q = (len + 17) / 128;
    if r == 0 {
        assert(pad_zero_count(len) == 0);
    } else {
        assert(pad_zero_count(len) == 128 - r);
        lemma_mod_multiples_vanish(q + 1, 0, 128);
        assert(len + 1 + pad_zero_count(len) + 16 == 128 * (q + 1) + 0);
        assert forall|p: int|
            0 <= p < pad_zero_count(len) implies #[trigger] ((len + 1 + p + 16) % 128) != 0 by {
            lemma_mod_multiples_vanish(q, r + p, 128);
            lemma_small_mod((r + p) as nat, 128 as nat);
            assert(len + 1 + p + 16 == 128 * q + (r + p));
        }
    }
}

/// Law: for every message, the padded length is a multiple of the
/// 128-byte block size.
pub proof fn lemma_padded_length_block_multiple(message: Seq<u8>)
    ensures
        padded_message(message).len() % 128 == 0,
{
    let len = message.len() as int;
    lemma_pad_zero_count_minimal(len);
    assert(padded_message(message).len() == len + 1 + pad_zero_count(len) + 16);
}

/// Law: the last sixteen bytes of the padded message decode, as a
/// big-endian integer, to eight times the original byte length.
pub proof fn lemma_padded_trailer_bit_length(message: Seq<u8>)
    requires
        message.len() * 8 <= u128::MAX,
    ensures
        be_value_u128(padded_message(message).skip(padded_message(message).len() - 16))
            == message.len() * 8,
{
    let padded = padded_message(message);
    let n = (message.len() * 8) as u128;
    assert(padded.skip(padded.len() - 16) =~= be_bytes_u128(n));
    assert(((((n >> 120) as u8) as u128) << 120) | ((((n >> 112) as u8) as u128) << 112)
        | ((((n >> 104) as u8) as u128) << 104) | ((((n >> 96) as u8) as u128) << 96) | ((((n
        >> 88) as u8) as u128) << 88) | ((((n >> 80) as u8) as u128) << 80) | ((((n >> 72) as u8)
        as u128) << 72) | ((((n >> 64) as u8) as u128) << 64) | ((((n >> 56) as u8) as u128) << 56)
        | ((((n >> 48) as u8) as u128) << 48) | ((((n >> 40) as u8) as u128) << 40) | ((((n
        >> 32) as u8) as u128) << 32) | ((((n >> 24) as u8) as u128) << 24) | ((((n >> 16) as u8)
        as u128) << 16) | ((((n >> 8) as u8) as u128) << 8) | ((n as u8) as u128) == n)
        by (bit_vector);
}

/// Following the standard, the message is to be padded as follows:
/// 1. Append a 1 bit to the message
/// 2. Append 0 bits until the length of the message is congruent to 896 mod 1024
/// 3. Append the length of the message in bits as a 128 bit number
pub fn message_padding(message: &[u8]) -> (padded: Vec<u8>)
    requires
        message@.len() + 144 <= usize::MAX,
    ensures
        padded@ == padded_message(message@),
        padded@.len() % 128 == 0,
{
    let message_len_bits: u128 = (message.len() as u128) * 8;
    let mut message_bytes: Vec<u8> = Vec::new();

    let mut i: usize = 0;
    while i < message.len()
        invariant
            i <= message@.len(),
            message@.len() + 144 <= usize::MAX,
            message_bytes@ == message@.subrange(0, i as int),
        decreases message@.len() - i,
    {
        message_bytes.push(message[i]);
        assert(message_bytes@ =~= message@.subrange(0, i + 1));
        i = i + 1;
    }
    assert(message_bytes@ =~= message@);

    message_bytes.push(0x80);

    // The total length (message + padding + length field) should be a
    // multiple of 1024 bits.
    let padding_len: usize = (128 - (message_bytes.len() + 16) % 128) % 128;
    assert(padding_len == pad_zero_count(message@.len() as int));

    let mut j: usize = 0;
    while j < padding_len
        invariant
            j <= padding_len,
            padding_len == pad_zero_count(message@.len() as int),
            message_bytes@ == message@ + seq![0x80u8] + Seq::new(j as nat, |k: int| 0u8),
        decreases padding_len - j,
    {
        message_bytes.push(0);
        assert(message_bytes@ =~= message@ + seq![0x80u8] + Seq::new((j + 1) as nat, |k: int| 0u8));
        j = j + 1;
    }

    message_bytes.push(#[verifier::truncate] ((message_len_bits >> 120) as u8));
    message_bytes.push(#[verifier::truncate] ((message_len_bits >> 112) as u8));
    message_bytes.push(#[verifier::truncate] ((message_len_bits >> 104) as u8));
    message_bytes.push(#[verifier::truncate] ((message_len_bits >> 96) as u8));
    message_bytes.push(#[verifier::truncate] ((message_len_bits >> 88) as u8));
    message_bytes.push(#[verifier::truncate] ((message_len_bits >> 80) as u8));
    message_bytes.push(#[verifier::truncate] ((message_len_bits >> 72) as u8));
    message_bytes.push(#[verifier::truncate] ((message_len_bits >> 64) as u8));
    message_bytes.push(#[verifier::truncate] ((message_len_bits >> 56) as u8));
    message_bytes.push(#[verifier::truncate] ((message_len_bits >> 48) as u8));
    message_bytes.push(#[verifier::truncate] ((message_len_bits >> 40) as u8));
    message_bytes.push(#[verifier::truncate] ((message_len_bits >> 32) as u8));
    message_bytes.push(#[verifier::truncate] ((message_len_bits >> 24) as u8));
    message_bytes.push(#[verifier::truncate] ((message_len_bits >> 16) as u8));
    message_bytes.push(#[verifier::truncate] ((message_len_bits >> 8) as u8));
    message_bytes.push(#[verifier::truncate] (message_len_bits as u8));

    assert(message_bytes@ =~= padded_message(message@));
    proof {
        lemma_padded_length_block_multiple(message@);
    }
    message_bytes
}

pub open spec fn spec_ch(x: u64, y: u64, z: u64) -> u64 {
    (x & y) ^ ((!x) & z)
}

pub open spec fn spec_maj(x: u64, y: u64, z: u64) -> u64 {
    (x & y) ^ (x & z) ^ (y & z)
}

pub open spec fn spec_big_sigma_0(x: u64) -> u64 {
    rotr64(x, 28) ^ rotr64(x, 34) ^ rotr64(x, 39)
}

pub open spec fn spec_big_sigma_1(x: u64) -> u64 {
    rotr64(x, 14) ^ rotr64(x, 18) ^ rotr64(x, 41)
}

pub open spec fn spec_small_sigma_0(x: u64) -> u64 {
    rotr64(x, 1) ^ rotr64(x, 8) ^ (x >> 7)
}

pub open spec fn spec_small_sigma_1(x: u64) -> u64 {
    rotr64(x, 19) ^ rotr64(x, 61) ^ (x >> 6)
}

// functions
pub fn ch(x: u64, y: u64, z: u64) -> (r: u64)
    ensures
        r == spec_ch(x, y, z),
{
    (x & y) ^ ((!x) & z)
}

pub fn maj(x: u64, y: u64, z: u64) -> (r: u64)
    ensures
        r == spec_maj(x, y, z),
{
    (x & y) ^ (x & z) ^ (y & z)
}

pub fn big_sigma_0(x: u64) -> (r: u64)
    ensures
        r == spec_big_sigma_0(x),
{
    circular_right_shift(x, 28) ^ circular_right_shift(x, 34) ^ circular_right_shift(x, 39)
}

pub fn big_sigma_1(x: u64) -> (r: u64)
    ensures
        r == spec_big_sigma_1(x),
{
    circular_right_shift(x, 14) ^ circular_right_shift(x, 18) ^ circular_right_shift(x, 41)
}

pub fn small_sigma_0(x: u64) -> (r: u64)
    ensures
        r == spec_small_sigma_0(x),
{
    circular_right_shift(x, 1) ^ circular_right_shift(x, 8) ^ (x >> 7)
}

pub fn small_sigma_1(x: u64) -> (r: u64)
    ensures
        r == spec_small_sigma_1(x),
{
    circular_right_shift(x, 19) ^ circular_right_shift(x, 61) ^ (x >> 6)
}

/// Big-endian decoding of eight message bytes into one schedule word.
pub open spec fn be_word64(b0: u8, b1: u8, b2: u8, b3: u8, b4: u8, b5: u8, b6: u8, b7: u8) -> u64 {
    ((b0 as u64) << 56) | ((b1 as u64) << 48) | ((b2 as u64) << 40) | ((b3 as u64) << 32) | ((b4
        as u64) << 24) | ((b5 as u64) << 16) | ((b6 as u64) << 8) | (b7 as u64)
}

/// Word `t` of the schedule for one 128-byte block: the first sixteen
/// are the block's words, the rest follow the SHA-512 recurrence.
pub open spec fn schedule_word(block: Seq<u8>, t: int) -> u64
    recommends
        block.len() == 128,
        0 <= t < 80,
    decreases t,
{
    if t < 16 {
        be_word64(
            block[8 * t],
            block[8 * t + 1],
            block[8 * t + 2],
            block[8 * t + 3],
            block[8 * t + 4],
            block[8 * t + 5],
            block[8 * t + 6],
            block[8 * t + 7],
        )
    } else {
        schedule_word(block, t - 16).wrapping_add(
            spec_small_sigma_0(schedule_word(block, t - 15)),
        ).wrapping_add(schedule_word(block, t - 7)).wrapping_add(
            spec_small_sigma_1(schedule_word(block, t - 2)),
        )
    }
}

/// The eight working registers after the first `t` rounds on `block`,
/// starting from the registers `regs`.
pub open spec fn spec_rounds(
    regs: (u64, u64, u64, u64, u64, u64, u64, u64),
    block: Seq<u8>,
    t: int,
) -> (u64, u64, u64, u64, u64, u64, u64, u64)
    recommends
        block.len() == 128,
        0 <= t <= 80,
    decreases t,
{
    if t <= 0 {
        regs
    } else {
        let (a, b, c, d, e, f, g, h) = spec_rounds(regs, block, t - 1);
        let temp1 = h.wrapping_add(spec_big_sigma_1(e)).wrapping_add(spec_ch(e, f, g)).wrapping_add(
            K@[t - 1],
        ).wrapping_add(schedule_word(block, t - 1));
        let temp2 = spec_big_sigma_0(a).wrapping_add(spec_maj(a, b, c));
        (temp1.wrapping_add(temp2), a, b, c, d.wrapping_add(temp1), e, f, g)
    }
}

/// One block folded into the running state: 80 rounds, then a wrapping
/// addition of each register into its state word.
pub open spec fn compress_block(h: Seq<u64>, block: Seq<u8>) -> Seq<u64>
    recommends
        h.len() == 8,
        block.len() == 128,
{
    let s = spec_rounds((h[0], h[1], h[2], h[3], h[4], h[5], h[6], h[7]), block, 80);
    seq![
        h[0].wrapping_add(s.0),
        h[1].wrapping_add(s.1),
        h[2].wrapping_add(s.2),
        h[3].wrapping_add(s.3),
        h[4].wrapping_add(s.4),
        h[5].wrapping_add(s.5),
        h[6].wrapping_add(s.6),
        h[7].wrapping_add(s.7),
    ]
}

/// The running state after the first `i` blocks of the padded message.
pub open spec fn state_after(padded: Seq<u8>, i: int) -> Seq<u64>
    recommends
        padded.len() % 128 == 0,
        0 <= i <= padded.len() / 128,
    decreases i,
{
    if i <= 0 {
        H@
    } else {
        compress_block(state_after(padded, i - 1), padded.subrange(128 * (i - 1), 128 * i))
    }
}

/// The SHA-512 digest of a message: the running state after every block
/// of the padded message, as eight 64-bit words.
pub open spec fn sha512(message: Seq<u8>) -> Seq<u64> {
    let padded = padded_message(message);
    state_after(padded, padded.len() as int / 128)
}

/// Law: the digest is a function of the message alone, so hashing the
/// same message twice yields identical digests.
pub proof fn lemma_hash_deterministic(m1: Seq<u8>, m2: Seq<u8>)
    requires
        m1 == m2,
    ensures
        sha512(m1) == sha512(m2),
{
}

/// The hash function for SHA-512, returning eight u64 values.
pub fn hash(message: &[u8]) -> (digest: [u64; 8])
    requires
        message@.len() + 144 <= usize::MAX,
    ensures
        digest@ == sha512(message@),
{
    let message_bytes = message_padding(message);
    let ghost padded = message_bytes@;
    let num_blocks = message_bytes.len() / 128;
    assert(message_bytes@.len() == 128 * num_blocks);
    assert(128 * num_blocks <= usize::MAX);

    let mut h_const = H;
    assert(h_const@ == state_after(padded, 0));

    let mut i: usize = 0;
    while i < num_blocks
        invariant
            i <= num_blocks,
            padded == message_bytes@,
            padded.len() == 128 * num_blocks,
            128 * num_blocks <= usize::MAX,
            h_const@ == state_after(padded, i as int),
        decreases num_blocks - i,
    {
        let ghost block = padded.subrange(128 * i as int, 128 * i as int + 128);

        let mut w = [0u64; 80];
        let mut t: usize = 0;
        while t < 16
            invariant
                t <= 16,
                i < num_blocks,
                padded == message_bytes@,
                padded.len() == 128 * num_blocks,
                128 * num_blocks <= usize::MAX,
                block == padded.subrange(128 * i as int, 128 * i as int + 128),
                forall|j: int| 0 <= j < t ==> w@[j] == schedule_word(block, j),
            decreases 16 - t,
        {
            assert(128 * (i as int) + 128 <= padded.len());
            let w_t = ((message_bytes[128 * i + 8 * t] as u64) << 56) | ((message_bytes[128 * i + 8
                * t + 1] as u64) << 48) | ((message_bytes[128 * i + 8 * t + 2] as u64) << 40) | ((
            message_bytes[128 * i + 8 * t + 3] as u64) << 32) | ((message_bytes[128 * i + 8 * t
                + 4] as u64) << 24) | ((message_bytes[128 * i + 8 * t + 5] as u64) << 16) | ((
            message_bytes[128 * i + 8 * t + 6] as u64) << 8) | (message_bytes[128 * i + 8 * t + 7]
                as u64);
            assert(w_t == be_word64(
                block[8 * t as int],
                block[8 * t as int + 1],
                block[8 * t as int + 2],
                block[8 * t as int + 3],
                block[8 * t as int + 4],
                block[8 * t as int + 5],
                block[8 * t as int + 6],
                block[8 * t as int + 7],
            ));
            w[t] = w_t;
            assert(w@[t as int] == schedule_word(block, t as int));
            t = t + 1;
        }
        while t < 80
            invariant
                16 <= t <= 80,
                block == padded.subrange(128 * i as int, 128 * i as int + 128),
                forall|j: int| 0 <= j < t ==> w@[j] == schedule_word(block, j),
            decreases 80 - t,
        {
            let s0 = small_sigma_0(w[t - 15]);
            let s1 = small_sigma_1(w[t - 2]);
            let w_t = w[t - 16].wrapping_add(s0).wrapping_add(w[t - 7]).wrapping_add(s1);
            assert(schedule_word(block, t as int) == schedule_word(
                block,
                t as int - 16,
            ).wrapping_add(spec_small_sigma_0(schedule_word(block, t as int - 15))).wrapping_add(
                schedule_word(block, t as int - 7),
            ).wrapping_add(spec_small_sigma_1(schedule_word(block, t as int - 2))));
            w[t] = w_t;
            assert(w@[t as int] == schedule_word(block, t as int));
            t = t + 1;
        }

        let ghost regs_in = (
            h_const@[0],
            h_const@[1],
            h_const@[2],
            h_const@[3],
            h_const@[4],
            h_const@[5],
            h_const@[6],
            h_const@[7],
        );
        let mut a = h_const[0];
        let mut b = h_const[1];
        let mut c = h_const[2];
        let mut d = h_const[3];
        let mut e = h_const[4];
        let mut f = h_const[5];
        let mut g = h_const[6];
        let mut h = h_const[7];

        let mut t: usize = 0;
        while t < 80
            invariant
                t <= 80,
                block == padded.subrange(128 * i as int, 128 * i as int + 128),
                forall|j: int| 0 <= j < 80 ==> w@[j] == schedule_word(block, j),
                regs_in == (
                    h_const@[0],
                    h_const@[1],
                    h_const@[2],
                    h_const@[3],
                    h_const@[4],
                    h_const@[5],
                    h_const@[6],
                    h_const@[7],
                ),
                (a, b, c, d, e, f, g, h) == spec_rounds(regs_in, block, t as int),
            decreases 80 - t,
        {
            let s1 = big_sigma_1(e);
            let ch_t = ch(e, f, g);
            let temp1 = h.wrapping_add(s1).wrapping_add(ch_t).wrapping_add(K[t]).wrapping_add(w[t]);
            let s0 = big_sigma_0(a);
            let maj_t = maj(a, b, c);
            let temp2 = s0.wrapping_add(maj_t);

            h = g;
            g = f;
            f = e;
            e = d.wrapping_add(temp1);
            d = c;
            c = b;
            b = a;
            a = temp1.wrapping_add(temp2);
            t = t + 1;
        }

        h_const[0] = h_const[0].wrapping_add(a);
        h_const[1] = h_const[1].wrapping_add(b);
        h_const[2] = h_const[2].wrapping_add(c);
        h_const[3] = h_const[3].wrapping_add(d);
        h_const[4] = h_const[4].wrapping_add(e);
        h_const[5] = h_const[5].wrapping_add(f);
        h_const[6] = h_const[6].wrapping_add(g);
        h_const[7] = h_const[7].wrapping_add(h);
        assert(h_const@ =~= compress_block(state_after(padded, i as int), block));
        i = i + 1;
    }

    h_const
}

} // verus!

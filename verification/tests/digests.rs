use sha::sha256;
use sha::sha512;

// ---- SHA-1 ----

#[test]
fn lib_padding_test() {
    let message = b"hello world";
    let padded_message = sha::message_padding(message);
    assert_eq!(padded_message.len() % 64, 0); // padded message should be a multiple of 512 bits
}

#[test]
fn lib_circular_left_shift_test() {
    assert_eq!(sha::circular_left_shift(0x80000000, 1), 1);
    assert_eq!(sha::circular_left_shift(0x80000000, 31), 1073741824);
}

#[test]
fn hash_test() {
    let message = b"hello world";
    let hash = sha::hash(message);
    assert_eq!(hash, [0x2aae6c35, 0xc94fcfb4, 0x15dbe95f, 0x408b9ce9, 0x1ee846ed]);
}

#[test]
fn hash_multiple_chunks_test() {
    let message = "abc".repeat(5000);
    let hash = sha::hash(&message.as_bytes());
    assert_eq!(hash, [0x2ed315e2, 0x3eb0067f, 0xca759bce, 0x85eae2dc, 0xf180ac79]);
}

#[test]
fn sha1_padding_trailer_is_bit_length() {
    let message = b"hello world";
    let padded = sha::message_padding(message);
    let trailer: [u8; 8] = padded[padded.len() - 8..].try_into().unwrap();
    assert_eq!(u64::from_be_bytes(trailer), 8 * message.len() as u64);
}

#[test]
fn sha1_padding_exact_block_boundary() {
    // 55 bytes + sentinel + 8-byte trailer fill one block exactly
    let padded = sha::message_padding(&[0x41; 55]);
    assert_eq!(padded.len(), 64);
    // one byte more needs a second block
    let padded = sha::message_padding(&[0x41; 56]);
    assert_eq!(padded.len(), 128);
}

#[test]
fn sha1_empty_message() {
    let padded = sha::message_padding(b"");
    assert_eq!(padded.len(), 64);
    assert_eq!(padded[0], 0x80);
    let hash = sha::hash(b"");
    assert_eq!(hash, [0xda39a3ee, 0x5e6b4b0d, 0x3255bfef, 0x95601890, 0xafd80709]);
}

#[test]
fn sha1_deterministic() {
    let message = b"determinism check";
    assert_eq!(sha::hash(message), sha::hash(message));
}

#[test]
fn sha1_avalanche_smoke() {
    let message = *b"hello world";
    let mut flipped = message;
    flipped[0] ^= 0x01;
    let a = sha::hash(&message);
    let b = sha::hash(&flipped);
    let mut differing_bits: u32 = 0;
    for i in 0..5 {
        differing_bits += (a[i] ^ b[i]).count_ones();
    }
    // a large fraction of the 160 output bits must change
    assert!(differing_bits > 40);
}

// ---- SHA-256 ----

#[test]
fn sha256_padding_test() {
    let message = b"hello world";
    let padded_message = sha256::message_padding(message);
    assert_eq!(padded_message.len() % 64, 0); // padded message should be a multiple of 512 bits
}

#[test]
fn sha256_circular_left_shift_test() {
    assert_eq!(sha256::circular_left_shift(0x80000000, 1), 1);
    assert_eq!(sha256::circular_left_shift(0x80000000, 31), 1073741824);
}

#[test]
fn hash_test_sha256() {
    let message = b"hello world";
    let hash = sha256::hash(message);
    assert_eq!(
        hash,
        [0xb94d27b9, 0x934d3e08, 0xa52e52d7, 0xda7dabfa, 0xc484efe3, 0x7a5380ee, 0x9088f7ac,
            0xe2efcde9]
    );
}

#[test]
fn hash_test_sha256_multi_block() {
    let message = b"a".repeat(1000);
    let hash = sha256::hash(&message);

    assert_eq!(
        hash,
        [0x41edece4, 0x2d63e8d9, 0xbf515a9b, 0xa6932e1c, 0x20cbc9f5, 0xa5d13464, 0x5adb5db1,
            0xb9737ea3]
    );
}

#[test]
fn sha256_helper_functions() {
    assert_eq!(sha256::circular_right_shift(1, 1), 0x80000000);
    assert_eq!(sha256::ch(0xffffffff, 0x12345678, 0x9abcdef0), 0x12345678);
    assert_eq!(sha256::ch(0, 0x12345678, 0x9abcdef0), 0x9abcdef0);
    assert_eq!(sha256::maj(0xff00ff00, 0xf0f0f0f0, 0x00ff00ff), 0xf0f0f0f0);
    assert_eq!(sha256::big_sigma_0(1), 0x40080400);
    assert_eq!(sha256::big_sigma_1(1), 0x04200080);
    assert_eq!(sha256::small_sigma_0(1), 0x02004000);
    assert_eq!(sha256::small_sigma_1(1), 0xa000);
}

#[test]
fn sha256_empty_message() {
    let hash = sha256::hash(b"");
    assert_eq!(
        hash,
        [0xe3b0c442, 0x98fc1c14, 0x9afbf4c8, 0x996fb924, 0x27ae41e4, 0x649b934c, 0xa495991b,
            0x7852b855]
    );
}

#[test]
fn sha256_deterministic() {
    let message = b"determinism check";
    assert_eq!(sha256::hash(message), sha256::hash(message));
}

#[test]
fn sha256_avalanche_smoke() {
    let message = *b"hello world";
    let mut flipped = message;
    flipped[0] ^= 0x01;
    let a = sha256::hash(&message);
    let b = sha256::hash(&flipped);
    let mut differing_bits: u32 = 0;
    for i in 0..8 {
        differing_bits += (a[i] ^ b[i]).count_ones();
    }
    // a large fraction of the 256 output bits must change
    assert!(differing_bits > 64);
}

// ---- SHA-512 ----

#[test]
fn test_message_padding() {
    let message = b"hello world";
    let padded_message = sha512::message_padding(message);

    // Check if the message is padded correctly
    assert_eq!(padded_message.len() % 128, 0);
}

#[test]
fn test_hash_sha512() {
    let message = b"hello world";
    let result = sha512::hash(message);

    let expected = [
        0x309ecc489c12d6eb,
        0x4cc40f50c902f2b4,
        0xd0ed77ee511a7c7a,
        0x9bcd3ca86d4cd86f,
        0x989dd35bc5ff4996,
        0x70da34255b45b0cf,
        0xd830e81f605dcf7d,
        0xc5542e93ae9cd76f,
    ];

    assert_eq!(result, expected);
}

#[test]
fn test_hash_sha512_multi_block() {
    let message = b"a".repeat(1000000);
    let result = sha512::hash(&message);

    let expected = [
        0xe718483d0ce76964,
        0x4e2e42c7bc15b463,
        0x8e1f98b13b204428,
        0x5632a803afa973eb,
        0xde0ff244877ea60a,
        0x4cb0432ce577c31b,
        0xeb009c5c2c49aa2e,
        0x4eadb217ad8cc09b,
    ];

    assert_eq!(result, expected);
}

#[test]
fn sha512_padding_trailer_is_bit_length() {
    let message = b"hello world";
    let padded = sha512::message_padding(message);
    let trailer: [u8; 16] = padded[padded.len() - 16..].try_into().unwrap();
    assert_eq!(u128::from_be_bytes(trailer), 8 * message.len() as u128);
}

#[test]
fn sha512_padding_exact_block_boundary() {
    // 111 bytes + sentinel + 16-byte trailer fill one block exactly
    let padded = sha512::message_padding(&[0x41; 111]);
    assert_eq!(padded.len(), 128);
    // one byte more needs a second block
    let padded = sha512::message_padding(&[0x41; 112]);
    assert_eq!(padded.len(), 256);
}

#[test]
fn sha512_empty_message() {
    let hash = sha512::hash(b"");
    assert_eq!(
        hash,
        [
            0xcf83e1357eefb8bd,
            0xf1542850d66d8007,
            0xd620e4050b5715dc,
            0x83f4a921d36ce9ce,
            0x47d0d13c5d85f2b0,
            0xff8318d2877eec2f,
            0x63b931bd47417a81,
            0xa538327af927da3e,
        ]
    );
}

#[test]
fn sha512_deterministic() {
    let message = b"determinism check";
    assert_eq!(sha512::hash(message), sha512::hash(message));
}

#[test]
fn sha512_avalanche_smoke() {
    let message = *b"hello world";
    let mut flipped = message;
    flipped[0] ^= 0x01;
    let a = sha512::hash(&message);
    let b = sha512::hash(&flipped);
    let mut differing_bits: u32 = 0;
    for i in 0..8 {
        differing_bits += (a[i] ^ b[i]).count_ones();
    }
    // a large fraction of the 512 output bits must change
    assert!(differing_bits > 128);
}

// ---- SHA-1 round helpers ----

#[test]
fn sha1_round_helpers() {
    assert_eq!(sha::func_f(0, 0xffffffff, 0x12345678, 0x9abcdef0), 0x12345678);
    assert_eq!(sha::func_f(25, 1, 2, 4), 7);
    assert_eq!(sha::func_f(45, 3, 5, 6), 7);
    assert_eq!(sha::func_f(70, 1, 2, 4), 7);
    assert_eq!(sha::get_k(0), 0x5A827999);
    assert_eq!(sha::get_k(20), 0x6ED9EBA1);
    assert_eq!(sha::get_k(40), 0x8F1BBCDC);
    assert_eq!(sha::get_k(79), 0xCA62C1D6);
}

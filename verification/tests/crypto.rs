use adnl::cipher::StreamCipher;
use adnl::crypto::{clear, AdnlCryptoUtils};

fn hex(text: &str) -> Vec<u8> {
    let digits: Vec<u8> = text.bytes().filter(|b| !b.is_ascii_whitespace()).collect();
    digits
        .chunks(2)
        .map(|pair| {
            let hi = (pair[0] as char).to_digit(16).unwrap() as u8;
            let lo = (pair[1] as char).to_digit(16).unwrap() as u8;
            hi * 16 + lo
        })
        .collect()
}

fn key32(text: &str) -> [u8; 32] {
    let mut out = [0u8; 32];
    out.copy_from_slice(&hex(text));
    out
}

fn iv16(text: &str) -> [u8; 16] {
    let mut out = [0u8; 16];
    out.copy_from_slice(&hex(text));
    out
}

#[test]
fn checksum_of_empty_data_is_sha256_of_nothing() {
    let sum = AdnlCryptoUtils::calc_checksum(&None, &[]);
    assert_eq!(sum.to_vec(), hex("e3b0c44298fc1c149afbf4c8996fb92427ae41e4649b934ca495991b7852b855"));
}

#[test]
fn checksum_of_abc() {
    let sum = AdnlCryptoUtils::calc_checksum(&None, b"abc");
    assert_eq!(sum.to_vec(), hex("ba7816bf8f01cfea414140de5dae2223b00361a396177a9cb410ff61f20015ad"));
}

#[test]
fn checksum_with_version_hashes_the_version_bytes_first() {
    // "ab" is 0x61 0x62: version 0x6162 before "c" is the digest of "abc".
    let salted = AdnlCryptoUtils::calc_checksum(&Some(0x6162), b"c");
    assert_eq!(salted, AdnlCryptoUtils::calc_checksum(&None, b"abc"));
    assert_ne!(salted, AdnlCryptoUtils::calc_checksum(&None, b"c"));
}

#[test]
fn checksum_with_version_zero_differs_from_unversioned() {
    let salted = AdnlCryptoUtils::calc_checksum(&Some(0), b"payload");
    assert_eq!(salted, AdnlCryptoUtils::calc_checksum(&None, b"\0\0payload"));
    assert_ne!(salted, AdnlCryptoUtils::calc_checksum(&None, b"payload"));
}

#[test]
fn stream_cipher_matches_the_aes256_ctr_reference_vector() {
    let key = key32("603deb1015ca71be2b73aef0857d77811f352c073b6108d72d9810a30914dff4");
    let iv = iv16("f0f1f2f3f4f5f6f7f8f9fafbfcfdfeff");
    let mut cipher = StreamCipher::new(key, iv);
    let mut data = hex("6bc1bee22e409f96e93d7e117393172aae2d8a571e03ac9c9eb76fac45af8e51");
    let n = data.len();
    cipher.apply_keystream(&mut data, 0, n);
    assert_eq!(data, hex("601ec313775789a5b7a7f504bbf3d228f443e3ca4d62b59aca84e990cacaf5c5"));
}

#[test]
fn stream_cipher_continues_where_it_stopped() {
    let key = key32("603deb1015ca71be2b73aef0857d77811f352c073b6108d72d9810a30914dff4");
    let iv = iv16("f0f1f2f3f4f5f6f7f8f9fafbfcfdfeff");
    let plain = hex("6bc1bee22e409f96e93d7e117393172aae2d8a571e03ac9c9eb76fac45af8e51");
    let mut cipher = StreamCipher::new(key, iv);
    let mut data = plain.clone();
    cipher.apply_keystream(&mut data, 0, 5);
    cipher.apply_keystream(&mut data, 5, 21);
    cipher.apply_keystream(&mut data, 21, 32);
    assert_eq!(data, hex("601ec313775789a5b7a7f504bbf3d228f443e3ca4d62b59aca84e990cacaf5c5"));
}

#[test]
fn stream_cipher_leaves_bytes_outside_the_range_alone() {
    let mut cipher = StreamCipher::new([7u8; 32], [9u8; 16]);
    let mut data = vec![1u8, 2, 3, 4, 5, 6];
    cipher.apply_keystream(&mut data, 2, 4);
    assert_eq!(&data[..2], &[1, 2]);
    assert_eq!(&data[4..], &[5, 6]);
    assert!(cipher.can_apply(usize::MAX - 16));
}

#[test]
fn secure_cipher_interleaves_secret_and_digest() {
    let mut secret = [0u8; 32];
    let mut digest = [0u8; 32];
    for i in 0..32 {
        secret[i] = i as u8;
        digest[i] = 0x80 + i as u8;
    }
    let mut key = [0u8; 32];
    key[..16].copy_from_slice(&secret[..16]);
    key[16..].copy_from_slice(&digest[16..]);
    let mut iv = [0u8; 16];
    iv[..4].copy_from_slice(&digest[..4]);
    iv[4..].copy_from_slice(&secret[20..]);
    let mut expected = vec![0u8; 48];
    StreamCipher::new(key, iv).apply_keystream(&mut expected, 0, 48);
    let mut actual = vec![0u8; 48];
    AdnlCryptoUtils::build_cipher_secure(&secret, &digest).apply_keystream(&mut actual, 0, 48);
    assert_eq!(actual, expected);
    // a straight concatenation of the two halves is another cipher
    let mut straight = [0u8; 32];
    straight[..16].copy_from_slice(&secret[..16]);
    straight[16..].copy_from_slice(&digest[..16]);
    let mut other = vec![0u8; 48];
    StreamCipher::new(straight, iv).apply_keystream(&mut other, 0, 48);
    assert_ne!(actual, other);
}

#[test]
fn unsecure_cipher_takes_key_and_counter_from_the_ranges() {
    let mut nonce = [0u8; 160];
    for i in 0..160 {
        nonce[i] = i as u8;
    }
    let mut key = [0u8; 32];
    key.copy_from_slice(&nonce[32..64]);
    let mut iv = [0u8; 16];
    iv.copy_from_slice(&nonce[80..96]);
    let mut expected = vec![0u8; 20];
    StreamCipher::new(key, iv).apply_keystream(&mut expected, 0, 20);
    let mut actual = vec![0u8; 20];
    AdnlCryptoUtils::build_cipher_unsecure(&nonce, 32..64, 80..96).apply_keystream(&mut actual, 0, 20);
    assert_eq!(actual, expected);
}

#[test]
fn decode_version_of_plain_field() {
    let field = [1u8, 2, 1, 2];
    assert_eq!(AdnlCryptoUtils::decode_version(&field, &[], &[]), Some(258));
}

#[test]
fn decode_version_rejects_halves_that_disagree() {
    assert_eq!(AdnlCryptoUtils::decode_version(&[1, 2, 1, 3], &[], &[]), None);
    assert_eq!(AdnlCryptoUtils::decode_version(&[1, 2, 0, 2], &[], &[]), None);
}

#[test]
fn decode_version_folds_header_bytes_by_lane() {
    // lane 0 gets 0x10 and 0x01, lane 1 gets 0x20, lane 2 gets 0x30, lane 3 gets 0x40
    let hdra = [0x10u8, 0x20, 0x30, 0x40, 0x01];
    let hdrb = [0xffu8, 0x0f];
    let version = 0x1234u16;
    let field = [
        0x12 ^ 0x10 ^ 0x01 ^ 0xff,
        0x34 ^ 0x20 ^ 0x0f,
        0x12 ^ 0x30,
        0x34 ^ 0x40,
    ];
    assert_eq!(AdnlCryptoUtils::decode_version(&field, &hdra, &hdrb), Some(version));
}

#[test]
fn encode_header_grows_the_buffer_by_64_96_68_or_100() {
    let id = [1u8; 32];
    let key = [2u8; 32];
    for (with_key, version, grown) in [
        (false, None, 64usize),
        (true, None, 96),
        (false, Some(7u16), 68),
        (true, Some(7u16), 100),
    ] {
        let mut buf = b"payload".to_vec();
        let sum = AdnlCryptoUtils::encode_header(&mut buf, &id, if with_key { Some(&key) } else { None }, version);
        assert_eq!(buf.len(), grown + 7);
        assert_eq!(&buf[grown..], b"payload");
        assert_eq!(&buf[..32], &id);
        assert_eq!(&buf[grown - 32..grown], &sum);
        assert_eq!(sum, AdnlCryptoUtils::calc_checksum(&version, b"payload"));
        if with_key {
            assert_eq!(&buf[32..64], &key);
        }
    }
}

#[test]
fn decode_version_inverts_the_header_fold_for_every_version() {
    let id = [0xa5u8; 32];
    let mut key = [0u8; 32];
    for i in 0..32 {
        key[i] = (i * 7 + 3) as u8;
    }
    for version in 0..=65535u16 {
        let mut buf = vec![version as u8, 1, 2, 3];
        AdnlCryptoUtils::encode_header(&mut buf, &id, Some(&key), Some(version));
        let field = [buf[64], buf[65], buf[66], buf[67]];
        assert_eq!(AdnlCryptoUtils::decode_version(&field, &buf[..64], &buf[68..100]), Some(version));
    }
}

#[test]
fn decode_version_inverts_the_header_fold_without_a_key() {
    let id = [0x3cu8; 32];
    for version in [0u16, 1, 2, 255, 256, 0x8000, 65535] {
        let mut buf = b"data".to_vec();
        AdnlCryptoUtils::encode_header(&mut buf, &id, None, Some(version));
        let field = [buf[32], buf[33], buf[34], buf[35]];
        assert_eq!(AdnlCryptoUtils::decode_version(&field, &buf[..32], &buf[36..68]), Some(version));
    }
}

#[test]
fn clear_overwrites_with_zeros() {
    let mut secret = [0xffu8; 32];
    clear(&mut secret);
    assert_eq!(secret, [0u8; 32]);
}

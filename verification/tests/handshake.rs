use adnl::crypto::AdnlCryptoUtils;
use adnl::error::AdnlError;
use adnl::handshake::AdnlHandshake;

fn secret() -> [u8; 32] {
    let mut out = [0u8; 32];
    for i in 0..32 {
        out[i] = (200 - i * 3) as u8;
    }
    out
}

fn packet(payload: &[u8], version: Option<u16>) -> Vec<u8> {
    let mut buf = payload.to_vec();
    let mut shared = secret();
    AdnlHandshake::build_packet(&mut buf, &[0x11; 32], &[0x22; 32], &mut shared, version);
    assert_eq!(shared, [0u8; 32]);
    buf
}

#[test]
fn build_packet_lays_out_header_and_encrypted_payload() {
    let payload = b"hello handshake".to_vec();
    let buf = packet(&payload, None);
    assert_eq!(buf.len(), 96 + payload.len());
    assert_eq!(&buf[..32], &[0x11; 32]);
    assert_eq!(&buf[32..64], &[0x22; 32]);
    let sum = AdnlCryptoUtils::calc_checksum(&None, &payload);
    assert_eq!(&buf[64..96], &sum);
    assert_ne!(&buf[96..], &payload[..]);
    let mut opened = buf[96..].to_vec();
    let n = opened.len();
    AdnlCryptoUtils::build_cipher_secure(&secret(), &sum).apply_keystream(&mut opened, 0, n);
    assert_eq!(opened, payload);
}

#[test]
fn build_packet_with_version_is_four_bytes_longer() {
    let payload = b"hello".to_vec();
    let buf = packet(&payload, Some(2));
    assert_eq!(buf.len(), 100 + payload.len());
    let sum = AdnlCryptoUtils::calc_checksum(&Some(2), &payload);
    assert_eq!(&buf[68..100], &sum);
    let field = [buf[64], buf[65], buf[66], buf[67]];
    assert_eq!(AdnlCryptoUtils::decode_version(&field, &buf[..64], &buf[68..100]), Some(2));
}

#[test]
fn parse_recovers_an_unversioned_packet() {
    for accept_versioning in [false, true] {
        let payload = b"some payload that is sent".to_vec();
        let mut buf = packet(&payload, None);
        let mut shared = secret();
        let parsed = AdnlHandshake::parse_packet(&mut buf, &mut shared, None, accept_versioning);
        assert_eq!(parsed, Ok(None));
        assert_eq!(buf, payload);
        assert_eq!(shared, [0u8; 32]);
    }
}

#[test]
fn parse_recovers_every_kind_of_version() {
    for version in [0u16, 1, 2, 0x00ff, 0x0100, 0xabcd, 0xffff] {
        let payload = vec![version as u8; 40];
        let mut buf = packet(&payload, Some(version));
        let mut shared = secret();
        let parsed = AdnlHandshake::parse_packet(&mut buf, &mut shared, None, true);
        assert_eq!(parsed, Ok(Some(version)));
        assert_eq!(buf, payload);
    }
}

#[test]
fn parse_recovers_an_empty_payload() {
    let mut buf = packet(&[], None);
    assert_eq!(buf.len(), 96);
    let mut shared = secret();
    assert_eq!(AdnlHandshake::parse_packet(&mut buf, &mut shared, None, true), Ok(None));
    assert!(buf.is_empty());
    let mut buf = packet(&[], Some(9));
    assert_eq!(buf.len(), 100);
    let mut shared = secret();
    assert_eq!(AdnlHandshake::parse_packet(&mut buf, &mut shared, None, true), Ok(Some(9)));
    assert!(buf.is_empty());
}

#[test]
fn parse_with_the_payload_length_recovers_both_kinds_of_packet() {
    let payload = b"a payload of known length".to_vec();
    for version in [None, Some(0u16), Some(2), Some(0xfffe)] {
        for accept_versioning in [version.is_some(), true] {
            let mut buf = packet(&payload, version);
            let mut shared = secret();
            let parsed = AdnlHandshake::parse_packet(&mut buf, &mut shared, Some(payload.len()), accept_versioning);
            assert_eq!(parsed, Ok(version));
            assert_eq!(buf, payload);
        }
    }
}

#[test]
fn parse_with_the_payload_length_leaves_what_follows_a_versioned_packet() {
    let payload = vec![6u8; 33];
    let mut buf = packet(&payload, Some(7));
    buf.extend_from_slice(b"tail");
    let mut shared = secret();
    assert_eq!(AdnlHandshake::parse_packet(&mut buf, &mut shared, Some(33), true), Ok(Some(7)));
    assert_eq!(&buf[..33], &payload[..]);
    assert_eq!(&buf[33..], b"tail");
}

#[test]
fn parse_takes_short_expected_lengths() {
    // a versioned packet with no payload, its length given
    let mut buf = packet(&[], Some(5));
    assert_eq!(buf.len(), 100);
    let mut shared = secret();
    assert_eq!(AdnlHandshake::parse_packet(&mut buf, &mut shared, Some(0), true), Ok(Some(5)));
    assert!(buf.is_empty());
    // an unversioned packet of two bytes: too short to be read as versioned
    let mut buf = packet(&[8, 9], None);
    assert_eq!(buf.len(), 98);
    let mut shared = secret();
    assert_eq!(AdnlHandshake::parse_packet(&mut buf, &mut shared, Some(2), true), Ok(None));
    assert_eq!(buf, vec![8, 9]);
    // a buffer that validates in neither way comes back as it was
    let mut buf = vec![3u8; 100];
    let mut shared = secret();
    assert_eq!(
        AdnlHandshake::parse_packet(&mut buf, &mut shared, Some(0), true),
        Err(AdnlError::BadHandshakeChecksum { version: None })
    );
    assert_eq!(buf, vec![3u8; 100]);
    assert_eq!(shared, [0u8; 32]);
}

#[test]
fn parse_of_a_versioned_packet_as_unversioned_of_that_length_fails() {
    // with the length of an unversioned reading the buffer is too short for a versioned one
    let payload = vec![1u8; 20];
    let mut buf = packet(&payload, Some(2));
    let sent = buf.clone();
    let mut shared = secret();
    assert_eq!(
        AdnlHandshake::parse_packet(&mut buf, &mut shared, Some(24), true),
        Err(AdnlError::BadHandshakeChecksum { version: None })
    );
    assert_eq!(buf, sent);
}

#[test]
fn parse_with_expected_length_leaves_what_follows() {
    let payload = vec![5u8; 160];
    let mut buf = packet(&payload, None);
    buf.extend_from_slice(b"tail");
    let mut shared = secret();
    let parsed = AdnlHandshake::parse_packet(&mut buf, &mut shared, Some(160), false);
    assert_eq!(parsed, Ok(None));
    assert_eq!(&buf[..160], &payload[..]);
    assert_eq!(&buf[160..], b"tail");
}

#[test]
fn handshake_with_version_two_end_to_end() {
    let ids = [[0x33u8; 32], [0x11u8; 32]];
    let payload = b"client nonce".to_vec();
    let sent = packet(&payload, Some(2));

    // a server that holds the key and accepts versions
    let mut buf = sent.clone();
    assert_eq!(AdnlHandshake::find_key(&ids, &buf, None), Ok(Some(1)));
    let mut shared = secret();
    assert_eq!(AdnlHandshake::parse_packet(&mut buf, &mut shared, None, true), Ok(Some(2)));
    assert_eq!(buf, payload);

    // the same packet against a server that does not
    let mut buf = sent.clone();
    assert_eq!(AdnlHandshake::find_key(&ids, &buf, None), Ok(Some(1)));
    let mut shared = secret();
    assert_eq!(
        AdnlHandshake::parse_packet(&mut buf, &mut shared, None, false),
        Err(AdnlError::BadHandshakeChecksum { version: None })
    );
    assert_eq!(buf, sent);
    assert_eq!(shared, [0u8; 32]);
}

#[test]
fn parse_fails_with_another_secret() {
    let mut buf = packet(b"payload", None);
    let sent = buf.clone();
    let mut other = [1u8; 32];
    assert_eq!(
        AdnlHandshake::parse_packet(&mut buf, &mut other, None, true),
        Err(AdnlError::BadHandshakeChecksum { version: None })
    );
    assert_eq!(buf, sent);
}

#[test]
fn parse_fails_when_a_byte_is_flipped() {
    let sent = packet(b"payload to protect", Some(3));
    for at in 64..sent.len() {
        let mut buf = sent.clone();
        buf[at] ^= 0x01;
        let mut shared = secret();
        assert_eq!(
            AdnlHandshake::parse_packet(&mut buf, &mut shared, None, true),
            Err(AdnlError::BadHandshakeChecksum { version: None }),
            "byte {}",
            at
        );
    }
}

#[test]
fn parse_rejects_short_packets() {
    let mut buf = vec![0u8; 95];
    let mut shared = secret();
    assert_eq!(
        AdnlHandshake::parse_packet(&mut buf, &mut shared, None, true),
        Err(AdnlError::BadHandshakeLength { len: 95 })
    );
    assert_eq!(shared, [0u8; 32]);
    let mut buf = vec![0u8; 255];
    let mut shared = secret();
    assert_eq!(
        AdnlHandshake::parse_packet(&mut buf, &mut shared, Some(160), false),
        Err(AdnlError::BadHandshakeLength { len: 255 })
    );
    let mut buf = vec![0u8; 200];
    let mut shared = secret();
    assert_eq!(
        AdnlHandshake::parse_packet(&mut buf, &mut shared, Some(usize::MAX), false),
        Err(AdnlError::BadHandshakeLength { len: 200 })
    );
}

#[test]
fn find_key_takes_the_first_identity_that_matches() {
    let buf = packet(b"x", None);
    assert_eq!(AdnlHandshake::find_key(&[[0x11; 32], [0x11; 32]], &buf, None), Ok(Some(0)));
    assert_eq!(AdnlHandshake::find_key(&[[0x10; 32], [0x12; 32], [0x11; 32]], &buf, None), Ok(Some(2)));
}

#[test]
fn find_key_without_a_match_is_no_error() {
    let buf = packet(b"x", None);
    assert_eq!(AdnlHandshake::find_key(&[[0x10; 32], [0x12; 32]], &buf, None), Ok(None));
    assert_eq!(AdnlHandshake::find_key(&[], &buf, None), Ok(None));
    let mut almost = [0x11u8; 32];
    almost[31] = 0x10;
    assert_eq!(AdnlHandshake::find_key(&[almost], &buf, None), Ok(None));
}

#[test]
fn find_key_rejects_short_packets() {
    assert_eq!(
        AdnlHandshake::find_key(&[[0u8; 32]], &[0u8; 95], None),
        Err(AdnlError::BadHandshakeLength { len: 95 })
    );
    assert_eq!(
        AdnlHandshake::find_key(&[[0u8; 32]], &[0u8; 100], Some(5)),
        Err(AdnlError::BadHandshakeLength { len: 100 })
    );
    assert_eq!(AdnlHandshake::find_key(&[[0u8; 32]], &[0u8; 101], Some(5)), Ok(Some(0)));
}

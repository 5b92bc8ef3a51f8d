use adnl::error::AdnlError;
use adnl::handshake::AdnlHandshake;
use adnl::message::{AdnlCustomMessage, AdnlMessage, AdnlQueryMessage, TlObject};
use adnl::peers::AdnlPeers;
use adnl::query::Subscriber;
use adnl::server::{AdnlWsServerThread, INIT_PACKET_LEN, NONCE_LEN};
use adnl::stream::AdnlStreamCrypto;
use adnl::subscribers::{AdnlPingSubscriber, LoggingSubscriber};
use adnl::transport::{AdnlWsBuffer, TransportMessage};
use std::sync::Arc;

fn init_nonce() -> [u8; 160] {
    let mut out = [0u8; 160];
    for i in 0..160 {
        out[i] = (255 - i) as u8;
    }
    out
}

fn init_packet() -> Vec<u8> {
    let mut buf = init_nonce().to_vec();
    let mut secret = [0x77u8; 32];
    AdnlHandshake::build_packet(&mut buf, &[0xa1; 32], &[0xc1; 32], &mut secret, None);
    buf
}

#[test]
fn init_packet_has_256_bytes() {
    assert_eq!(INIT_PACKET_LEN, 256);
    assert_eq!(NONCE_LEN, 160);
    assert_eq!(init_packet().len(), INIT_PACKET_LEN);
}

#[test]
fn without_an_allow_list_every_client_passes() {
    assert_eq!(AdnlWsServerThread::check_client(None, &[]), Ok(()));
    assert_eq!(AdnlWsServerThread::check_client(None, &init_packet()), Ok(()));
}

#[test]
fn allow_list_admits_listed_senders_only() {
    let buf = init_packet();
    assert_eq!(AdnlWsServerThread::check_client(Some(&[[0xc0; 32], [0xc1; 32]]), &buf), Ok(()));
    assert_eq!(AdnlWsServerThread::check_client(Some(&[[0xc0; 32]]), &buf), Err(AdnlError::UnknownClient));
    assert_eq!(AdnlWsServerThread::check_client(Some(&[]), &buf), Err(AdnlError::UnknownClient));
    // the peer id of the packet is not the sender
    assert_eq!(AdnlWsServerThread::check_client(Some(&[[0xa1; 32]]), &buf), Err(AdnlError::UnknownClient));
}

#[test]
fn allow_list_needs_64_bytes_to_name_the_sender() {
    assert_eq!(
        AdnlWsServerThread::check_client(Some(&[[0xc1; 32]]), &[0xc1; 63]),
        Err(AdnlError::InitTooShort { len: 63 })
    );
    assert_eq!(AdnlWsServerThread::check_client(Some(&[[0xc1; 32]]), &[0xc1; 64]), Ok(()));
}

#[test]
fn allow_list_in_a_shared_map_admits_listed_senders_only() {
    let buf = init_packet();
    assert_eq!(AdnlWsServerThread::check_client_in_map(None, &buf), Ok(()));
    assert_eq!(AdnlWsServerThread::check_client_in_map(None, &[]), Ok(()));
    let clients: lockfree::map::Map<[u8; 32], u8> = lockfree::map::Map::new();
    assert_eq!(AdnlWsServerThread::check_client_in_map(Some(&clients), &buf), Err(AdnlError::UnknownClient));
    clients.insert([0xc0; 32], 0);
    clients.insert([0xa1; 32], 0);
    assert_eq!(AdnlWsServerThread::check_client_in_map(Some(&clients), &buf), Err(AdnlError::UnknownClient));
    clients.insert([0xc1; 32], 0);
    assert_eq!(AdnlWsServerThread::check_client_in_map(Some(&clients), &buf), Ok(()));
    assert_eq!(
        AdnlWsServerThread::check_client_in_map(Some(&clients), &buf[..63]),
        Err(AdnlError::InitTooShort { len: 63 })
    );
    clients.remove(&[0xc1; 32]);
    assert_eq!(AdnlWsServerThread::check_client_in_map(Some(&clients), &buf), Err(AdnlError::UnknownClient));
}

#[test]
fn init_packet_sets_up_the_ciphers_of_the_accepting_side() {
    let mut buf = init_packet();
    buf.extend_from_slice(b"rest");
    let mut secret = [0x77u8; 32];
    let mut server = AdnlWsServerThread::parse_init_packet(&mut buf, &mut secret).unwrap();
    assert_eq!(buf, b"rest");
    assert_eq!(secret, [0u8; 32]);
    let mut client = AdnlStreamCrypto::with_nonce_as_client(&init_nonce());
    let mut frame = b"hello".to_vec();
    assert_eq!(client.send(&mut frame), Ok(()));
    let mut out = Vec::new();
    assert_eq!(server.receive(&mut out, &frame), Ok(73));
    assert_eq!(out, b"hello");
    let mut reply = Vec::new();
    assert_eq!(server.send(&mut reply), Ok(()));
    assert_eq!(client.receive(&mut out, &reply), Ok(68));
    assert!(out.is_empty());
}

#[test]
fn init_packet_with_a_version_is_not_understood() {
    let mut buf = init_nonce().to_vec();
    let mut secret = [0x77u8; 32];
    AdnlHandshake::build_packet(&mut buf, &[0xa1; 32], &[0xc1; 32], &mut secret, Some(2));
    let sent = buf.clone();
    let mut secret = [0x77u8; 32];
    let parsed = AdnlWsServerThread::parse_init_packet(&mut buf, &mut secret);
    assert_eq!(parsed.err(), Some(AdnlError::BadHandshakeChecksum { version: None }));
    assert_eq!(buf, sent);
}

#[test]
fn init_packet_that_is_too_short_is_rejected() {
    let mut buf = init_packet();
    buf.truncate(255);
    let mut secret = [0x77u8; 32];
    let parsed = AdnlWsServerThread::parse_init_packet(&mut buf, &mut secret);
    assert_eq!(parsed.err(), Some(AdnlError::BadHandshakeLength { len: 255 }));
}

/// A toy decoder: each byte is a ping of that value.
fn decode_pings(data: &Vec<u8>) -> Result<Vec<TlObject>, AdnlError> {
    Ok(data.iter().map(|b| TlObject::AdnlPing { value: *b as i64 }).collect())
}

#[test]
fn a_query_must_be_consumed() {
    let peers = AdnlPeers::with_keys([1; 32], [2; 32]);
    let chain: Vec<Arc<dyn Subscriber>> = vec![Arc::new(LoggingSubscriber), Arc::new(AdnlPingSubscriber)];
    let query = AdnlMessage::Query(AdnlQueryMessage { query_id: [5; 32], query: vec![1] });
    let handled = AdnlWsServerThread::handle_message(&chain, &query, &peers, decode_pings);
    let (_answer, id) = handled.ok().unwrap().into_parts();
    assert_eq!(id, [5; 32]);
    let bundle = AdnlMessage::Query(AdnlQueryMessage { query_id: [5; 32], query: vec![1, 2] });
    let handled = AdnlWsServerThread::handle_message(&chain, &bundle, &peers, decode_pings);
    assert_eq!(handled.err(), Some(AdnlError::UnexpectedMessage));
}

#[test]
fn a_message_that_is_no_query_fails_the_connection() {
    let peers = AdnlPeers::with_keys([1; 32], [2; 32]);
    let chain: Vec<Arc<dyn Subscriber>> = vec![Arc::new(AdnlPingSubscriber)];
    let custom = AdnlMessage::Custom(AdnlCustomMessage { data: vec![1] });
    let handled = AdnlWsServerThread::handle_message(&chain, &custom, &peers, decode_pings);
    assert_eq!(handled.err(), Some(AdnlError::UnexpectedMessage));
}

#[test]
fn buffer_presents_messages_as_a_byte_stream() {
    let mut buffer = AdnlWsBuffer::new();
    let mut out = vec![9u8];
    assert!(buffer.needs_more(1));
    assert!(!buffer.needs_more(0));
    assert!(!buffer.read(&mut out, 1));
    assert_eq!(out, vec![9]);
    assert_eq!(buffer.accept(TransportMessage::Binary(vec![1, 2, 3])), Ok(()));
    assert_eq!(buffer.accept(TransportMessage::Binary(vec![])), Ok(()));
    assert_eq!(buffer.accept(TransportMessage::Binary(vec![4, 5])), Ok(()));
    assert!(buffer.needs_more(6));
    assert!(!buffer.needs_more(5));
    assert!(buffer.read(&mut out, 2));
    assert_eq!(out, vec![1, 2]);
    assert!(buffer.read(&mut out, 0));
    assert!(out.is_empty());
    assert!(!buffer.read(&mut out, 4));
    assert!(buffer.read(&mut out, 3));
    assert_eq!(out, vec![3, 4, 5]);
    assert!(buffer.needs_more(1));
}

#[test]
fn buffer_fails_on_close_and_on_other_messages() {
    let mut buffer = AdnlWsBuffer::new();
    assert_eq!(buffer.accept(TransportMessage::Binary(vec![1])), Ok(()));
    assert_eq!(buffer.accept(TransportMessage::Close), Err(AdnlError::TransportClosed));
    assert_eq!(buffer.accept(TransportMessage::Other), Err(AdnlError::UnexpectedTransportMessage));
    let mut out = Vec::new();
    assert!(buffer.read(&mut out, 1));
    assert_eq!(out, vec![1]);
}

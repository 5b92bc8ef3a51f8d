//! The decisions of the accepting side of a connection: who may connect,
//! how the first message sets up the stream, and what a message leads to.

use crate::bytes::{bytes_equal, copy_into};
use crate::error::AdnlError;
use crate::handshake::{parse_packet_spec, AdnlHandshake};
use crate::message::{AdnlMessage, TlObject};
use crate::peers::AdnlPeers;
use crate::query::{inbound_outcome, Query, QueryAdnlAnswer, Subscriber};
use crate::stream::AdnlStreamCrypto;
use std::sync::Arc;
use vstd::prelude::*;
use vstd::slice::slice_subrange;

verus! {

/// The number of bytes of the first message of a connection.
pub const INIT_PACKET_LEN: usize = 256;

/// The number of bytes of a connection nonce.
pub const NONCE_LEN: usize = 160;

/// True when `key` is one of `clients`.
pub open spec fn is_known_client(clients: Seq<[u8; 32]>, key: Seq<u8>) -> bool {
    exists|i: int| 0 <= i < clients.len() && (#[trigger] clients[i])@ == key
}

/// The allow-list as a sequence of keys, where there is one.
pub open spec fn list_view(clients: Option<&[[u8; 32]]>) -> Option<Seq<[u8; 32]>> {
    match clients {
        Some(list) => Some(list@),
        None => None,
    }
}

/// What checking the sender of a first message against an allow-list
/// gives: without a list every sender passes; with one the message must be
/// long enough to name its sender, and the sender's key must be listed.
pub open spec fn client_check(list: Option<Seq<[u8; 32]>>, buf: Seq<u8>) -> Result<(), AdnlError> {
    match list {
        None => Ok(()),
        Some(keys) => if buf.len() < 64 {
            Err(AdnlError::InitTooShort { len: buf.len() as usize })
        } else if is_known_client(keys, buf.subrange(32, 64)) {
            Ok(())
        } else {
            Err(AdnlError::UnknownClient)
        },
    }
}

/// Calls `lockfree::map::Map::iter` and hands out the key of each entry
/// that the walk meets.  Other tasks may change the map meanwhile, so
/// nothing is claimed of the keys.
#[verifier::external_body]
fn client_keys(clients: &lockfree::map::Map<[u8; 32], u8>) -> (keys: Vec<[u8; 32]>) {
    clients.iter().map(|client| *client.key()).collect()
}

/// True when `keys` are the keys that a walk through the allow-list gave.
pub closed spec fn walked(clients: &lockfree::map::Map<[u8; 32], u8>, keys: Vec<[u8; 32]>) -> bool {
    call_ensures(client_keys, (clients,), keys)
}

/// What the first message of a connection sets up: the failure, or the
/// 160-byte nonce and what is left in the buffer behind it.
pub open spec fn init_packet_spec(buf: Seq<u8>, secret: Seq<u8>) -> Result<(Seq<u8>, Seq<u8>), AdnlError> {
    match parse_packet_spec(buf, secret, Some(NONCE_LEN), false) {
        Ok((_, opened)) => Ok((opened.subrange(0, 160), opened.subrange(160, opened.len() as int))),
        Err(e) => Err(e),
    }
}

/// ADNL WebSocket server thread (one connection)
pub struct AdnlWsServerThread;

impl AdnlWsServerThread {
    /// Checks the sender of a first message against the allow-list, where
    /// there is one: the message must be long enough to name its sender,
    /// and the sender's key must be on the list.
    pub fn check_client(clients: Option<&[[u8; 32]]>, buf: &[u8]) -> (checked: Result<(), AdnlError>)
        ensures
            checked == client_check(list_view(clients), buf@),
    {
        if let Some(list) = clients {
            // Check known client if any
            if buf.len() < 64 {
                return Err(AdnlError::InitTooShort { len: buf.len() });
            }
            let sender = slice_subrange(buf, 32, 64);
            let mut i: usize = 0;
            while i < list.len()
                invariant
                    i <= list@.len(),
                    clients == Some(list),
                    buf@.len() >= 64,
                    sender@ == buf@.subrange(32, 64),
                    forall|j: int| 0 <= j < i ==> (#[trigger] list@[j])@ != sender@,
                decreases list@.len() - i,
            {
                if bytes_equal(list[i].as_slice(), sender) {
                    assert(list@[i as int]@ == sender@);
                    return Ok(());
                }
                i = i + 1;
            }
            return Err(AdnlError::UnknownClient);
        }
        Ok(())
    }

    /// Checks the sender of a first message against the allow-list held in
    /// a shared map, where there is one: the keys in the map are walked and
    /// the sender is checked against them.
    pub fn check_client_in_map(clients: Option<&lockfree::map::Map<[u8; 32], u8>>, buf: &[u8]) -> (checked: Result<
        (),
        AdnlError,
    >)
        ensures
            match clients {
                None => checked is Ok,
                Some(map) => if buf@.len() < 64 {
                    checked == Err::<(), AdnlError>(AdnlError::InitTooShort { len: buf@.len() as usize })
                } else {
                    exists|keys: Vec<[u8; 32]>| #[trigger] walked(map, keys) && checked == client_check(Some(keys@), buf@)
                },
            },
    {
        match clients {
            None => Ok(()),
            Some(map) => {
                if buf.len() < 64 {
                    return Err(AdnlError::InitTooShort { len: buf.len() });
                }
                let keys = client_keys(map);
                assert(walked(map, keys));
                Self::check_client(Some(keys.as_slice()), buf)
            },
        }
    }

    /// Opens the first message of a connection, an unversioned handshake
    /// packet with a 160-byte nonce, and derives the stream ciphers of the
    /// accepting side from the nonce.  What followed the nonce stays in
    /// `buf`; the shared secret is cleared.
    pub fn parse_init_packet(buf: &mut Vec<u8>, shared_secret: &mut [u8; 32]) -> (parsed: Result<
        AdnlStreamCrypto,
        AdnlError,
    >)
        ensures
            match parsed {
                Ok(crypto) => init_packet_spec(old(buf)@, old(shared_secret)@) matches Ok((nonce, rest))
                    && final(buf)@ == rest && crypto.cipher_recv().key() == nonce.subrange(32, 64)
                    && crypto.cipher_recv().iv() == nonce.subrange(80, 96) && crypto.cipher_recv().pos() == 0
                    && crypto.cipher_send().key() == nonce.subrange(0, 32) && crypto.cipher_send().iv()
                    == nonce.subrange(64, 80) && crypto.cipher_send().pos() == 0,
                Err(e) => init_packet_spec(old(buf)@, old(shared_secret)@) == Err::<(Seq<u8>, Seq<u8>), AdnlError>(e)
                    && final(buf)@ == old(buf)@,
            },
            forall|i: int| 0 <= i < 32 ==> #[trigger] final(shared_secret)@[i] == 0,
    {
        match AdnlHandshake::parse_packet(buf, shared_secret, Some(NONCE_LEN), false) {
            Err(e) => Err(e),
            Ok(_) => {
                let mut nonce = Self::take_nonce(buf);
                let ret = AdnlStreamCrypto::with_nonce_as_server(&mut nonce);
                let rest = buf.split_off(NONCE_LEN);
                *buf = rest;
                Ok(ret)
            },
        }
    }

    /// Takes the connection nonce from the front of `buf` and overwrites it
    /// there with zeros, so that it is not kept where it was received.
    fn take_nonce(buf: &mut Vec<u8>) -> (nonce: [u8; 160])
        requires
            old(buf)@.len() >= 160,
        ensures
            nonce@ == old(buf)@.subrange(0, 160),
            final(buf)@.len() == old(buf)@.len(),
            forall|i: int| 0 <= i < 160 ==> #[trigger] final(buf)@[i] == 0,
            final(buf)@.subrange(160, old(buf)@.len() as int) == old(buf)@.subrange(160, old(buf)@.len() as int),
    {
        let mut nonce: [u8; 160] = [0u8; 160];
        copy_into(&mut nonce, buf.as_slice(), 0);
        let ghost before = buf@;
        let mut i: usize = 0;
        while i < NONCE_LEN
            invariant
                i <= NONCE_LEN,
                buf@.len() == before.len(),
                before.len() >= 160,
                forall|j: int| 0 <= j < i ==> #[trigger] buf@[j] == 0,
                forall|j: int| i <= j < before.len() ==> #[trigger] buf@[j] == before[j],
            decreases NONCE_LEN - i,
        {
            buf[i] = 0;
            i = i + 1;
        }
        assert(buf@.subrange(160, before.len() as int) =~= before.subrange(160, before.len() as int));
        nonce
    }

    /// Decides what an inbound message leads to: a query is decoded and
    /// offered to the handlers, and must be consumed; any other message, or
    /// a query that no handler consumes, fails the connection.
    pub fn handle_message<D: Fn(&Vec<u8>) -> Result<Vec<TlObject>, AdnlError>>(
        subscribers: &[Arc<dyn Subscriber>],
        message: &AdnlMessage,
        peers: &AdnlPeers,
        deserialize: D,
    ) -> (handled: Result<QueryAdnlAnswer, AdnlError>)
        requires
            forall|query: &Vec<u8>| call_requires(deserialize, (query,)),
        ensures
            match message {
                AdnlMessage::Query(query) => match handled {
                    Ok(finalizer) => finalizer.spec_query_id() == query.query_id && inbound_outcome(
                        subscribers@,
                        &query.query,
                        *peers,
                        deserialize,
                        Ok(Some(finalizer.spec_answer())),
                    ),
                    Err(e) => inbound_outcome(subscribers@, &query.query, *peers, deserialize, Err(e)) || (e
                        == AdnlError::UnexpectedMessage && inbound_outcome(
                        subscribers@,
                        &query.query,
                        *peers,
                        deserialize,
                        Ok(None),
                    )),
                },
                _ => handled matches Err(e) && e == AdnlError::UnexpectedMessage,
            },
    {
        let answer = match message {
            AdnlMessage::Query(query) => Query::process_adnl(subscribers, query, peers, deserialize)?,
            _ => None,
        };
        if let Some(answer) = answer {
            Ok(answer)
        } else {
            Err(AdnlError::UnexpectedMessage)
        }
    }
}

} // verus!

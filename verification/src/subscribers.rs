//! Handlers that come with the library.

use crate::error::AdnlError;
use crate::message::{TaggedObject, TlObject};
use crate::peers::AdnlPeers;
use crate::query::{Answer, QueryAnswer, QueryResult, Subscriber};
use std::sync::Arc;
use vstd::prelude::*;

verus! {

/// ADNL ping subscriber: answers a ping with a pong of the same value.
pub struct AdnlPingSubscriber;

impl Subscriber for AdnlPingSubscriber {
    open spec fn query_post(&self, object: TlObject, peers: AdnlPeers, result: Result<QueryResult, AdnlError>) -> bool {
        match object {
            TlObject::AdnlPing { value } => result == Ok::<QueryResult, AdnlError>(
                QueryResult::Consumed(
                    QueryAnswer::Ready(Some(Answer::Object(TaggedObject { object: TlObject::AdnlPong { value } }))),
                ),
            ),
            _ => result == Ok::<QueryResult, AdnlError>(QueryResult::Rejected(object)),
        }
    }

    fn poll(&self, start: &Arc<std::time::Instant>) {
    }

    fn try_consume_custom(&self, data: &[u8], peers: &AdnlPeers) -> (result: Result<bool, AdnlError>) {
        Ok(false)
    }

    fn try_consume_object(&self, object: TlObject, peers: &AdnlPeers) -> (result: Result<bool, AdnlError>) {
        Ok(false)
    }

    fn try_consume_query(&self, object: TlObject, peers: &AdnlPeers) -> (result: Result<QueryResult, AdnlError>) {
        match object {
            TlObject::AdnlPing { value } => QueryResult::consume(TlObject::AdnlPong { value }),
            object => Ok(QueryResult::Rejected(object)),
        }
    }

    fn try_consume_query_bundle(&self, objects: Vec<TlObject>, peers: &AdnlPeers) -> (result: Result<
        QueryResult,
        AdnlError,
    >) {
        Ok(QueryResult::RejectedBundle(objects))
    }
}

/// True when `result` is a consumed query with the raw answer `bytes`.
pub open spec fn is_raw_answer(result: Result<QueryResult, AdnlError>, bytes: Seq<u8>) -> bool {
    result matches Ok(QueryResult::Consumed(QueryAnswer::Ready(Some(Answer::Raw(data))))) && data.object@ == bytes
}

/// A simple echo subscriber that returns the same data it receives
pub struct EchoSubscriber;

impl Subscriber for EchoSubscriber {
    open spec fn query_post(&self, object: TlObject, peers: AdnlPeers, result: Result<QueryResult, AdnlError>) -> bool {
        match object {
            TlObject::AdnlMessage(message) => is_raw_answer(
                result,
                match message.spec_query() {
                    Some(bytes) => bytes,
                    None => Seq::empty(),
                },
            ),
            _ => result == Ok::<QueryResult, AdnlError>(QueryResult::Rejected(object)),
        }
    }

    fn poll(&self, start: &Arc<std::time::Instant>) {
    }

    fn try_consume_custom(&self, data: &[u8], peers: &AdnlPeers) -> (result: Result<bool, AdnlError>) {
        Ok(false)  // We don't consume it
    }

    fn try_consume_object(&self, object: TlObject, peers: &AdnlPeers) -> (result: Result<bool, AdnlError>) {
        Ok(false)  // We don't consume it
    }

    fn try_consume_query(&self, object: TlObject, peers: &AdnlPeers) -> (result: Result<QueryResult, AdnlError>) {
        // Simply echo back the query bytes we received
        let query_data: Vec<u8> = match &object {
            TlObject::AdnlMessage(m) => {
                let mut copy: Vec<u8> = Vec::new();
                if let Some(bytes) = m.query() {
                    copy.extend_from_slice(bytes.as_slice());
                    assert(copy@ =~= bytes@);
                }
                copy
            },
            _ => {
                return Ok(QueryResult::Rejected(object));
            },
        };
        let tagged = TaggedObject { object: query_data };
        Ok(QueryResult::Consumed(QueryAnswer::Ready(Some(Answer::Raw(tagged)))))
    }

    fn try_consume_query_bundle(&self, objects: Vec<TlObject>, peers: &AdnlPeers) -> (result: Result<
        QueryResult,
        AdnlError,
    >) {
        Ok(QueryResult::RejectedBundle(objects))
    }
}

/// A subscriber that looks at messages but doesn't consume them
pub struct LoggingSubscriber;

impl Subscriber for LoggingSubscriber {
    fn poll(&self, start: &Arc<std::time::Instant>) {
    }

    fn try_consume_custom(&self, data: &[u8], peers: &AdnlPeers) -> (result: Result<bool, AdnlError>) {
        Ok(false)  // We don't consume it
    }

    fn try_consume_object(&self, object: TlObject, peers: &AdnlPeers) -> (result: Result<bool, AdnlError>) {
        Ok(false)  // We don't consume it
    }

    fn try_consume_query(&self, object: TlObject, peers: &AdnlPeers) -> (result: Result<QueryResult, AdnlError>) {
        Ok(QueryResult::Rejected(object))
    }

    fn try_consume_query_bundle(&self, objects: Vec<TlObject>, peers: &AdnlPeers) -> (result: Result<
        QueryResult,
        AdnlError,
    >) {
        Ok(QueryResult::RejectedBundle(objects))
    }
}

/// A subscriber for one type of query; as it stands it rejects all queries
pub struct CustomTypeSubscriber;

impl Subscriber for CustomTypeSubscriber {
    fn poll(&self, start: &Arc<std::time::Instant>) {
    }

    fn try_consume_custom(&self, data: &[u8], peers: &AdnlPeers) -> (result: Result<bool, AdnlError>) {
        Ok(false)
    }

    fn try_consume_object(&self, object: TlObject, peers: &AdnlPeers) -> (result: Result<bool, AdnlError>) {
        Ok(false)
    }

    fn try_consume_query(&self, object: TlObject, peers: &AdnlPeers) -> (result: Result<QueryResult, AdnlError>) {
        Ok(QueryResult::Rejected(object))
    }

    fn try_consume_query_bundle(&self, objects: Vec<TlObject>, peers: &AdnlPeers) -> (result: Result<
        QueryResult,
        AdnlError,
    >) {
        Ok(QueryResult::RejectedBundle(objects))
    }
}

} // verus!

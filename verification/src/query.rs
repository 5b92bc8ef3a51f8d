//! Queries and their answers: building a query envelope, offering inbound
//! queries to a chain of handlers, and turning an answer into an envelope.

use crate::error::AdnlError;
use crate::hash::{sha256, sha256_digest};
use crate::message::{
    AdnlCustomMessage, AdnlMessage, AdnlQueryMessage, AnswerEnvelope, QueryId, RldpQuery, TaggedAdnlMessage,
    TaggedByteVec, TaggedObject, TaggedRldpAnswer, TaggedTlObject, TlObject,
};
use crate::peers::AdnlPeers;
use crate::random::random_bytes;
use std::marker::PhantomData;
use std::sync::Arc;
use vstd::pervasive::unreached;
use vstd::prelude::*;

verus! {

#[verifier::external_type_specification]
#[verifier::external_body]
#[verifier::reject_recursive_types(T)]
pub struct ExJoinHandle<T>(tokio::task::JoinHandle<T>);

#[verifier::external_type_specification]
#[verifier::external_body]
pub struct ExJoinError(tokio::task::JoinError);

#[verifier::external_type_specification]
#[verifier::external_body]
pub struct ExBarrier(tokio::sync::Barrier);

/// `tokio::sync::Barrier::new` builds a barrier for `n` tasks.  Nothing is
/// claimed of it.
pub assume_specification[ tokio::sync::Barrier::new ](n: usize) -> tokio::sync::Barrier;

/// Calls `Arc::clone`.  The contract claims that the new handle points to
/// the value the old one points to.
#[verifier::external_body]
fn share<T>(handle: &Arc<T>) -> (other: Arc<T>)
    ensures
        other == *handle,
{
    Arc::clone(handle)
}

/// ADNL/RLDP answer
pub enum Answer {
    Object(TaggedTlObject),
    Raw(TaggedByteVec),
}

/// ADNL/RLDP query answer in transit
pub enum QueryAnswer {
    Pending(tokio::task::JoinHandle<Result<Option<Answer>, AdnlError>>),
    Ready(Option<Answer>),
}

/// ADNL/RLDP query consumption result
pub enum QueryResult {
    /// Consumed with optional answer
    Consumed(QueryAnswer),
    /// Rejected
    Rejected(TlObject),
    /// Rejected bundle
    RejectedBundle(Vec<TlObject>),
}

impl QueryResult {
    /// Consume plain helper
    pub fn consume(answer: TlObject) -> (result: Result<Self, AdnlError>)
        ensures
            result == Ok::<Self, AdnlError>(
                QueryResult::Consumed(QueryAnswer::Ready(Some(Answer::Object(TaggedObject { object: answer })))),
            ),
    {
        QueryResult::consume_boxed(answer)
    }

    /// Consume boxed helper
    pub fn consume_boxed(answer: TlObject) -> (result: Result<Self, AdnlError>)
        ensures
            result == Ok::<Self, AdnlError>(
                QueryResult::Consumed(QueryAnswer::Ready(Some(Answer::Object(TaggedObject { object: answer })))),
            ),
    {
        let ret = TaggedObject { object: answer };
        Ok(QueryResult::Consumed(QueryAnswer::Ready(Some(Answer::Object(ret)))))
    }
}

/// ADNL subscriber: a handler that is offered each inbound query, bundle and
/// custom message.  For each offer the handler states, as a relation, which
/// results it may give; a handler that has nothing to say of a kind of offer
/// keeps the relation it is given here, and declines.
pub trait Subscriber: Send + Sync {
    /// The results that `try_consume_custom` may give.
    open spec fn custom_post(&self, data: Seq<u8>, peers: AdnlPeers, result: Result<bool, AdnlError>) -> bool {
        result == Ok::<bool, AdnlError>(false)
    }

    /// The results that `try_consume_object` may give.
    open spec fn object_post(&self, object: TlObject, peers: AdnlPeers, result: Result<bool, AdnlError>) -> bool {
        result == Ok::<bool, AdnlError>(false)
    }

    /// The results that `try_consume_query` may give.
    open spec fn query_post(&self, object: TlObject, peers: AdnlPeers, result: Result<QueryResult, AdnlError>) -> bool {
        result == Ok::<QueryResult, AdnlError>(QueryResult::Rejected(object))
    }

    /// The results that `try_consume_query_bundle` may give.
    open spec fn bundle_post(
        &self,
        objects: Vec<TlObject>,
        peers: AdnlPeers,
        result: Result<QueryResult, AdnlError>,
    ) -> bool {
        result == Ok::<QueryResult, AdnlError>(QueryResult::RejectedBundle(objects))
    }

    /// Poll (for periodic actions)
    fn poll(&self, start: &Arc<std::time::Instant>);

    /// Try consume custom data: data -> consumed yes/no
    fn try_consume_custom(&self, data: &[u8], peers: &AdnlPeers) -> (result: Result<bool, AdnlError>)
        ensures
            self.custom_post(data@, *peers, result),
    ;

    /// Try consume TL object: object -> consumed yes/no
    fn try_consume_object(&self, object: TlObject, peers: &AdnlPeers) -> (result: Result<bool, AdnlError>)
        ensures
            self.object_post(object, *peers, result),
    ;

    /// Try consume query: object -> result.  A query that is not consumed
    /// is handed back as it came.
    fn try_consume_query(&self, object: TlObject, peers: &AdnlPeers) -> (result: Result<QueryResult, AdnlError>)
        ensures
            self.query_post(object, *peers, result),
            result matches Ok(QueryResult::Rejected(back)) ==> back == object,
            !(result matches Ok(QueryResult::RejectedBundle(_))),
    ;

    /// Try consume query bundle: objects -> result.  A bundle that is not
    /// consumed is handed back as it came.
    fn try_consume_query_bundle(&self, objects: Vec<TlObject>, peers: &AdnlPeers) -> (result: Result<
        QueryResult,
        AdnlError,
    >)
        ensures
            self.bundle_post(objects, *peers, result),
            result matches Ok(QueryResult::RejectedBundle(back)) ==> back == objects,
            !(result matches Ok(QueryResult::Rejected(_))),
    ;
}

/// True when each of the first `count` handlers may decline the query.
pub open spec fn queries_declined(
    subscribers: Seq<Arc<dyn Subscriber>>,
    object: TlObject,
    peers: AdnlPeers,
    count: int,
) -> bool {
    forall|j: int|
        0 <= j < count ==> (#[trigger] subscribers[j]).query_post(
            object,
            peers,
            Ok(QueryResult::Rejected(object)),
        )
}

/// True when each of the first `count` handlers may decline the bundle.
pub open spec fn bundles_declined(
    subscribers: Seq<Arc<dyn Subscriber>>,
    objects: Vec<TlObject>,
    peers: AdnlPeers,
    count: int,
) -> bool {
    forall|j: int|
        0 <= j < count ==> (#[trigger] subscribers[j]).bundle_post(
            objects,
            peers,
            Ok(QueryResult::RejectedBundle(objects)),
        )
}

/// True when each of the first `count` handlers may decline the custom data.
pub open spec fn customs_declined(
    subscribers: Seq<Arc<dyn Subscriber>>,
    data: Seq<u8>,
    peers: AdnlPeers,
    count: int,
) -> bool {
    forall|j: int| 0 <= j < count ==> (#[trigger] subscribers[j]).custom_post(data, peers, Ok(false))
}

/// True when the handler at `index` is the first that does not decline the
/// query, and may give `result` for it.
pub open spec fn query_ends_at(
    subscribers: Seq<Arc<dyn Subscriber>>,
    object: TlObject,
    peers: AdnlPeers,
    index: int,
    result: Result<QueryResult, AdnlError>,
) -> bool {
    0 <= index < subscribers.len() && queries_declined(subscribers, object, peers, index)
        && subscribers[index].query_post(object, peers, result)
}

/// True when the handler at `index` is the first that does not decline the
/// bundle, and may give `result` for it.
pub open spec fn bundle_ends_at(
    subscribers: Seq<Arc<dyn Subscriber>>,
    objects: Vec<TlObject>,
    peers: AdnlPeers,
    index: int,
    result: Result<QueryResult, AdnlError>,
) -> bool {
    0 <= index < subscribers.len() && bundles_declined(subscribers, objects, peers, index)
        && subscribers[index].bundle_post(objects, peers, result)
}

/// The outcomes that offering one query to the chain may have: the answer
/// of the first handler that consumes it, after all before it declined; no
/// answer, after all declined; or the failure of the first that fails.
pub open spec fn query_outcome(
    subscribers: Seq<Arc<dyn Subscriber>>,
    object: TlObject,
    peers: AdnlPeers,
    outcome: Result<Option<QueryAnswer>, AdnlError>,
) -> bool {
    match outcome {
        Ok(None) => queries_declined(subscribers, object, peers, subscribers.len() as int),
        Ok(Some(answer)) => exists|i: int| #[trigger]
            query_ends_at(subscribers, object, peers, i, Ok(QueryResult::Consumed(answer))),
        Err(e) => exists|i: int| #[trigger] query_ends_at(subscribers, object, peers, i, Err(e)),
    }
}

/// The outcomes that offering a bundle to the chain may have.  The bundle is
/// offered whole: it is never taken apart.
pub open spec fn bundle_outcome(
    subscribers: Seq<Arc<dyn Subscriber>>,
    objects: Vec<TlObject>,
    peers: AdnlPeers,
    outcome: Result<Option<QueryAnswer>, AdnlError>,
) -> bool {
    match outcome {
        Ok(None) => bundles_declined(subscribers, objects, peers, subscribers.len() as int),
        Ok(Some(answer)) => exists|i: int| #[trigger]
            bundle_ends_at(subscribers, objects, peers, i, Ok(QueryResult::Consumed(answer))),
        Err(e) => exists|i: int| #[trigger] bundle_ends_at(subscribers, objects, peers, i, Err(e)),
    }
}

/// The outcomes that offering decoded objects to the chain may have: one
/// object goes the way of single queries, any other number the way of
/// bundles.
pub open spec fn process_outcome(
    subscribers: Seq<Arc<dyn Subscriber>>,
    objects: Vec<TlObject>,
    peers: AdnlPeers,
    outcome: Result<Option<QueryAnswer>, AdnlError>,
) -> bool {
    if objects@.len() == 1 {
        query_outcome(subscribers, objects@[0], peers, outcome)
    } else {
        bundle_outcome(subscribers, objects, peers, outcome)
    }
}

/// The outcomes that decoding a serialized query and offering its objects
/// to the chain may have: an outcome of the chain for objects that the
/// decoder may give, or a failure of the decoder.
pub open spec fn inbound_outcome<D: Fn(&Vec<u8>) -> Result<Vec<TlObject>, AdnlError>>(
    subscribers: Seq<Arc<dyn Subscriber>>,
    query: &Vec<u8>,
    peers: AdnlPeers,
    deserialize: D,
    outcome: Result<Option<QueryAnswer>, AdnlError>,
) -> bool {
    ||| exists|objects: Vec<TlObject>| #[trigger]
        call_ensures(deserialize, (query,), Ok(objects)) && process_outcome(subscribers, objects, peers, outcome)
    ||| outcome matches Err(e) && call_ensures(deserialize, (query,), Err(e))
}

/// The answer in transit that a finalizer holds, where there is one.
pub open spec fn answer_of<A: AnswerEnvelope>(processed: Result<Option<QueryAnswerFinalizer<A>>, AdnlError>) -> Result<
    Option<QueryAnswer>,
    AdnlError,
> {
    match processed {
        Ok(Some(finalizer)) => Ok(Some(finalizer.spec_answer())),
        Ok(None) => Ok(None),
        Err(e) => Err(e),
    }
}

/// True when the handler at `index` is the first that does not decline the
/// custom data, and may give `result` for it.
pub open spec fn custom_ends_at(
    subscribers: Seq<Arc<dyn Subscriber>>,
    data: Seq<u8>,
    peers: AdnlPeers,
    index: int,
    result: Result<bool, AdnlError>,
) -> bool {
    0 <= index < subscribers.len() && customs_declined(subscribers, data, peers, index)
        && subscribers[index].custom_post(data, peers, result)
}

/// The outcomes that offering custom data to the chain may have: consumed
/// by the first handler that accepts it, after all before it declined;
/// consumed by none; or the failure of the first that fails.
pub open spec fn custom_outcome(
    subscribers: Seq<Arc<dyn Subscriber>>,
    data: Seq<u8>,
    peers: AdnlPeers,
    outcome: Result<bool, AdnlError>,
) -> bool {
    match outcome {
        Ok(false) => customs_declined(subscribers, data, peers, subscribers.len() as int),
        _ => exists|i: int| #[trigger] custom_ends_at(subscribers, data, peers, i, outcome),
    }
}

/// Where every handler before one can only decline a query, and that one can
/// only consume it with `answer`, the chain gives `answer`, whatever
/// handlers stand behind it.
pub proof fn first_consumer_answers(
    subscribers: Seq<Arc<dyn Subscriber>>,
    object: TlObject,
    peers: AdnlPeers,
    index: int,
    answer: QueryAnswer,
    outcome: Result<Option<QueryAnswer>, AdnlError>,
)
    requires
        0 <= index < subscribers.len(),
        forall|j: int, r: Result<QueryResult, AdnlError>|
            0 <= j < index && #[trigger] subscribers[j].query_post(object, peers, r) ==> r == Ok::<
                QueryResult,
                AdnlError,
            >(QueryResult::Rejected(object)),
        forall|r: Result<QueryResult, AdnlError>| #[trigger]
            subscribers[index].query_post(object, peers, r) ==> r == Ok::<QueryResult, AdnlError>(
                QueryResult::Consumed(answer),
            ),
        query_outcome(subscribers, object, peers, outcome),
    ensures
        outcome == Ok::<Option<QueryAnswer>, AdnlError>(Some(answer)),
{
    match outcome {
        Ok(None) => {
            assert(subscribers[index].query_post(object, peers, Ok(QueryResult::Rejected(object))));
        },
        Ok(Some(given)) => {
            let i = choose|i: int| #[trigger]
                query_ends_at(subscribers, object, peers, i, Ok(QueryResult::Consumed(given)));
            if i > index {
                assert(subscribers[index].query_post(object, peers, Ok(QueryResult::Rejected(object))));
            }
        },
        Err(e) => {
            let i = choose|i: int| #[trigger] query_ends_at(subscribers, object, peers, i, Err(e));
            if i > index {
                assert(subscribers[index].query_post(object, peers, Ok(QueryResult::Rejected(object))));
            }
        },
    }
}

/// Handlers that can only decline a bundle leave it unanswered: the chain
/// does not take a bundle apart to offer its objects one by one.
pub proof fn bundle_is_not_taken_apart(
    subscribers: Seq<Arc<dyn Subscriber>>,
    objects: Vec<TlObject>,
    peers: AdnlPeers,
    outcome: Result<Option<QueryAnswer>, AdnlError>,
)
    requires
        objects@.len() != 1,
        forall|j: int, r: Result<QueryResult, AdnlError>|
            0 <= j < subscribers.len() && #[trigger] subscribers[j].bundle_post(objects, peers, r) ==> r == Ok::<
                QueryResult,
                AdnlError,
            >(QueryResult::RejectedBundle(objects)),
        process_outcome(subscribers, objects, peers, outcome),
    ensures
        outcome == Ok::<Option<QueryAnswer>, AdnlError>(None),
{
}

/// The serialized body after the prefix, where there is one.
pub open spec fn prefixed(prefix: Option<&[u8]>, body: Seq<u8>) -> Seq<u8> {
    match prefix {
        Some(p) => p@ + body,
        None => body,
    }
}

/// True when `message` is the query envelope with the given id and bytes.
pub open spec fn is_query_envelope(message: TaggedAdnlMessage, query_id: QueryId, query: Seq<u8>) -> bool {
    message.object matches AdnlMessage::Query(q) && q.query_id == query_id && q.query@ == query
}

/// ADNL/RLDP Query
#[derive(Debug)]
pub enum Query {
    Received(Vec<u8>),
    Sent(Arc<tokio::sync::Barrier>),
    Timeout,
}

/// ADNL query cache
pub type QueryCache = lockfree::map::Map<QueryId, Query>;

impl Query {
    /// Construct new query: the signal that its answer has come, for the
    /// caller that waits, and the state to register under the query's id.
    pub fn new() -> (pair: (Arc<tokio::sync::Barrier>, Self))
        ensures
            pair.1 == Query::Sent(pair.0),
    {
        let ping = Arc::new(tokio::sync::Barrier::new(2));
        let pong = share(&ping);
        (ping, Query::Sent(pong))
    }

    /// The query envelope for a serialized body under the given id: the
    /// prefix, where there is one, and then the body.
    pub fn build_with_id(prefix: Option<&[u8]>, body: Vec<u8>, query_id: QueryId) -> (message: TaggedAdnlMessage)
        ensures
            is_query_envelope(message, query_id, prefixed(prefix, body@)),
    {
        let query = if let Some(prefix) = prefix {
            let mut query: Vec<u8> = Vec::with_capacity(prefix.len());
            query.extend_from_slice(prefix);
            query.extend_from_slice(body.as_slice());
            assert(query@ =~= prefixed(Some(prefix), body@));
            query
        } else {
            body
        };
        TaggedObject { object: AdnlMessage::Query(AdnlQueryMessage { query_id, query }) }
    }

    /// Build query: a fresh random id and the envelope that carries the
    /// serialized body under it.
    pub fn build<F: Fn(&TlObject) -> Result<Vec<u8>, AdnlError>>(
        prefix: Option<&[u8]>,
        query_body: &TaggedTlObject,
        serialize: F,
    ) -> (built: Result<(QueryId, TaggedAdnlMessage), AdnlError>)
        requires
            call_requires(serialize, (&query_body.object,)),
        ensures
            match built {
                Ok((query_id, message)) => exists|body: Vec<u8>| #[trigger]
                    call_ensures(serialize, (&query_body.object,), Ok(body)) && is_query_envelope(
                        message,
                        query_id,
                        prefixed(prefix, body@),
                    ),
                Err(e) => call_ensures(serialize, (&query_body.object,), Err(e)),
            },
    {
        let query_id: QueryId = random_bytes();
        match serialize(&query_body.object) {
            Ok(body) => Ok((query_id, Self::build_with_id(prefix, body, query_id))),
            Err(e) => Err(e),
        }
    }

    /// Parse answer: the answer where it has the expected type, else a
    /// failure.
    pub fn parse<A>(answer: Result<A, TlObject>) -> (parsed: Result<A, AdnlError>)
        ensures
            match answer {
                Ok(a) => parsed == Ok::<A, AdnlError>(a),
                Err(_) => parsed == Err::<A, AdnlError>(AdnlError::UnsupportedResponse),
            },
    {
        match answer {
            Ok(answer) => Ok(answer),
            Err(_) => Err(AdnlError::UnsupportedResponse),
        }
    }

    /// Process ADNL query: decodes the objects of a query, offers them to
    /// the chain and prepares the answer envelope under the query's id.
    pub fn process_adnl<D: Fn(&Vec<u8>) -> Result<Vec<TlObject>, AdnlError>>(
        subscribers: &[Arc<dyn Subscriber>],
        query: &AdnlQueryMessage,
        peers: &AdnlPeers,
        deserialize: D,
    ) -> (processed: Result<Option<QueryAdnlAnswer>, AdnlError>)
        requires
            call_requires(deserialize, (&query.query,)),
        ensures
            inbound_outcome(subscribers@, &query.query, *peers, deserialize, answer_of(processed)),
            processed matches Ok(Some(finalizer)) ==> finalizer.spec_query_id() == query.query_id,
    {
        match Self::process(subscribers, &query.query, peers, deserialize) {
            Ok(Some(answer)) => Ok(Some(QueryAnswerFinalizer::new(answer, query.query_id))),
            Ok(None) => Ok(None),
            Err(e) => Err(e),
        }
    }

    /// Process custom message
    pub fn process_custom(subscribers: &[Arc<dyn Subscriber>], custom: &AdnlCustomMessage, peers: &AdnlPeers) -> (consumed:
        Result<bool, AdnlError>)
        ensures
            custom_outcome(subscribers@, custom.data@, *peers, consumed),
    {
        let mut i: usize = 0;
        while i < subscribers.len()
            invariant
                i <= subscribers@.len(),
                customs_declined(subscribers@, custom.data@, *peers, i as int),
            decreases subscribers@.len() - i,
        {
            let result = subscribers[i].try_consume_custom(custom.data.as_slice(), peers);
            match result {
                Ok(false) => {},
                _ => {
                    assert(custom_ends_at(subscribers@, custom.data@, *peers, i as int, result));
                    return result;
                },
            }
            i = i + 1;
        }
        Ok(false)
    }

    /// Process RLDP query: decodes the objects of a query, offers them to
    /// the chain and prepares the answer envelope under the query's id.
    pub fn process_rldp<D: Fn(&Vec<u8>) -> Result<Vec<TlObject>, AdnlError>>(
        subscribers: &[Arc<dyn Subscriber>],
        query: &RldpQuery,
        peers: &AdnlPeers,
        deserialize: D,
    ) -> (processed: Result<Option<QueryRldpAnswer>, AdnlError>)
        requires
            call_requires(deserialize, (&query.data,)),
        ensures
            inbound_outcome(subscribers@, &query.data, *peers, deserialize, answer_of(processed)),
            processed matches Ok(Some(finalizer)) ==> finalizer.spec_query_id() == query.query_id,
    {
        match Self::process(subscribers, &query.data, peers, deserialize) {
            Ok(Some(answer)) => Ok(Some(QueryAnswerFinalizer::new(answer, query.query_id))),
            Ok(None) => Ok(None),
            Err(e) => Err(e),
        }
    }

    /// The envelope of the first sub-protocol around an answer.
    pub fn convert_to_adnl_answer(data: TaggedByteVec, query_id: QueryId) -> (message: TaggedAdnlMessage)
        ensures
            message == TaggedAdnlMessage::spec_wrap(data, query_id),
    {
        TaggedAdnlMessage::wrap(data, query_id)
    }

    /// The envelope of the second sub-protocol around an answer.
    pub fn convert_to_rldp_answer(data: TaggedByteVec, query_id: QueryId) -> (message: TaggedRldpAnswer)
        ensures
            message == TaggedRldpAnswer::spec_wrap(data, query_id),
    {
        TaggedRldpAnswer::wrap(data, query_id)
    }

    /// Decodes the objects bundled in a serialized query and offers them to
    /// the handlers.
    pub fn process<D: Fn(&Vec<u8>) -> Result<Vec<TlObject>, AdnlError>>(
        subscribers: &[Arc<dyn Subscriber>],
        query: &Vec<u8>,
        peers: &AdnlPeers,
        deserialize: D,
    ) -> (outcome: Result<Option<QueryAnswer>, AdnlError>)
        requires
            call_requires(deserialize, (query,)),
        ensures
            inbound_outcome(subscribers@, query, *peers, deserialize, outcome),
    {
        match deserialize(query) {
            Ok(queries) => Self::dispatch(subscribers, queries, peers),
            Err(e) => Err(e),
        }
    }

    /// Offers decoded objects to the handlers in order.  One object is
    /// offered as a query; any other number is offered whole, as a bundle.
    /// The first handler that consumes ends the chain.
    pub fn dispatch(subscribers: &[Arc<dyn Subscriber>], objects: Vec<TlObject>, peers: &AdnlPeers) -> (outcome: Result<
        Option<QueryAnswer>,
        AdnlError,
    >)
        ensures
            process_outcome(subscribers@, objects, *peers, outcome),
    {
        let mut queries = objects;
        if queries.len() == 1 {
            let mut query = queries.remove(0);
            let ghost object = query;
            assert(object == objects@[0]);
            let mut i: usize = 0;
            while i < subscribers.len()
                invariant
                    i <= subscribers@.len(),
                    query == object,
                    objects@.len() == 1,
                    objects@[0] == object,
                    queries_declined(subscribers@, object, *peers, i as int),
                decreases subscribers@.len() - i,
            {
                let result = subscribers[i].try_consume_query(query, peers);
                match result {
                    Ok(QueryResult::Consumed(answer)) => {
                        assert(query_ends_at(subscribers@, object, *peers, i as int, result));
                        return Ok(Some(answer));
                    },
                    Ok(QueryResult::Rejected(back)) => {
                        query = back;
                    },
                    Ok(QueryResult::RejectedBundle(_)) => {
                        return unreached();
                    },
                    Err(e) => {
                        assert(query_ends_at(subscribers@, object, *peers, i as int, result));
                        return Err(e);
                    },
                }
                i = i + 1;
            }
        } else {
            let mut i: usize = 0;
            while i < subscribers.len()
                invariant
                    i <= subscribers@.len(),
                    queries == objects,
                    objects@.len() != 1,
                    bundles_declined(subscribers@, objects, *peers, i as int),
                decreases subscribers@.len() - i,
            {
                let result = subscribers[i].try_consume_query_bundle(queries, peers);
                match result {
                    Ok(QueryResult::Consumed(answer)) => {
                        assert(bundle_ends_at(subscribers@, objects, *peers, i as int, result));
                        return Ok(Some(answer));
                    },
                    Ok(QueryResult::Rejected(_)) => {
                        return unreached();
                    },
                    Ok(QueryResult::RejectedBundle(back)) => {
                        queries = back;
                    },
                    Err(e) => {
                        assert(bundle_ends_at(subscribers@, objects, *peers, i as int, result));
                        return Err(e);
                    },
                }
                i = i + 1;
            }
        }
        Ok(None)
    }
}

/// ADNL/RLDP query answer finalizer
pub struct QueryAnswerFinalizer<A> {
    answer: QueryAnswer,
    query_id: QueryId,
    envelope: PhantomData<A>,
}

/// Dedicated finalizers for ADNL and RLDP query answers
pub type QueryAdnlAnswer = QueryAnswerFinalizer<TaggedAdnlMessage>;

pub type QueryRldpAnswer = QueryAnswerFinalizer<TaggedRldpAnswer>;

/// The envelopes that converting an answer may give: none for no answer;
/// a raw answer as it is; an object answer as serialized.
pub open spec fn convert_post<A: AnswerEnvelope, F: Fn(&TlObject) -> Result<Vec<u8>, AdnlError>>(
    answer: Option<Answer>,
    query_id: QueryId,
    serialize: F,
    converted: Result<Option<A>, AdnlError>,
) -> bool {
    match answer {
        None => converted == Ok::<Option<A>, AdnlError>(None),
        Some(Answer::Raw(data)) => converted == Ok::<Option<A>, AdnlError>(Some(A::spec_wrap(data, query_id))),
        Some(Answer::Object(x)) => match converted {
            Ok(Some(envelope)) => exists|bytes: Vec<u8>| #[trigger]
                call_ensures(serialize, (&x.object,), Ok(bytes)) && envelope == A::spec_wrap(
                    TaggedObject { object: bytes },
                    query_id,
                ),
            Ok(None) => false,
            Err(e) => call_ensures(serialize, (&x.object,), Err(e)),
        },
    }
}

impl<A: AnswerEnvelope> QueryAnswerFinalizer<A> {
    /// The answer in transit.
    pub closed spec fn spec_answer(&self) -> QueryAnswer {
        self.answer
    }

    /// The id of the query that is answered.
    pub closed spec fn spec_query_id(&self) -> QueryId {
        self.query_id
    }

    /// A finalizer for the answer to the query `query_id`.
    pub fn new(answer: QueryAnswer, query_id: QueryId) -> (finalizer: Self)
        ensures
            finalizer.spec_answer() == answer,
            finalizer.spec_query_id() == query_id,
    {
        QueryAnswerFinalizer { answer, query_id, envelope: PhantomData }
    }

    /// Takes the finalizer apart, for a caller that waits for a pending
    /// answer.
    pub fn into_parts(self) -> (parts: (QueryAnswer, QueryId))
        ensures
            parts.0 == self.spec_answer(),
            parts.1 == self.spec_query_id(),
    {
        (self.answer, self.query_id)
    }

    /// Converts the answer if it is ready, and hands the finalizer back if
    /// it is still pending.
    pub fn try_finalize<F: Fn(&TlObject) -> Result<Vec<u8>, AdnlError>>(self, serialize: F) -> (finalized: Result<
        (Option<Self>, Option<A>),
        AdnlError,
    >)
        requires
            forall|object: &TlObject| call_requires(serialize, (object,)),
        ensures
            match self.spec_answer() {
                QueryAnswer::Pending(_) => finalized == Ok::<(Option<Self>, Option<A>), AdnlError>((Some(self), None)),
                QueryAnswer::Ready(answer) => match finalized {
                    Ok((pending, envelope)) => pending is None && convert_post(
                        answer,
                        self.spec_query_id(),
                        serialize,
                        Ok(envelope),
                    ),
                    Err(e) => convert_post::<A, F>(answer, self.spec_query_id(), serialize, Err(e)),
                },
            },
    {
        match self.answer {
            QueryAnswer::Ready(answer) => {
                match Self::convert(answer, self.query_id, serialize) {
                    Ok(envelope) => Ok((None, envelope)),
                    Err(e) => Err(e),
                }
            },
            QueryAnswer::Pending(handle) => {
                Ok((Some(QueryAnswerFinalizer { answer: QueryAnswer::Pending(handle), query_id: self.query_id, envelope: PhantomData }), None))
            },
        }
    }

    /// The one conversion that every answer goes through: an object answer
    /// is serialized, a raw one is taken as it is, and the bytes are put in
    /// the envelope under the query's id.
    pub fn convert<F: Fn(&TlObject) -> Result<Vec<u8>, AdnlError>>(
        answer: Option<Answer>,
        query_id: QueryId,
        serialize: F,
    ) -> (converted: Result<Option<A>, AdnlError>)
        requires
            forall|object: &TlObject| call_requires(serialize, (object,)),
        ensures
            convert_post(answer, query_id, serialize, converted),
    {
        if let Some(answer) = answer {
            let answer = match answer {
                Answer::Object(x) => {
                    match serialize(&x.object) {
                        Ok(bytes) => TaggedObject { object: bytes },
                        Err(e) => {
                            return Err(e);
                        },
                    }
                },
                Answer::Raw(x) => x,
            };
            Ok(Some(A::wrap(answer, query_id)))
        } else {
            Ok(None)
        }
    }
}

/// Calculate hash of TL object, non-boxed option
pub fn hash<F: Fn(&TlObject) -> Result<Vec<u8>, AdnlError>>(object: TlObject, serialize: F) -> (digest: Result<
    [u8; 32],
    AdnlError,
>)
    requires
        call_requires(serialize, (&object,)),
    ensures
        match digest {
            Ok(d) => exists|data: Vec<u8>| #[trigger] call_ensures(serialize, (&object,), Ok(data)) && d == sha256(data@),
            Err(e) => call_ensures(serialize, (&object,), Err(e)),
        },
{
    hash_boxed(&object, serialize)
}

/// Calculate hash of TL object, boxed option
pub fn hash_boxed<F: Fn(&TlObject) -> Result<Vec<u8>, AdnlError>>(object: &TlObject, serialize: F) -> (digest: Result<
    [u8; 32],
    AdnlError,
>)
    requires
        call_requires(serialize, (object,)),
    ensures
        match digest {
            Ok(d) => exists|data: Vec<u8>| #[trigger] call_ensures(serialize, (object,), Ok(data)) && d == sha256(data@),
            Err(e) => call_ensures(serialize, (object,), Err(e)),
        },
{
    match serialize(object) {
        Ok(data) => Ok(sha256_digest(data.as_slice())),
        Err(e) => Err(e),
    }
}

} // verus!

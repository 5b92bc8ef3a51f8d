//! The typed objects that the dispatch layer looks into, and the envelopes
//! it fills.  Everything else about a typed object stays with whoever
//! decoded it.

use vstd::prelude::*;

verus! {

/// ADNL query ID
pub type QueryId = [u8; 32];

/// Tagged objects
pub struct TaggedObject<T> {
    pub object: T,
}

pub type TaggedAdnlMessage = TaggedObject<AdnlMessage>;

pub type TaggedByteSlice<'a> = TaggedObject<&'a [u8]>;

pub type TaggedByteVec = TaggedObject<Vec<u8>>;

pub type TaggedTlObject = TaggedObject<TlObject>;

pub type TaggedRldpAnswer = TaggedObject<RldpAnswer>;

/// A query envelope: the correlation id and the serialized request.
pub struct AdnlQueryMessage {
    pub query_id: QueryId,
    pub query: Vec<u8>,
}

/// An answer envelope: the id of the query it answers and the serialized
/// reply.
pub struct AdnlAnswerMessage {
    pub query_id: QueryId,
    pub answer: Vec<u8>,
}

/// An out-of-band message.
pub struct AdnlCustomMessage {
    pub data: Vec<u8>,
}

/// A message on an established connection.
pub enum AdnlMessage {
    Query(AdnlQueryMessage),
    Answer(AdnlAnswerMessage),
    Custom(AdnlCustomMessage),
    /// Any other message, by its constructor number.
    Other { constructor: u32 },
}

impl AdnlMessage {
    /// The serialized request of a query message.
    pub open spec fn spec_query(&self) -> Option<Seq<u8>> {
        match self {
            AdnlMessage::Query(q) => Some(q.query@),
            _ => None,
        }
    }

    /// The serialized request, where the message is a query.
    pub fn query(&self) -> (bytes: Option<&Vec<u8>>)
        ensures
            match bytes {
                Some(b) => self.spec_query() == Some(b@),
                None => self.spec_query() is None,
            },
    {
        match self {
            AdnlMessage::Query(q) => Some(&q.query),
            _ => None,
        }
    }
}

/// A query of the second sub-protocol.
pub struct RldpQuery {
    pub query_id: QueryId,
    pub max_answer_size: i64,
    pub timeout: i32,
    pub data: Vec<u8>,
}

/// An answer of the second sub-protocol.
pub struct RldpAnswer {
    pub query_id: QueryId,
    pub data: Vec<u8>,
}

/// A decoded typed object.
pub enum TlObject {
    AdnlPing { value: i64 },
    AdnlPong { value: i64 },
    AdnlMessage(AdnlMessage),
    /// Any other object: its constructor number and the serialized fields.
    Other { constructor: u32, data: Vec<u8> },
}

/// An envelope that can carry a serialized answer back to the sender of the
/// query with the given id.
pub trait AnswerEnvelope: Sized {
    /// The envelope around `data` for the query `query_id`.
    spec fn spec_wrap(data: TaggedByteVec, query_id: QueryId) -> Self;

    /// Puts `data` in the envelope for the query `query_id`.
    fn wrap(data: TaggedByteVec, query_id: QueryId) -> (envelope: Self)
        ensures
            envelope == Self::spec_wrap(data, query_id),
    ;
}

impl AnswerEnvelope for TaggedObject<AdnlMessage> {
    open spec fn spec_wrap(data: TaggedByteVec, query_id: QueryId) -> Self {
        TaggedObject { object: AdnlMessage::Answer(AdnlAnswerMessage { query_id, answer: data.object }) }
    }

    fn wrap(data: TaggedByteVec, query_id: QueryId) -> (envelope: Self) {
        TaggedObject { object: AdnlMessage::Answer(AdnlAnswerMessage { query_id, answer: data.object }) }
    }
}

impl AnswerEnvelope for TaggedObject<RldpAnswer> {
    open spec fn spec_wrap(data: TaggedByteVec, query_id: QueryId) -> Self {
        TaggedObject { object: RldpAnswer { query_id, data: data.object } }
    }

    fn wrap(data: TaggedByteVec, query_id: QueryId) -> (envelope: Self) {
        TaggedObject { object: RldpAnswer { query_id, data: data.object } }
    }
}

} // verus!

//! The messages the broker exchanges with its clients: the requests it
//! takes, the responses it gives, and the framing of a message on the wire
//! (its length as two little-endian bytes, then its bytes).
use vstd::prelude::*;
use crate::topic::SimpleTopic;
use crate::topic_capnp::NotInSchema;
use crate::topic_capnp::topic_request::{self, spec_text};
use crate::topic_capnp::topic_response::{self, FieldsView};
use crate::text::to_owned_string;
use crate::types::Command;

verus! {

/// A message framed for the wire: its length as two little-endian bytes,
/// then its bytes.
pub open spec fn spec_frame(data: Seq<u8>) -> Seq<u8> {
    seq![(data.len() % 256) as u8, (data.len() / 256) as u8] + data
}

/// The length that the two bytes at the start of a frame give.
pub open spec fn spec_frame_size(prefix: Seq<u8>) -> int {
    prefix[0] + 256 * prefix[1]
}

/// Prepends the length of `original_message` to it. The length must fit
/// in two bytes.
pub fn create_message_frame(original_message: Vec<u8>) -> (framed: Vec<u8>)
    requires
        original_message@.len() <= u16::MAX,
    ensures
        framed@ == spec_frame(original_message@),
{
    let size: usize = original_message.len();
    let mut framed: Vec<u8> = Vec::new();
    framed.push((size % 256) as u8);
    framed.push((size / 256) as u8);
    crate::bytes_util::extend_bytes(&mut framed, original_message.as_slice());
    assert(framed@ =~= spec_frame(original_message@));
    framed
}

/// The length of the message that a frame starting with `prefix` holds.
pub fn read_frame_size(prefix: &[u8]) -> (size: u16)
    requires
        prefix@.len() >= 2,
    ensures
        size == spec_frame_size(prefix@),
{
    prefix[0] as u16 + 256 * (prefix[1] as u16)
}

/// Law: the size read from the start of a frame is the length of the
/// message framed, and the message follows it.
pub proof fn lemma_frame_roundtrip(data: Seq<u8>)
    requires
        data.len() <= u16::MAX,
    ensures
        spec_frame(data).len() == data.len() + 2,
        spec_frame_size(spec_frame(data)) == data.len(),
        spec_frame(data).subrange(2, spec_frame(data).len() as int) == data,
{
    let f = spec_frame(data);
    assert(f.subrange(2, f.len() as int) =~= data);
}

/// A request to produce messages to a topic; each message is given as the
/// bytes to store.
#[derive(Debug, PartialEq, Eq)]
pub struct ProduceRequest {
    pub topic_name: String,
    pub messages: Vec<Vec<u8>>,
}

/// A request to consume the messages of a topic for a consumer group.
#[derive(Debug, PartialEq, Eq)]
pub struct ConsumeRequest {
    pub topic_name: String,
    pub consumer_group: String,
    pub timout: u64,
}

/// The answer to a produce request.
#[derive(Debug, PartialEq, Eq)]
pub struct ProduceResponse {
    pub topic_name: String,
    pub offset: u64,
    pub success: bool,
}

/// The answer to a consume request: the stored bytes of the messages read.
#[derive(Debug, PartialEq, Eq)]
pub struct ConsumeResponse {
    pub topic_name: String,
    pub success: bool,
    pub messages: Vec<Vec<u8>>,
}

/// The answer to a request for all topics.
#[derive(Debug, PartialEq, Eq)]
pub struct TopicAllResponse {
    pub success: bool,
    pub topics: Vec<SimpleTopic>,
}

/// The answer to a request that could not be understood.
#[derive(Debug, PartialEq, Eq)]
pub struct InvalidResponse {
    pub message: String,
}

/// A response of the broker.
#[derive(Debug)]
pub enum Response {
    Topic(topic_response::Builder),
    TopicAll(TopicAllResponse),
    Produce(ProduceResponse),
    Consume(ConsumeResponse),
    Invalid(InvalidResponse),
}

/// What a topic request of the broker's schema asks for: the three kinds a
/// client builds, and a listing of all topics.
#[derive(Debug, Clone, Copy, PartialEq, Eq)]
pub enum TopicRequestWhich {
    Describe(()),
    Create(()),
    Delete(()),
    All(()),
}

/// The union of a topic request of the broker's schema named by a
/// discriminant.
pub open spec fn spec_topic_request_which(discriminant: u16) -> Result<TopicRequestWhich, NotInSchema> {
    if discriminant == 0 {
        Ok(TopicRequestWhich::Describe(()))
    } else if discriminant == 1 {
        Ok(TopicRequestWhich::Create(()))
    } else if discriminant == 2 {
        Ok(TopicRequestWhich::Delete(()))
    } else if discriminant == 3 {
        Ok(TopicRequestWhich::All(()))
    } else {
        Err(NotInSchema(discriminant))
    }
}

/// A topic request as the broker receives it: the topic's name and the
/// union discriminant of the broker's schema, which adds to the client's
/// three kinds a request for all topics.
#[derive(Debug, Clone, PartialEq, Eq)]
pub struct TopicRequest {
    pub topic_name: Option<String>,
    pub discriminant: u16,
}

impl TopicRequest {
    /// The request a client built, as the broker's schema reads it: the
    /// same name and the same discriminant.
    pub fn from_client(request: topic_request::Reader) -> (r: TopicRequest)
        ensures
            r.topic_name == request.fields.topic_name,
            r.discriminant == request.fields.discriminant,
    {
        TopicRequest { topic_name: request.fields.topic_name, discriminant: request.fields.discriminant }
    }

    /// A request for all topics, naming none.
    pub fn all() -> (r: TopicRequest)
        ensures
            r.topic_name is None,
            r.discriminant == 3,
    {
        TopicRequest { topic_name: None, discriminant: 3 }
    }

    /// The name of the topic; empty when it was never set.
    pub fn get_topic_name(&self) -> (s: String)
        ensures
            s@ == spec_text(self.topic_name),
    {
        match &self.topic_name {
            Some(s) => s.clone(),
            None => String::new(),
        }
    }

    /// What the request asks for.
    pub fn which(&self) -> (r: Result<TopicRequestWhich, NotInSchema>)
        ensures
            r == spec_topic_request_which(self.discriminant),
    {
        match self.discriminant {
            0 => Ok(TopicRequestWhich::Describe(())),
            1 => Ok(TopicRequestWhich::Create(())),
            2 => Ok(TopicRequestWhich::Delete(())),
            3 => Ok(TopicRequestWhich::All(())),
            x => Err(NotInSchema(x)),
        }
    }
}

/// A message of the protocol: one of the requests or one of the responses.
#[derive(Debug)]
pub enum Envelope {
    TopicRequest(TopicRequest),
    ProduceRequest(ProduceRequest),
    ConsumeRequest(ConsumeRequest),
    TopicResponse(topic_response::Reader),
    ProduceResponse(ProduceResponse),
    ConsumeResponse(ConsumeResponse),
}

/// The fields of a topic response naming `topic_name`, with the given
/// outcome and variant and nothing else set.
pub open spec fn spec_topic_answer(topic_name: Seq<char>, success: bool, discriminant: u16) -> FieldsView {
    FieldsView {
        topic_name: Some(topic_name),
        success,
        discriminant,
        max_segment_bytes: 0,
        max_retention_bytes: 0,
        consumer_groups: None,
    }
}

/// The answer to a request creating the topic `topic_name`.
pub fn new_topic_response_create(topic_name: &str, is_success: bool) -> (r: topic_response::Builder)
    ensures
        r.fields@ == spec_topic_answer(topic_name@, is_success, 1),
{
    let mut topic_response = topic_response::Builder::new();
    topic_response.set_topic_name(topic_name);
    topic_response.set_success(is_success);
    topic_response.set_create(());
    topic_response
}

/// The answer to a request deleting the topic `topic_name`.
pub fn new_topic_response_delete(topic_name: &str, is_success: bool) -> (r: topic_response::Builder)
    ensures
        r.fields@ == spec_topic_answer(topic_name@, is_success, 2),
{
    let mut topic_response = topic_response::Builder::new();
    topic_response.set_topic_name(topic_name);
    topic_response.set_success(is_success);
    topic_response.set_delete(());
    topic_response
}

/// The answer to a request describing the topic `topic_name`: its limits,
/// and its consumer groups when the request succeeded and it has some (an
/// empty list otherwise).
pub fn new_topic_response_describe(
    topic_name: &str,
    is_success: bool,
    max_retention: u64,
    max_segment: u64,
    consumer_groups: Vec<String>,
) -> (r: topic_response::Builder)
    requires
        consumer_groups@.len() <= u32::MAX,
    ensures
        r.fields@ == (FieldsView {
            topic_name: Some(topic_name@),
            success: is_success,
            discriminant: 0,
            max_segment_bytes: max_segment,
            max_retention_bytes: max_retention,
            consumer_groups: Some(
                if is_success && consumer_groups@.len() > 0 {
                    consumer_groups@.map_values(|s: String| s@)
                } else {
                    Seq::empty()
                },
            ),
        }),
{
    let mut topic_response = topic_response::Builder::new();
    topic_response.set_topic_name(topic_name);
    topic_response.set_success(is_success);
    let mut describe = topic_response.init_describe();
    describe.set_max_retention_bytes(max_retention);
    describe.set_max_segment_bytes(max_segment);
    if is_success && consumer_groups.len() > 0 {
        describe.set_consumer_groups(&consumer_groups);
    } else {
        describe.init_consumer_groups(0);
        proof {
            let v = describe.fields.consumer_groups->0;
            assert(v@.map_values(|s: String| s@) =~= Seq::<Seq<char>>::empty());
        }
    }
    topic_response::Builder { fields: describe.fields }
}

/// The answer to a request for all topics.
pub fn new_topic_response_all(is_success: bool, topics: Vec<SimpleTopic>) -> (r: TopicAllResponse)
    ensures
        r.success == is_success,
        r.topics == topics,
{
    TopicAllResponse { success: is_success, topics }
}

/// The answer to a produce request: the offset of the last message
/// produced.
pub fn new_produce_response(topic_name: &str, last_offset: u64, is_success: bool) -> (r:
    ProduceResponse)
    ensures
        r.topic_name@ == topic_name@,
        r.offset == last_offset,
        r.success == is_success,
{
    ProduceResponse { topic_name: to_owned_string(topic_name), offset: last_offset, success: is_success }
}

/// The answer to a consume request: successful, with the messages, when
/// the request succeeded and messages were read; unsuccessful and empty
/// otherwise.
pub fn new_consume_response(topic_name: &str, is_success: bool, message_data: Vec<Vec<u8>>) -> (r:
    ConsumeResponse)
    requires
        message_data@.len() <= u32::MAX,
    ensures
        r.topic_name@ == topic_name@,
        r.success == (is_success && message_data@.len() > 0),
        r.messages@ == if is_success && message_data@.len() > 0 {
            message_data@
        } else {
            Seq::empty()
        },
{
    if is_success && message_data.len() > 0 {
        ConsumeResponse { topic_name: to_owned_string(topic_name), success: true, messages: message_data }
    } else {
        ConsumeResponse { topic_name: to_owned_string(topic_name), success: false, messages: Vec::new() }
    }
}

/// The answer to a request that could not be understood.
pub fn new_invalid_response(message_text: &str) -> (r: InvalidResponse)
    ensures
        r.message@ == message_text@,
{
    InvalidResponse { message: to_owned_string(message_text) }
}

/// The text that marks a command that is no request.
pub open spec fn spec_not_a_request() -> Seq<char> {
    "id1"@
}

/// The command that a protocol message received on connection `conn_id`
/// carries: a request becomes the command to handle it, and anything else
/// (a response, or a message of a kind outside the schema) an invalid
/// command.
pub fn parse_request(conn_id: String, envelope: Result<Envelope, NotInSchema>) -> (c: Command)
    ensures
        match envelope {
            Ok(Envelope::TopicRequest(r)) => c == (Command::TopicRequest { conn_id, capmessage: r }),
            Ok(Envelope::ProduceRequest(r)) => c == (Command::ProduceRequest { conn_id, capmessage: r }),
            Ok(Envelope::ConsumeRequest(r)) => c == (Command::ConsumeRequest { conn_id, capmessage: r }),
            _ => c matches Command::Invalid { conn_id: id, error_message: m, .. } && id == conn_id && m@
                == spec_not_a_request(),
        },
{
    match envelope {
        Ok(Envelope::TopicRequest(r)) => Command::TopicRequest { conn_id, capmessage: r },
        Ok(Envelope::ProduceRequest(r)) => Command::ProduceRequest { conn_id, capmessage: r },
        Ok(Envelope::ConsumeRequest(r)) => Command::ConsumeRequest { conn_id, capmessage: r },
        _ => Command::Invalid {
            conn_id,
            error_message: to_owned_string("id1"),
            capmessage_data: Response::Invalid(new_invalid_response("id1")),
        },
    }
}

} // verus!

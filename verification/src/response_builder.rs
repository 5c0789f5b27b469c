//! Fixed responses, used to try a client against the broker's protocol.
use vstd::prelude::*;
use crate::cap_n_proto_helper::{ConsumeResponse, ProduceResponse, spec_topic_answer};
use crate::codec::spec_message_bytes;
use crate::message::Message;
use crate::text::to_owned_string;
use crate::topic_capnp::topic_response;

verus! {

/// A successful answer to the creation of the topic "topic1".
pub fn new_topic_response() -> (r: topic_response::Builder)
    ensures
        r.fields@ == spec_topic_answer("topic1"@, true, 1),
{
    let mut topic_response = topic_response::Builder::new();
    topic_response.set_topic_name("topic1");
    topic_response.set_success(true);
    topic_response.set_create(());
    topic_response
}

/// An answer to a produce request on "topic1" at offset 0, its outcome
/// left unset.
pub fn new_produce_response() -> (r: ProduceResponse)
    ensures
        r.topic_name@ == "topic1"@,
        r.offset == 0,
        !r.success,
{
    ProduceResponse { topic_name: to_owned_string("topic1"), offset: 0, success: false }
}

/// A successful answer to a consume request with one message: the key
/// "key", the value "value" and the timestamp 1; the topic name left unset.
pub fn new_consume_response() -> (r: ConsumeResponse)
    ensures
        r.topic_name@ == Seq::<char>::empty(),
        r.success,
        r.messages@.len() == 1,
        r.messages@[0]@ == spec_message_bytes(
            "key"@.map_values(|c: char| c as u8),
            "value"@.map_values(|c: char| c as u8),
            1,
        ),
{
    let key: Vec<u8> = vec![107u8, 101u8, 121u8];
    let value: Vec<u8> = vec![118u8, 97u8, 108u8, 117u8, 101u8];
    proof {
        reveal_strlit("key");
        reveal_strlit("value");
        assert(key@ =~= "key"@.map_values(|c: char| c as u8));
        assert(value@ =~= "value"@.map_values(|c: char| c as u8));
    }
    let mut message = Message::new(key.as_slice(), value.as_slice(), 1);
    let mut messages: Vec<Vec<u8>> = Vec::new();
    messages.push(message.serialize_message());
    ConsumeResponse { topic_name: String::new(), success: true, messages }
}

} // verus!

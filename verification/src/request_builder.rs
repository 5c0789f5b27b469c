//! The requests a client sends to the broker.
use vstd::prelude::*;
use crate::cap_n_proto_helper::{ConsumeRequest, ProduceRequest};
use crate::codec::spec_message_bytes;
use crate::message::Message;
use crate::text::{str_equal, to_owned_string};
use crate::topic_capnp::topic_request::{self, Which, spec_which};

verus! {

/// The kinds of topic requests, by the name a client gives them.
pub open spec fn spec_topic_request_kind(kind: Seq<char>) -> Option<u16> {
    if kind == "describe"@ {
        Some(0u16)
    } else if kind == "create"@ {
        Some(1u16)
    } else if kind == "delete"@ {
        Some(2u16)
    } else {
        None
    }
}

/// A request on the topic `topic_name` of the kind named by
/// `topic_request_type`: "create", "describe" or "delete".
pub fn new_topic_request(topic_name: &str, topic_request_type: &str) -> (r: topic_request::Builder)
    requires
        spec_topic_request_kind(topic_request_type@) is Some,
    ensures
        r.fields.topic_name matches Some(s) && s@ == topic_name@,
        Some(r.fields.discriminant) == spec_topic_request_kind(topic_request_type@),
        topic_request_type@ == "create"@ ==> spec_which(r.fields.discriminant) == Ok::<Which, crate::topic_capnp::NotInSchema>(Which::Create(())),
        topic_request_type@ == "describe"@ ==> spec_which(r.fields.discriminant) == Ok::<Which, crate::topic_capnp::NotInSchema>(Which::Describe(())),
        topic_request_type@ == "delete"@ ==> spec_which(r.fields.discriminant) == Ok::<Which, crate::topic_capnp::NotInSchema>(Which::Delete(())),
{
    proof {
        lemma_request_kind_selects_variant(topic_request_type@);
        reveal_strlit("create");
        reveal_strlit("describe");
        reveal_strlit("delete");
        assert("create"@[0] != "describe"@[0]);
        assert("delete"@[2] != "describe"@[2]);
        assert("delete"@[0] != "create"@[0]);
    }
    if str_equal(topic_request_type, "create") {
        new_topic_request_create(topic_name)
    } else if str_equal(topic_request_type, "describe") {
        new_topic_request_describe(topic_name)
    } else {
        new_topic_request_delete(topic_name)
    }
}

/// A request creating the topic `topic_name`.
fn new_topic_request_create(topic_name: &str) -> (r: topic_request::Builder)
    ensures
        r.fields.topic_name matches Some(s) && s@ == topic_name@,
        r.fields.discriminant == 1,
{
    let mut topic_request = topic_request::Builder::new();
    topic_request.set_topic_name(topic_name);
    topic_request.set_create(());
    topic_request
}

/// A request describing the topic `topic_name`.
fn new_topic_request_describe(topic_name: &str) -> (r: topic_request::Builder)
    ensures
        r.fields.topic_name matches Some(s) && s@ == topic_name@,
        r.fields.discriminant == 0,
{
    let mut topic_request = topic_request::Builder::new();
    topic_request.set_topic_name(topic_name);
    topic_request.set_describe(());
    topic_request
}

/// A request deleting the topic `topic_name`.
fn new_topic_request_delete(topic_name: &str) -> (r: topic_request::Builder)
    ensures
        r.fields.topic_name matches Some(s) && s@ == topic_name@,
        r.fields.discriminant == 2,
{
    let mut topic_request = topic_request::Builder::new();
    topic_request.set_topic_name(topic_name);
    topic_request.set_delete(());
    topic_request
}

/// A request consuming the topic `topic_name` for `consumer_group`, with a
/// timeout of one millisecond.
pub fn new_consume_message(topic_name: &str, consumer_group: &str) -> (r: ConsumeRequest)
    ensures
        r.topic_name@ == topic_name@,
        r.consumer_group@ == consumer_group@,
        r.timout == 1,
{
    ConsumeRequest {
        topic_name: to_owned_string(topic_name),
        consumer_group: to_owned_string(consumer_group),
        timout: 1,
    }
}

/// A request producing one message to the topic `topic_name`: the key
/// "key", the value `value` and the timestamp 1, stored as the commit log
/// stores messages.
pub fn new_produce_request(topic_name: &str, value: &[u8]) -> (r: ProduceRequest)
    ensures
        r.topic_name@ == topic_name@,
        r.messages@.len() == 1,
        r.messages@[0]@ == spec_message_bytes("key"@.map_values(|c: char| c as u8), value@, 1),
{
    let key: Vec<u8> = vec![107u8, 101u8, 121u8];
    proof {
        reveal_strlit("key");
        assert(key@ =~= "key"@.map_values(|c: char| c as u8));
    }
    let mut message = Message::new(key.as_slice(), value, 1);
    let bytes = message.serialize_message();
    let mut messages: Vec<Vec<u8>> = Vec::new();
    messages.push(bytes);
    ProduceRequest { topic_name: to_owned_string(topic_name), messages }
}


/// Law: the kind a client names selects the variant of the request schema
/// of that name ("create" the Create variant, "describe" the Describe one,
/// "delete" the Delete one), and only these three names are kinds.
pub proof fn lemma_request_kind_selects_variant(kind: Seq<char>)
    ensures
        spec_topic_request_kind(kind) is Some <==> (kind == "create"@ || kind == "describe"@ || kind
            == "delete"@),
        kind == "create"@ ==> (spec_topic_request_kind(kind) matches Some(d) && spec_which(d) == Ok::<
            Which,
            crate::topic_capnp::NotInSchema,
        >(Which::Create(()))),
        kind == "describe"@ ==> (spec_topic_request_kind(kind) matches Some(d) && spec_which(d) == Ok::<
            Which,
            crate::topic_capnp::NotInSchema,
        >(Which::Describe(()))),
        kind == "delete"@ ==> (spec_topic_request_kind(kind) matches Some(d) && spec_which(d) == Ok::<
            Which,
            crate::topic_capnp::NotInSchema,
        >(Which::Delete(()))),
{
    reveal_strlit("create");
    reveal_strlit("describe");
    reveal_strlit("delete");
    assert("create"@[0] != "describe"@[0]);
    assert("delete"@[2] != "describe"@[2]);
    assert("delete"@[0] != "create"@[0]);
}

} // verus!

use lucidmq::cap_n_proto_helper::{TopicRequest, TopicRequestWhich};
use lucidmq::request_builder::{new_consume_message, new_topic_request};
use lucidmq::server::{parse_mesage, Command, Payload};
use lucidmq::topic_capnp::topic_request::Which;

#[test]
fn text_commands_are_parsed() {
    assert_eq!(
        parse_mesage("produce\n", String::from("c")),
        Command::Produce(Payload {
            conn_id: String::from("c"),
            message: String::from("produce"),
            data: b"data".to_vec()
        })
    );
    match parse_mesage("topic\n", String::from("c")) {
        Command::Topic(p) => assert_eq!(p.message, "consume"),
        other => panic!("unexpected {:?}", other),
    }
    assert_eq!(
        parse_mesage("produce", String::from("c")),
        Command::Invalid { message: String::from("invalid") }
    );
}

#[test]
fn topic_requests_name_their_kind() {
    let r = new_topic_request("t", "describe").into_reader();
    assert_eq!(r.reborrow().which(), Ok(Which::Describe(())));
    assert_eq!(r.get_topic_name(), "t");
    let c = new_consume_message("t", "g");
    assert_eq!(c.timout, 1);
}

#[test]
fn client_topic_requests_know_three_kinds() {
    let mut b = lucidmq::topic_capnp::topic_request::Builder::new();
    b.set_delete(());
    assert_eq!(b.clone().into_reader().which(), Ok(Which::Delete(())));
    let mut r = b.into_reader();
    r.fields.discriminant = 3;
    assert_eq!(r.which(), Err(lucidmq::topic_capnp::NotInSchema(3)));
}

#[test]
fn broker_topic_requests_add_a_request_for_all_topics() {
    let r = TopicRequest::from_client(new_topic_request("t", "create").into_reader());
    assert_eq!(r.which(), Ok(TopicRequestWhich::Create(())));
    assert_eq!(r.get_topic_name(), "t");
    assert_eq!(TopicRequest::all().which(), Ok(TopicRequestWhich::All(())));
    let mut r = r;
    r.discriminant = 4;
    assert_eq!(r.which(), Err(lucidmq::topic_capnp::NotInSchema(4)));
}

use lucidmq::cap_n_proto_helper::{
    new_topic_response_create, new_topic_response_describe, ConsumeResponse, Envelope, ProduceResponse,
};
use lucidmq::message::Message;
use lucidmq::response_text::{bytes_text, i64_text, list_text, parse_response, u64_text};
use lucidmq::topic_capnp::NotInSchema;

#[test]
fn numbers_are_written_in_decimal() {
    assert_eq!(u64_text(0), "0");
    assert_eq!(u64_text(1234567890), "1234567890");
    assert_eq!(u64_text(u64::MAX), u64::MAX.to_string());
    assert_eq!(i64_text(-42), "-42");
    assert_eq!(i64_text(i64::MIN), i64::MIN.to_string());
}

#[test]
fn bytes_are_written_as_debug_lists() {
    assert_eq!(bytes_text(&[1, 20, 255]), format!("{:?}", vec![1u8, 20, 255]));
    assert_eq!(bytes_text(&[]), "[]");
    assert_eq!(list_text(&vec![String::from("a"), String::from("b")]), "[a, b]");
}

#[test]
fn create_response_text() {
    let r = new_topic_response_create("orders", true).into_reader();
    assert_eq!(
        parse_response(Ok(Envelope::TopicResponse(r))),
        "Topic Create Response ------------\nTopic Name: orders\nStatus: true\n"
    );
}

#[test]
fn describe_response_text_quotes_consumer_groups() {
    let groups = vec![String::from("g1"), String::from("say \"hi\"")];
    let r = new_topic_response_describe("t", true, 10, 20, groups.clone()).into_reader();
    let want = format!(
        "Topic Describe Response ------------\nTopic Name: t\nStatus: true\nTopic max retention bytes: {}, max segments bytes: {}, consumer groups: {:?}\n",
        10, 20, groups
    );
    assert_eq!(parse_response(Ok(Envelope::TopicResponse(r))), want);
}

#[test]
fn produce_response_text() {
    let p = ProduceResponse { topic_name: String::from("t"), offset: 7, success: false };
    assert_eq!(
        parse_response(Ok(Envelope::ProduceResponse(p))),
        "Produce Response ------------\nTopic Name: t\nStatus: false\nLast offset: 7\n"
    );
}

#[test]
fn consume_response_text_lists_messages() {
    let mut m = Message::new(b"k", b"v", 3);
    let c = ConsumeResponse {
        topic_name: String::from("t"),
        success: true,
        messages: vec![m.serialize_message()],
    };
    let line = format!("Key: {:?},Value: {:?}, Timestamp: {}", b"k".to_vec(), b"v".to_vec(), 3);
    let want = format!(
        "Consume Response ------------\nTopic Name: t\nStatus: true\nMessages: {:?}\n",
        vec![line]
    );
    assert_eq!(parse_response(Ok(Envelope::ConsumeResponse(c))), want);
}

#[test]
fn other_messages_are_not_responses() {
    assert_eq!(parse_response(Err(NotInSchema(9))), "Unable to parse cap n p message\n");
    let req = lucidmq::request_builder::new_topic_request("t", "delete").into_reader();
    let req = lucidmq::cap_n_proto_helper::TopicRequest::from_client(req);
    assert_eq!(parse_response(Ok(Envelope::TopicRequest(req))), "Invalid request type");
}

use lucidmq::broker::{consume_finished, Broker};
use lucidmq::cap_n_proto_helper::{
    create_message_frame, new_consume_response, new_produce_response, new_topic_response_create,
    new_topic_response_delete, new_topic_response_describe, parse_request, read_frame_size,
    ConsumeRequest, Envelope, ProduceRequest, ProduceResponse, Response, TopicRequest,
    TopicRequestWhich,
};
use lucidmq::message::Message;
use lucidmq::segment::Segment;
use lucidmq::topic_capnp::topic_response::Which;
use lucidmq::topic_capnp::NotInSchema;
use lucidmq::types::Command;

fn topic_request_for(name: &str, kind: &str) -> TopicRequest {
    TopicRequest::from_client(lucidmq::request_builder::new_topic_request(name, kind).into_reader())
}

fn topic_answer(r: Response) -> lucidmq::topic_capnp::topic_response::Builder {
    match r {
        Response::Topic(b) => b,
        other => panic!("not a topic response: {:?}", other),
    }
}

#[test]
fn broker_creates_topics_once() {
    let mut broker = Broker::new(String::from("base"));
    let r = topic_answer(broker.handle_create_topic("orders").unwrap());
    assert!(r.fields.success);
    assert_eq!(r.fields.topic_name, Some(String::from("orders")));
    assert_eq!(r.fields.discriminant, 1);
    assert_eq!(broker.topics.len(), 1);
    let dir = broker.topics[0].directory.clone();
    assert!(dir.starts_with("base/"));
    assert_eq!(dir.len(), "base/".len() + 5);
    assert!(dir["base/".len()..].chars().all(|c| c.is_ascii_alphanumeric()));
    let again = topic_answer(broker.handle_create_topic("orders").unwrap());
    assert!(!again.fields.success);
    assert_eq!(broker.topics.len(), 1);
    assert_eq!(broker.check_topics("orders"), Some(0));
    assert_eq!(broker.check_topics("other"), None);
}

#[test]
fn broker_describes_topics() {
    let mut broker = Broker::new(String::from("base"));
    broker.handle_create_topic("t").unwrap();
    broker
        .handle_consumer(ConsumeRequest {
            topic_name: String::from("t"),
            consumer_group: String::from("g1"),
            timout: 1,
        })
        .unwrap();
    let d = topic_answer(broker.handle_describe_topic("t").unwrap());
    assert!(d.fields.success);
    assert_eq!(d.fields.max_segment_bytes, 100000);
    assert_eq!(d.fields.max_retention_bytes, 1000000);
    assert_eq!(d.fields.consumer_groups, Some(vec![String::from("g1")]));
    let missing = topic_answer(broker.handle_describe_topic("nope").unwrap());
    assert!(!missing.fields.success);
    assert_eq!(missing.fields.consumer_groups, Some(Vec::new()));
}

#[test]
fn broker_deletes_topics() {
    let mut broker = Broker::new(String::from("base"));
    broker.handle_create_topic("a").unwrap();
    broker.handle_create_topic("b").unwrap();
    let r = topic_answer(broker.handle_delete_topic("a").unwrap());
    assert!(r.fields.success);
    assert_eq!(r.fields.discriminant, 2);
    assert_eq!(broker.topics.len(), 1);
    assert_eq!(broker.topics[0].name, "b");
    let r = topic_answer(broker.handle_delete_topic("a").unwrap());
    assert!(!r.fields.success);
}

#[test]
fn broker_lists_all_topics() {
    let mut broker = Broker::new(String::from("base"));
    assert!(broker.handle_all_topic().is_err());
    broker.handle_create_topic("a").unwrap();
    match broker.handle_all_topic().unwrap() {
        Response::TopicAll(all) => {
            assert!(all.success);
            assert_eq!(all.topics.len(), 1);
            assert_eq!(all.topics[0].topic_name, "a");
        }
        other => panic!("unexpected {:?}", other),
    }
}

#[test]
fn broker_produces_then_consumes() {
    let mut broker = Broker::new(String::from("base"));
    broker.handle_create_topic("t").unwrap();
    let mut m1 = Message::new(b"k1", b"v1", 1);
    let mut m2 = Message::new(b"k2", b"v2", 2);
    let stored = vec![m1.serialize_message(), m2.serialize_message()];
    let produced = broker
        .handle_producer(ProduceRequest {
            topic_name: String::from("t"),
            messages: stored.clone(),
        })
        .unwrap();
    match produced {
        Response::Produce(p) => {
            assert_eq!(p, ProduceResponse { topic_name: String::from("t"), offset: 1, success: true })
        }
        other => panic!("unexpected {:?}", other),
    }
    let consumed = broker
        .handle_consumer(ConsumeRequest {
            topic_name: String::from("t"),
            consumer_group: String::from("g"),
            timout: 1,
        })
        .unwrap();
    match consumed {
        Response::Consume(c) => {
            assert!(c.success);
            assert_eq!(c.messages, stored);
        }
        other => panic!("unexpected {:?}", other),
    }
    // the group moved past what it read: nothing is left
    let again = broker
        .handle_consumer(ConsumeRequest {
            topic_name: String::from("t"),
            consumer_group: String::from("g"),
            timout: 1,
        })
        .unwrap();
    match again {
        Response::Consume(c) => {
            assert!(!c.success);
            assert!(c.messages.is_empty());
        }
        other => panic!("unexpected {:?}", other),
    }
}

#[test]
fn broker_answers_unknown_topics() {
    let mut broker = Broker::new(String::from("base"));
    match broker
        .handle_producer(ProduceRequest { topic_name: String::from("x"), messages: vec![b"a".to_vec()] })
        .unwrap()
    {
        Response::Produce(p) => assert!(!p.success && p.offset == 0),
        other => panic!("unexpected {:?}", other),
    }
    match broker
        .handle_consumer(ConsumeRequest {
            topic_name: String::from("x"),
            consumer_group: String::from("g"),
            timout: 1,
        })
        .unwrap()
    {
        Response::Consume(c) => assert!(!c.success),
        other => panic!("unexpected {:?}", other),
    }
}

#[test]
fn broker_reports_unknown_topic_request_kind() {
    let mut broker = Broker::new(String::from("base"));
    let mut req = topic_request_for("t", "create");
    req.discriminant = 9;
    let e = broker.handle_topic(req).unwrap_err();
    assert_eq!(e.message(), "Unknown topic request type");
}

#[test]
fn broker_handles_commands() {
    let mut broker = Broker::new(String::from("base"));
    let cmd = Command::TopicRequest { conn_id: String::from("c1"), capmessage: topic_request_for("t", "create") };
    match broker.handle_command(cmd).unwrap() {
        Command::Response { conn_id, capmessagedata: Response::Topic(b) } => {
            assert_eq!(conn_id, "c1");
            assert!(b.fields.success);
        }
        other => panic!("unexpected {:?}", other),
    }
    let cmd = Command::Response {
        conn_id: String::from("c2"),
        capmessagedata: Response::Produce(new_produce_response("t", 0, true)),
    };
    match broker.handle_command(cmd).unwrap() {
        Command::Invalid { conn_id, error_message, capmessage_data: Response::Invalid(i) } => {
            assert_eq!(conn_id, "c2");
            assert_eq!(error_message, "Response message is invalid");
            assert_eq!(i.message, "Response message is invalid");
        }
        other => panic!("unexpected {:?}", other),
    }
}

#[test]
fn responses_are_built_as_documented() {
    let c = new_topic_response_create("t", true);
    assert_eq!(c.which(), Ok(Which::Create(())));
    let d = new_topic_response_delete("t", false);
    assert!(!d.fields.success);
    let described = new_topic_response_describe("t", false, 5, 6, vec![String::from("g")]);
    assert_eq!(described.fields.consumer_groups, Some(Vec::new()));
    assert_eq!(described.fields.max_retention_bytes, 5);
    assert_eq!(described.fields.max_segment_bytes, 6);
    let consumed = new_consume_response("t", true, Vec::new());
    assert!(!consumed.success);
}

#[test]
fn message_frames_carry_their_length() {
    let framed = create_message_frame(vec![7u8; 300]);
    assert_eq!(&framed[..2], &[44, 1]);
    assert_eq!(read_frame_size(&framed), 300);
    assert_eq!(&framed[2..], &vec![7u8; 300][..]);
}

#[test]
fn requests_become_commands() {
    let c = parse_request(String::from("id"), Ok(Envelope::ConsumeRequest(ConsumeRequest {
        topic_name: String::from("t"),
        consumer_group: String::from("g"),
        timout: 3,
    })));
    match c {
        Command::ConsumeRequest { conn_id, capmessage } => {
            assert_eq!(conn_id, "id");
            assert_eq!(capmessage.timout, 3);
        }
        other => panic!("unexpected {:?}", other),
    }
    match parse_request(String::from("id"), Err(NotInSchema(7))) {
        Command::Invalid { conn_id, error_message, .. } => {
            assert_eq!(conn_id, "id");
            assert_eq!(error_message, "id1");
        }
        other => panic!("unexpected {:?}", other),
    }
}

#[test]
fn broker_reports_a_full_commitlog() {
    let mut broker = Broker::new(String::from("base"));
    broker.handle_create_topic("t").unwrap();
    let messages: Vec<Vec<u8>> = (0..65535).map(|_| vec![1u8]).collect();
    let r = broker
        .handle_producer(ProduceRequest { topic_name: String::from("t"), messages })
        .unwrap();
    match r {
        Response::Produce(p) => assert_eq!(p.offset, 65534),
        other => panic!("unexpected {:?}", other),
    }
    let e = broker
        .handle_producer(ProduceRequest { topic_name: String::from("t"), messages: vec![vec![2u8]] })
        .unwrap_err();
    assert_eq!(e.message(), "Unable to produce message to commitlog");
}

#[test]
fn broker_reports_a_damaged_commitlog() {
    let mut broker = Broker::new(String::from("base"));
    broker.handle_create_topic("t").unwrap();
    // an index entry that points past the end of its log
    let index = vec![0u8, 0, 0, 0, 10, 0, 0, 0];
    let damaged = Segment::load_segment(String::from("d"), String::from("00000"), b"ab".to_vec(), &index)
        .expect("load");
    broker.topics[0].commitlog.add_segment(damaged);
    let e = broker
        .handle_consumer(ConsumeRequest {
            topic_name: String::from("t"),
            consumer_group: String::from("g"),
            timout: 1,
        })
        .unwrap_err();
    assert_eq!(e.message(), "Unable to poll consumers commitlog");
}

#[test]
fn broker_consumes_after_a_reload_of_a_grown_segment() {
    let mut broker = Broker::new(String::from("base"));
    broker.handle_create_topic("t").unwrap();
    broker
        .handle_producer(ProduceRequest { topic_name: String::from("t"), messages: vec![b"one".to_vec()] })
        .unwrap();
    // another process appended a second message to the same segment files
    let mut grown = Segment::new(String::from("x"), 100000, 0);
    grown.write(b"one").unwrap();
    grown.write(b"two").unwrap();
    broker.topics[0]
        .commitlog
        .reload_current_segment(grown.contents().to_vec(), &grown.index_bytes());
    match broker
        .handle_consumer(ConsumeRequest {
            topic_name: String::from("t"),
            consumer_group: String::from("g"),
            timout: 1,
        })
        .unwrap()
    {
        Response::Consume(c) => assert_eq!(c.messages, vec![b"one".to_vec(), b"two".to_vec()]),
        other => panic!("unexpected {:?}", other),
    }
}

#[test]
fn broker_answers_a_request_for_all_topics() {
    let mut broker = Broker::new(String::from("base"));
    broker.handle_create_topic("a").unwrap();
    let req = TopicRequest::all();
    assert_eq!(req.which(), Ok(TopicRequestWhich::All(())));
    match broker.handle_topic(req).unwrap() {
        Response::TopicAll(all) => {
            assert!(all.success);
            assert_eq!(all.topics[0].topic_name, "a");
        }
        other => panic!("unexpected {:?}", other),
    }
}

#[test]
fn consumer_stops_on_messages_or_timeout() {
    let with = |success: bool| Command::Response {
        conn_id: String::from("c"),
        capmessagedata: Response::Consume(new_consume_response("t", success, vec![b"m".to_vec()])),
    };
    assert!(consume_finished(&with(true), 0, 1000));
    assert!(!consume_finished(&with(false), 999, 1000));
    assert!(consume_finished(&with(false), 1000, 1000));
    let other = Command::Response {
        conn_id: String::from("c"),
        capmessagedata: Response::Produce(new_produce_response("t", 0, true)),
    };
    assert!(!consume_finished(&other, 10, 1000));
}

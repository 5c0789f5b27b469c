use lucidmq::consumer::{read_records, Consumer};
use lucidmq::commitlog::Commitlog;
use lucidmq::message::Message;
use lucidmq::producer::Producer;
use lucidmq::topic::ConsumerGroup;

#[test]
fn message_serialize_layout() {
    let mut m = Message::new(b"k", b"vv", 258);
    let bytes = m.serialize_message();
    let mut want = vec![1, 0, 0, 0, 0, 0, 0, 0, b'k'];
    want.extend_from_slice(&[2, 0, 0, 0, 0, 0, 0, 0, b'v', b'v']);
    want.extend_from_slice(&[2, 1, 0, 0, 0, 0, 0, 0]);
    assert_eq!(bytes, want);
}

#[test]
fn message_roundtrip() {
    let mut m = Message::new_with_timestamp(b"key", b"value", -5);
    let bytes = m.serialize_message();
    let back = Message::deserialize_message(&bytes);
    assert_eq!(back, m);
}

#[test]
fn message_try_deserialize_rejects_short_bytes() {
    assert_eq!(Message::try_deserialize_message(&[1, 2, 3]), None);
}

#[test]
fn producer_then_consumer_reads_messages() {
    let mut producer = Producer::new(String::from("t"), String::from("topic"), 1000, 100000);
    assert_eq!(producer.get_topic(), "topic");
    let o0 = producer.produce_message(Message::new(b"a", b"1", 1));
    let o1 = producer.produce_message(Message::new(b"b", b"2", 2));
    assert_eq!((o0, o1), (0, 1));
    let mut consumer = Consumer::new(producer.commitlog, String::from("topic"), ConsumerGroup::new("g"));
    assert_eq!(consumer.get_offset(), 0);
    let messages = consumer.poll();
    assert_eq!(messages, vec![Message::new(b"a", b"1", 1), Message::new(b"b", b"2", 2)]);
    assert_eq!(consumer.consumer_group.offset, 2);
    assert!(consumer.poll().is_empty());
}

#[test]
fn producer_bytes_and_poll_records() {
    let mut producer = Producer::new(String::from("t"), String::from("topic"), 1000, 100000);
    assert_eq!(producer.produce_bytes(b"raw"), 0);
    let mut consumer = Consumer::new(producer.commitlog, String::from("topic"), ConsumerGroup::new_cg("g", 0));
    assert_eq!(consumer.poll_records(), vec![b"raw".to_vec()]);
    assert_eq!(consumer.get_topic(), "topic");
}

#[test]
fn consumer_group_initialize_moves_to_oldest() {
    let mut cl = Commitlog::with_limits(String::from("d"), 10, 20);
    for _ in 0..8 {
        cl.append(&[1u8; 6]);
    }
    let oldest = cl.get_oldest_offset();
    let mut consumer = Consumer::new(cl, String::from("t"), ConsumerGroup::new("g"));
    assert!(consumer.consumer_group_initialize());
    assert_eq!(consumer.consumer_group.offset as usize, oldest);
    assert!(!consumer.consumer_group_initialize());
}

#[test]
fn update_consumer_group_offset_wraps() {
    let cl = {
        let mut cl = Commitlog::new(String::from("d"));
        cl.append(b"x");
        cl
    };
    let mut consumer = Consumer::new(cl, String::from("t"), ConsumerGroup::new_cg("g", u32::MAX));
    consumer.update_consumer_group_offset();
    assert_eq!(consumer.consumer_group.offset, 0);
    consumer.update_consumer_group_offset();
    assert_eq!(consumer.consumer_group.offset, 1);
}

#[test]
fn read_records_stops_at_the_end() {
    let mut cl = Commitlog::new(String::from("d"));
    cl.append(b"a");
    cl.append(b"b");
    let (records, next) = read_records(&mut cl, 1);
    assert_eq!(records, vec![b"b".to_vec()]);
    assert_eq!(next, 2);
    let (records, next) = read_records(&mut cl, 5);
    assert!(records.is_empty());
    assert_eq!(next, 5);
}

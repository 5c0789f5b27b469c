use lucidmq::lucidmq_errors::{ConsumerError, ProducerError, ProtocolError, ServerError, TopicError};
use lucidmq::message::Message;
use lucidmq::nolan::{Consumer, Producer};
use lucidmq::nolan_errors::CleanerError;

#[test]
fn nolan_producer_and_consumer_share_a_log() {
    let mut producer = Producer::new(String::from("dir"));
    let mut m = Message::new(b"k", b"v", 9);
    producer.produce(&m.serialize_message());
    assert_eq!(producer.get_topic(), "dir");
    let mut consumer = Consumer::new(String::from("dir"));
    consumer.commitlog = producer.commitlog;
    let read = consumer.poll();
    assert_eq!(read, vec![Message::new(b"k", b"v", 9)]);
    assert_eq!(consumer.consumer_offset, 1);
    assert!(consumer.poll().is_empty());
    assert_eq!(consumer.get_topic(), "dir");
}

#[test]
fn errors_keep_their_message() {
    assert_eq!(TopicError::new("a").message(), "a");
    assert_eq!(ConsumerError::new("b").message(), "b");
    assert_eq!(ProducerError::new("c").message(), "c");
    assert_eq!(ProtocolError::new("d").message(), "d");
    assert_eq!(ServerError::new("e").message(), "e");
    assert_eq!(CleanerError::new("f").message(), "f");
}

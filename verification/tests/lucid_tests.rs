use lucidmq::commitlog::Commitlog;
use lucidmq::lucid::{merge_consumer_groups, LucidMQ};
use lucidmq::topic::{ConsumerGroup, Topic};

fn saved_topic(name: &str, dir: &str, groups: Vec<ConsumerGroup>) -> Topic {
    Topic::from_meta(String::from(name), String::from(dir), groups, 1000, 100)
}

#[test]
fn merge_groups_takes_saved_offsets_but_for_the_group_in_use() {
    let mut groups = vec![ConsumerGroup::new_cg("a", 1), ConsumerGroup::new_cg("b", 2)];
    let saved = vec![
        ConsumerGroup::new_cg("a", 10),
        ConsumerGroup::new_cg("b", 20),
        ConsumerGroup::new_cg("c", 30),
    ];
    merge_consumer_groups(&mut groups, &saved, "b");
    assert_eq!(
        groups,
        vec![
            ConsumerGroup::new_cg("a", 10),
            ConsumerGroup::new_cg("b", 2),
            ConsumerGroup::new_cg("c", 30),
        ]
    );
}

#[test]
fn sync_adds_new_topics_and_merges_known_ones() {
    let mut lucid = LucidMQ::new(String::from("base"), 1000, 100);
    let dir = lucid.new_topic(String::from("known"));
    lucid.topics[0].load_consumer_group("mine");
    let saved = vec![
        saved_topic("known", &dir, vec![ConsumerGroup::new_cg("mine", 9), ConsumerGroup::new_cg("other", 4)]),
        saved_topic("fresh", "base/zzzzz", vec![ConsumerGroup::new_cg("x", 3)]),
    ];
    lucid.sync(&saved, "mine");
    assert_eq!(lucid.topics.len(), 2);
    assert_eq!(
        lucid.topics[0].consumer_groups,
        vec![ConsumerGroup::new_cg("mine", 0), ConsumerGroup::new_cg("other", 4)]
    );
    assert_eq!(lucid.topics[1].name, "fresh");
    assert_eq!(lucid.topics[1].directory, "base/zzzzz");
    assert_eq!(lucid.topics[1].consumer_groups, vec![ConsumerGroup::new_cg("x", 3)]);
}

#[test]
fn lucid_new_topic_uses_a_random_directory() {
    let mut lucid = LucidMQ::new(String::from("base"), 1000, 100);
    let dir = lucid.new_topic(String::from("t"));
    assert!(dir.starts_with("base/"));
    assert_eq!(dir.len(), 10);
    assert_eq!(lucid.check_topics("t"), Some(0));
}

#[test]
fn lucid_new_producer_reuses_or_adds_topics() {
    let mut lucid = LucidMQ::new(String::from("base"), 500, 5000);
    let p = lucid.new_producer(String::from("t"), Commitlog::new(String::from("unused")));
    assert_eq!(p.get_topic(), "t");
    assert_eq!(lucid.topics.len(), 1);
    // for a known topic the producer appends to the loaded log: offsets go on
    let mut loaded = Commitlog::new(lucid.topics[0].directory.clone());
    loaded.append(b"earlier");
    let mut q = lucid.new_producer(String::from("t"), loaded);
    assert_eq!(q.get_topic(), "t");
    assert_eq!(lucid.topics.len(), 1);
    assert_eq!(q.produce_bytes(b"next"), 1);
}

#[test]
fn lucid_new_consumer_loads_the_group() {
    let mut lucid = LucidMQ::new(String::from("base"), 500, 5000);
    let mut cl = Commitlog::new(String::from("base/t"));
    cl.append(b"m");
    let c = lucid.new_consumer(String::from("t"), String::from("g"), cl);
    assert_eq!(c.get_topic(), "t");
    assert_eq!(c.consumer_group, ConsumerGroup::new("g"));
    assert_eq!(lucid.topics[0].get_consumer_groups(), vec![String::from("g")]);
    let mut cl2 = Commitlog::new(String::from("base/t"));
    cl2.append(b"m");
    let c2 = lucid.new_consumer(String::from("t"), String::from("h"), cl2);
    assert_eq!(c2.consumer_group.name, "h");
    assert_eq!(lucid.topics.len(), 1);
    assert_eq!(
        lucid.topics[0].get_consumer_groups(),
        vec![String::from("g"), String::from("h")]
    );
}

#[test]
fn a_consumers_progress_is_written_back_to_its_topic() {
    let mut lucid = LucidMQ::new(String::from("base"), 1000, 100);
    lucid.new_topic(String::from("t"));
    let mut log = Commitlog::with_limits(String::from("base/t"), 1000, 10000);
    log.append(b"one");
    log.append(b"two");
    let mut consumer = lucid.new_consumer(String::from("t"), String::from("g"), log);
    let records = consumer.poll_records();
    assert_eq!(records, vec![b"one".to_vec(), b"two".to_vec()]);
    assert_eq!(lucid.topics[0].consumer_groups, vec![ConsumerGroup::new_cg("g", 0)]);
    assert!(lucid.commit_consumer(&consumer));
    assert_eq!(lucid.topics[0].consumer_groups, vec![ConsumerGroup::new_cg("g", 2)]);
    consumer.topic = String::from("missing");
    assert!(!lucid.commit_consumer(&consumer));
}

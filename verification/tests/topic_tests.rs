use lucidmq::topic::{ConsumerGroup, Topic};

#[test]
fn topic_new_has_an_empty_log_in_a_random_directory() {
    let t = Topic::new(String::from("t"), String::from("base"), 10, 20).unwrap();
    assert_eq!(t.name, "t");
    assert_eq!(t.get_max_segment_size(), 10);
    assert_eq!(t.max_topic_size, 20);
    assert!(t.directory.starts_with("base/"));
    assert!(t.consumer_groups.is_empty());
}

#[test]
fn load_consumer_group_is_idempotent() {
    let mut t = Topic::new_in_directory(
        String::from("t"),
        String::from("base"),
        String::from("abcde"),
        10,
        20,
    );
    assert_eq!(t.directory, "base/abcde");
    let g = t.load_consumer_group("g");
    assert_eq!(g, ConsumerGroup::new("g"));
    let again = t.load_consumer_group("g");
    assert_eq!(again, g);
    assert_eq!(t.get_consumer_groups(), vec![String::from("g")]);
    assert_eq!(t.find_consumer_group("g"), Some(0));
    assert_eq!(t.find_consumer_group("h"), None);
}

#[test]
fn poll_consumer_group_moves_the_group() {
    let mut t = Topic::new_in_directory(String::from("t"), String::from("b"), String::from("d"), 1000, 10000);
    t.commitlog.append(b"one");
    t.commitlog.append(b"two");
    let records = t.poll_consumer_group("g");
    assert_eq!(records, vec![b"one".to_vec(), b"two".to_vec()]);
    assert_eq!(t.consumer_groups[0].offset, 2);
    assert!(t.poll_consumer_group("g").is_empty());
}

#[test]
fn topic_from_ref_copies_groups() {
    let mut t = Topic::from_meta(String::from("t"), String::from("d"), vec![ConsumerGroup::new_cg("g", 4)], 7, 8);
    t.commitlog.append(b"x");
    let copy = Topic::new_topic_from_ref(&t);
    assert_eq!(copy.consumer_groups, vec![ConsumerGroup::new_cg("g", 4)]);
    assert_eq!(copy.max_segment_size, 1000);
    assert_eq!(copy.max_topic_size, 100);
    assert_eq!(copy.commitlog.segments().len(), 0);
}

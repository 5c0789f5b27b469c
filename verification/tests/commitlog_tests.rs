use lucidmq::cleaner::Cleaner;
use lucidmq::commitlog::Commitlog;
use lucidmq::segment::Segment;
use lucidmq::segment_files::{complete_stems, plan_load, split_name};
use lucidmq::utils::create_segment_file_name;

#[test]
fn commitlog_read_after_append() {
    let mut cl = Commitlog::new(String::from("test"));
    let o0 = cl.append(b"hello");
    let o1 = cl.append(b"world");
    assert_eq!(o0, 0);
    assert_eq!(o1, 1);
    assert_eq!(cl.read(0).unwrap(), b"hello".to_vec());
    assert_eq!(cl.read(1).unwrap(), b"world".to_vec());
    assert_eq!(
        cl.read(2).unwrap_err(),
        "Offset does not exist in the commitlog".to_string()
    );
}

#[test]
fn commitlog_splits_full_segments() {
    let mut cl = Commitlog::with_limits(String::from("dir"), 10, 1000);
    for i in 0..5u16 {
        let offset = cl.append(&[0u8; 6]);
        assert_eq!(offset, i);
    }
    // a segment takes messages until it holds more than ten bytes
    assert_eq!(cl.segments().len(), 3);
    assert_eq!(cl.segments()[1].get_starting_offset(), 2);
    assert_eq!(cl.segments()[2].get_starting_offset(), 4);
    assert_eq!(cl.read(3).unwrap(), vec![0u8; 6]);
}

#[test]
fn commitlog_cleaner_removes_oldest_segments() {
    let mut cl = Commitlog::with_limits(String::from("dir"), 10, 20);
    for _ in 0..8 {
        cl.append(&[1u8; 6]);
    }
    let oldest = cl.get_oldest_offset();
    assert!(oldest > 0);
    assert_eq!(
        cl.read(0).unwrap_err(),
        "Offset does not exist in the commitlog".to_string()
    );
    assert_eq!(cl.read(7).unwrap(), vec![1u8; 6]);
}

#[test]
fn commitlog_can_append_and_is_sound() {
    let mut cl = Commitlog::new(String::from("d"));
    assert!(cl.is_sound());
    assert!(cl.can_append(100));
    cl.append(b"x");
    assert!(cl.is_sound());
    assert!(!cl.can_append(usize::MAX));
}

#[test]
fn cleaner_keeps_newest_segments_within_retention() {
    let cleaner = Cleaner::new(15);
    let mut segments = Vec::new();
    for offset in 0..3u16 {
        let mut s = Segment::new(String::from("d"), 100, offset);
        s.write(&[0u8; 10]).unwrap();
        segments.push(s);
    }
    // thirty bytes exceed the retention: the two oldest go, the newest stays
    assert_eq!(cleaner.segments_to_remove(&segments), 2);
    assert_eq!(cleaner.clean(&mut segments), Ok(true));
    assert_eq!(segments.len(), 1);
    assert_eq!(segments[0].get_starting_offset(), 2);
}

#[test]
fn cleaner_removes_once_the_total_exceeds_the_retention() {
    let cleaner = Cleaner::new(1000);
    let mut segments = Vec::new();
    for (offset, size) in [(0u16, 600usize), (1, 500)] {
        let mut s = Segment::new(String::from("d"), 10000, offset);
        s.write(&vec![0u8; size]).unwrap();
        segments.push(s);
    }
    cleaner.clean(&mut segments).unwrap();
    assert_eq!(segments.len(), 1);
    assert_eq!(segments[0].get_starting_offset(), 1);
}

#[test]
fn cleaner_keeps_all_within_the_retention() {
    let cleaner = Cleaner::new(1100);
    let mut segments = Vec::new();
    for (offset, size) in [(0u16, 600usize), (1, 500)] {
        let mut s = Segment::new(String::from("d"), 10000, offset);
        s.write(&vec![0u8; size]).unwrap();
        segments.push(s);
    }
    assert_eq!(cleaner.segments_to_remove(&segments), 0);
}

#[test]
fn default_cleaner_keeps_only_the_newest() {
    let cleaner = Cleaner::default();
    let mut segments = Vec::new();
    for offset in 0..3u16 {
        let mut s = Segment::new(String::from("d"), 100, offset);
        s.write(&[1u8]).unwrap();
        segments.push(s);
    }
    assert_eq!(cleaner.segments_to_remove(&segments), Cleaner::new(0).segments_to_remove(&segments));
    assert_eq!(cleaner.segments_to_remove(&segments), 2);
}

#[test]
fn segment_write_and_read() {
    let mut s = Segment::new(String::from("d"), 10, 5);
    assert_eq!(s.get_file_name(), "d/00005.log");
    assert_eq!(s.index_file_name(), "d/00005.index");
    s.write(b"abc").unwrap();
    assert_eq!(s.get_next_offset(), 6);
    assert_eq!(s.read_at(0).unwrap(), b"abc".to_vec());
    assert!(s.read_at(1).is_err());
}

#[test]
fn segment_load_and_add_to_commitlog() {
    let mut written = Segment::new(String::from("d"), 100, 3);
    written.write(b"abc").unwrap();
    let log = written.contents().to_vec();
    let mut vs = lucidmq::virtual_segment::VirtualSegment::new("d", 100, 3);
    vs.write(b"abc").unwrap();
    let index = vs.index_contents().to_vec();
    let loaded = Segment::load_segment(String::from("d"), String::from("00003"), log, &index)
        .expect("load");
    assert_eq!(loaded.get_starting_offset(), 3);
    assert_eq!(loaded.get_next_offset(), 4);
    let mut cl = Commitlog::new(String::from("d"));
    cl.add_segment(loaded);
    assert_eq!(cl.read(3).unwrap(), b"abc".to_vec());
    assert_eq!(cl.get_oldest_offset(), 3);
}

#[test]
fn segment_load_rejects_a_bad_name() {
    let r = Segment::load_segment(String::from("d"), String::from("abc"), Vec::new(), &[]);
    assert!(r.is_err());
}

#[test]
fn file_names_are_planned_for_loading() {
    let names = vec![
        String::from("00000.log"),
        String::from("00000.index"),
        String::from("00005.log"),
        String::from("00007.index"),
        String::from("notes.txt"),
    ];
    let (stems, stale) = plan_load(&names);
    assert_eq!(stems, vec![String::from("00000")]);
    assert_eq!(stale, vec![String::from("00005.log"), String::from("00007.index")]);
    let complete = complete_stems(&names);
    assert_eq!(complete, vec![String::from("00000")]);
}

#[test]
fn split_name_splits_at_the_last_dot() {
    assert_eq!(
        split_name("a.b.log"),
        (String::from("a.b"), Some(String::from("log")))
    );
    assert_eq!(split_name("plain"), (String::from("plain"), None));
}

#[test]
fn segment_file_names_are_padded() {
    assert_eq!(create_segment_file_name("dir", 42, ".log"), "dir/00042.log");
    assert_eq!(create_segment_file_name("dir", 65535, ".index"), "dir/65535.index");
}

#[test]
fn segments_to_add_skips_known_segments() {
    let mut cl = Commitlog::new(String::from("d"));
    cl.append(b"a");
    let stems = vec![String::from("00000"), String::from("00001")];
    assert_eq!(cl.segments_to_add(&stems), vec![String::from("00001")]);
}

#[test]
fn segment_store_load_reads_the_same() {
    let mut written = Segment::new(String::from("d"), 100, 9);
    written.write(b"one").unwrap();
    written.write(b"three").unwrap();
    let mut loaded = Segment::load_segment(
        String::from("d"),
        String::from("00009"),
        written.contents().to_vec(),
        &written.index_bytes(),
    )
    .expect("load");
    for offset in 0..3 {
        assert_eq!(loaded.read_at(offset), written.read_at(offset));
    }
}

#[test]
fn segment_file_names_sort_by_offset() {
    let pairs: Vec<(u16, u16)> = vec![(0, 1), (9, 10), (99, 100), (9999, 10000), (12345, 65535)];
    for (a, b) in pairs {
        let x = create_segment_file_name("d", a, ".log");
        let y = create_segment_file_name("d", b, ".log");
        assert!(x < y, "{} should sort before {}", x, y);
    }
}

#[test]
fn commitlog_reads_across_contiguous_segments() {
    let mut cl = Commitlog::with_limits(String::from("test_dir"), 10, 10000);
    let msgs: Vec<&[u8]> = vec![b"aaaa", b"bbbb", b"cccc", b"dddd", b"eeee"];
    for (i, m) in msgs.iter().enumerate() {
        assert_eq!(cl.append(m) as usize, i);
    }
    assert!(cl.segments().len() >= 2);
    for (i, m) in msgs.iter().enumerate() {
        assert_eq!(cl.read(i).unwrap(), m.to_vec());
    }
    assert_eq!(
        cl.read(5).unwrap_err(),
        "Offset does not exist in the commitlog".to_string()
    );
}

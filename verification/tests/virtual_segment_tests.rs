use lucidmq::nolan_errors::SegmentError;
use lucidmq::virtual_segment::VirtualSegment;

#[test]
fn test_one_message() {
    let mut vs = VirtualSegment::new("test_dir", 100, 0);
    let data = "hellos".as_bytes();
    let offset = vs
        .write(data)
        .expect("unable to write data to virtual segment");
    assert_eq!(0usize, offset.into());
    let retrieve_data = vs
        .read_at(offset.into())
        .expect("Failed to get message from virtual segment");
    assert_eq!(data, &*retrieve_data);
}

#[test]
fn test_multiple_message() {
    let mut vs = VirtualSegment::new("test_dir", 100, 0);
    let messages = ["hello", "world", "im", "here"];
    for (i, message) in messages.iter().enumerate() {
        let data = message.as_bytes();
        let offset = vs.write(data).expect("unable to write to virtual seg");
        assert_eq!(i, offset.into());
    }

    for (i, message) in messages.iter().enumerate() {
        let retrieve_data = vs
            .read_at(i)
            .expect("Failed to get message from virtual segment");
        assert_eq!(message.as_bytes(), &*retrieve_data);
    }
}

#[test]
fn test_message_greater_than_segment() {
    let mut vs = VirtualSegment::new("test_dir", 10, 0);
    let bytes: [u8; 11] = [0; 11];
    let segment_error = vs.write(&bytes).unwrap_err();
    let want = SegmentError::new("Data to write is greater than the allowed max segment size");
    assert_eq!(want, segment_error);
}

#[test]
fn test_multi_messages_greater_than_segment() {
    let mut vs = VirtualSegment::new("test_dir", 10, 0);
    let bytes: [u8; 6] = [0; 6];
    vs.write(&bytes).unwrap();
    let segment_error = vs.write(&bytes).unwrap_err();
    let want = SegmentError::new("Write not possible. Segment log would be greater than max bytes");
    assert_eq!(want, segment_error);
}

#[test]
fn test_offset_greater_than_segment() {
    let mut vs = VirtualSegment::new("test_dir", 100, 0);
    let bytes: [u8; 10] = [0; 10];
    vs.write(&bytes).unwrap();

    let segment_error = vs.read_at(1).unwrap_err();
    let wanted_error = SegmentError::new("offset is out of bounds");
    assert_eq!(wanted_error, segment_error);
}

#[test]
fn test_offset_less_than_segment() {
    let mut vs = VirtualSegment::new("test_dir", 100, 1);
    let bytes: [u8; 10] = [0; 10];
    vs.write(&bytes).unwrap();

    let segment_error = vs.read_at(0).unwrap_err();
    let wanted_error = SegmentError::new("offset is out of bounds");
    assert_eq!(wanted_error, segment_error);
}

#[test]
fn virtual_segment_paths_follow_the_starting_offset() {
    let vs = VirtualSegment::new("dir", 100, 7);
    assert_eq!(vs.full_log_path, "dir/00007.log");
    assert_eq!(vs.index_file_path(), "dir/00007.index");
}

#[test]
fn virtual_segment_contents_and_index_after_writes() {
    let mut vs = VirtualSegment::new("dir", 100, 0);
    vs.write(b"ab").unwrap();
    vs.write(b"cde").unwrap();
    assert_eq!(vs.contents(), b"abcde");
    // two entries of eight bytes: (0, 2) and (2, 3), little-endian
    assert_eq!(
        vs.index_contents(),
        &[0, 0, 0, 0, 2, 0, 0, 0, 2, 0, 0, 0, 3, 0, 0, 0][..]
    );
}

#[test]
fn virtual_segment_load_reads_back_a_flushed_segment() {
    let mut vs = VirtualSegment::new("dir", 100, 3);
    vs.write(b"first").unwrap();
    vs.write(b"second").unwrap();
    let log = vs.contents().to_vec();
    let index = vs.index_contents().to_vec();
    let mut loaded = VirtualSegment::load_segment("dir", 3, 100, log, &index).expect("load");
    assert_eq!(loaded.read_at(3).unwrap(), b"first".to_vec());
    assert_eq!(loaded.read_at(4).unwrap(), b"second".to_vec());
    assert!(loaded.read_at(5).is_err());
}

#[test]
fn virtual_segment_run_of_writes_reads_back() {
    let mut vs = VirtualSegment::new("test_dir", 100, 10);
    let datas: Vec<&[u8]> = vec![b"one", b"", b"three"];
    for d in datas.iter() {
        vs.write(d).expect("write fits");
    }
    for (k, d) in datas.iter().enumerate() {
        assert_eq!(vs.read_at(10 + k).unwrap(), d.to_vec());
    }
    assert_eq!(
        vs.read_at(13).unwrap_err(),
        SegmentError::new("offset is out of bounds")
    );
    assert_eq!(
        vs.read_at(9).unwrap_err(),
        SegmentError::new("offset is out of bounds")
    );
    assert_eq!(vs.starting_offset(), 10);
    assert_eq!(vs.next_offset(), 3);
    assert_eq!(vs.full_log_path(), "test_dir/00010.log".to_string());
    assert_eq!(vs.starting_offset(), vs.starting_offset);
    assert_eq!(vs.next_offset(), vs.next_offset);
}

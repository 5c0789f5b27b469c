use lucidmq::index::{Index, VirtualIndex};
use lucidmq::nolan_errors::IndexError;
use lucidmq::virtual_segment::VirtualSegment;

/// The bytes of the index file of a segment to which `message` was written.
fn index_file_bytes(message: &[u8]) -> Vec<u8> {
    let mut vs = VirtualSegment::new("test", 100, 0);
    vs.write(message).expect("unable to write");
    vs.index_contents().to_vec()
}

#[test]
fn test_add_entry() {
    let mut test_index = VirtualIndex::new(String::from("test_dir/test.index"));

    let start_position = 0;
    let total_bytes = 10;
    test_index
        .add_entry(start_position, total_bytes)
        .expect("Unable to add entry");

    let retrieved_entry = test_index.get(0).expect("Got entry");
    assert_eq!(start_position, retrieved_entry.start);
    assert_eq!(total_bytes, retrieved_entry.total);
}

#[test]
fn test_add_multiple_entry() {
    let mut test_index = VirtualIndex::new(String::from("test_dir/test.index"));

    let mut start_position = 0;
    let total_bytes = 10;

    for _ in 0..9 {
        test_index
            .add_entry(start_position, total_bytes)
            .expect("Unable to add entry");
        start_position += total_bytes
    }

    start_position = 0;
    for i in 0..9 {
        let retrieved_entry = test_index.get(i).expect("Got entry");
        assert_eq!(start_position, retrieved_entry.start);
        assert_eq!(total_bytes, retrieved_entry.total);
        start_position += total_bytes
    }
}

#[test]
fn test_load_index() {
    let bytes = index_file_bytes("hello".as_bytes());
    let mut index = Index::new("test/00000.index");
    index.load_index(&bytes).expect("unable to load index");
    assert!(index.len() == 1);
}

#[test]
fn return_entry_details_by_offset() {
    let message = "hello";
    let bytes = index_file_bytes(message.as_bytes());
    let mut index = Index::new("test/00000.index");
    index.load_index(&bytes).expect("unable to load index");

    let (start, total) = index
        .return_entry_details_by_offset(0)
        .expect("Unable to get entry details");
    assert!(start == 0);
    assert!(total == message.len());
}

#[test]
fn return_entry_details_by_offset_dne() {
    let message = "hello";
    let bytes = index_file_bytes(message.as_bytes());
    let mut index = Index::new("test/00000.index");
    index.load_index(&bytes).expect("unable to load index");

    let index_error = index.return_entry_details_by_offset(1).unwrap_err();
    let wanted_error = IndexError::new("offset is greater than entries length");
    assert_eq!(wanted_error, index_error);
}

#[test]
fn virtual_index_load_index_roundtrip() {
    let mut written = VirtualIndex::new(String::from("d/00000.index"));
    written.add_entry(0, 5).unwrap();
    written.add_entry(5, 7).unwrap();
    let mut loaded = VirtualIndex::new(String::from("d/00000.index"));
    let n = loaded.load_index(written.contents()).expect("load");
    assert_eq!(n, 2);
    assert_eq!(loaded.return_entry_details_by_offset(1).unwrap(), (5, 7));
}

#[test]
fn index_load_ignores_a_trailing_partial_entry() {
    let mut bytes = index_file_bytes(b"abc");
    bytes.extend_from_slice(&[1, 2, 3]);
    let mut index = Index::new("x.index");
    assert_eq!(index.load_index(&bytes).unwrap(), 1);
}

#[test]
fn index_reload_replaces_entries() {
    let bytes = index_file_bytes(b"abc");
    let mut index = Index::new("x.index");
    index.load_index(&bytes).unwrap();
    index.load_index(&bytes).unwrap();
    assert_eq!(index.len(), 2);
    assert_eq!(index.reload_index(&bytes).unwrap(), 1);
}

//! The index of a segment: one entry per message, giving where the
//! message starts in the segment's log and how many bytes it takes.
//!
//! On disk an index is the concatenation of its entries, eight bytes each
//! (the start, then the length, both little-endian `u32`).
use vstd::prelude::*;
use vstd::bytes::*;
use crate::codec::{
    spec_entry_bytes, bincode_serialize_u32_pair, bincode_deserialize_u32_pair,
};
use crate::bytes_util::extend_bytes;
use crate::nolan_errors::IndexError;
use crate::text::to_owned_string;

verus! {

/// Where a message lies in a segment's log.
#[derive(Debug, Clone, Copy, PartialEq, Eq)]
pub struct Entry {
    pub start: u32,
    pub total: u32,
}

/// The bytes of a sequence of entries, in order.
pub open spec fn spec_encode_entries(es: Seq<Entry>) -> Seq<u8>
    decreases es.len(),
{
    if es.len() == 0 {
        Seq::empty()
    } else {
        spec_encode_entries(es.drop_last()) + spec_entry_bytes(es.last().start, es.last().total)
    }
}

/// The entry held by eight bytes.
pub open spec fn spec_decode_entry(b: Seq<u8>) -> Entry {
    Entry {
        start: spec_u32_from_le_bytes(b.subrange(0, 4)),
        total: spec_u32_from_le_bytes(b.subrange(4, 8)),
    }
}

/// The entries held by a byte sequence: one per full group of eight bytes;
/// bytes after the last full group are ignored.
pub open spec fn spec_decode_entries(bytes: Seq<u8>) -> Seq<Entry> {
    Seq::new(bytes.len() / 8, |i: int| spec_decode_entry(bytes.subrange(8 * i, 8 * i + 8)))
}

/// The number of entry bytes that a byte sequence holds in full groups.
pub open spec fn spec_whole_entry_len(bytes: Seq<u8>) -> int {
    (8 * (bytes.len() / 8)) as int
}

/// Encoding an entry and decoding the bytes gives the entry back.
pub proof fn lemma_entry_bytes_roundtrip(e: Entry)
    ensures
        spec_entry_bytes(e.start, e.total).len() == 8,
        spec_decode_entry(spec_entry_bytes(e.start, e.total)) == e,
{
    lemma_auto_spec_u32_to_from_le_bytes();
    let b = spec_entry_bytes(e.start, e.total);
    assert(b.subrange(0, 4) =~= spec_u32_to_le_bytes(e.start));
    assert(b.subrange(4, 8) =~= spec_u32_to_le_bytes(e.total));
}

/// Decoding eight bytes and encoding the entry gives the bytes back.
pub proof fn lemma_entry_decode_roundtrip(b: Seq<u8>)
    requires
        b.len() == 8,
    ensures
        spec_entry_bytes(spec_decode_entry(b).start, spec_decode_entry(b).total) == b,
{
    lemma_auto_spec_u32_to_from_le_bytes();
    assert(spec_u32_to_le_bytes(spec_u32_from_le_bytes(b.subrange(0, 4))) == b.subrange(0, 4));
    assert(spec_u32_to_le_bytes(spec_u32_from_le_bytes(b.subrange(4, 8))) == b.subrange(4, 8));
    assert(b =~= b.subrange(0, 4) + b.subrange(4, 8));
}

/// The encoding of `n` entries takes `8 * n` bytes, and the eight bytes at
/// position `8 * i` are those of entry `i`.
pub proof fn lemma_encode_entries_layout(es: Seq<Entry>)
    ensures
        spec_encode_entries(es).len() == 8 * es.len(),
        forall|i: int|
            0 <= i < es.len() ==> #[trigger] spec_encode_entries(es).subrange(8 * i, 8 * i + 8)
                == spec_entry_bytes(es[i].start, es[i].total),
    decreases es.len(),
{
    if es.len() > 0 {
        let init = es.drop_last();
        lemma_encode_entries_layout(init);
        lemma_entry_bytes_roundtrip(es.last());
        let whole = spec_encode_entries(es);
        assert forall|i: int| 0 <= i < es.len() implies #[trigger] whole.subrange(8 * i, 8 * i + 8)
            == spec_entry_bytes(es[i].start, es[i].total) by {
            if i < init.len() {
                assert(whole.subrange(8 * i, 8 * i + 8) =~= spec_encode_entries(init).subrange(
                    8 * i,
                    8 * i + 8,
                ));
            } else {
                assert(whole.subrange(8 * i, 8 * i + 8) =~= spec_entry_bytes(
                    es.last().start,
                    es.last().total,
                ));
            }
        }
    }
}

/// Reading the encoding of a sequence of entries gives the entries back.
pub proof fn lemma_entries_roundtrip(es: Seq<Entry>)
    ensures
        spec_decode_entries(spec_encode_entries(es)) == es,
{
    lemma_encode_entries_layout(es);
    let d = spec_decode_entries(spec_encode_entries(es));
    assert(d.len() == es.len());
    assert forall|i: int| 0 <= i < es.len() implies d[i] == es[i] by {
        lemma_entry_bytes_roundtrip(es[i]);
    }
    assert(d =~= es);
}

/// Decodes the whole groups of eight bytes of `bytes`, appending each entry
/// to `entries` and, when given, its bytes to `raw`. Gives the number of
/// groups read.
fn decode_into(bytes: &[u8], entries: &mut Vec<Entry>, raw: &mut Vec<u8>) -> (count: usize)
    ensures
        count == bytes@.len() / 8,
        final(entries)@ == old(entries)@ + spec_decode_entries(bytes@),
        final(raw)@ == old(raw)@ + bytes@.subrange(0, spec_whole_entry_len(bytes@)),
{
    let n = bytes.len();
    let mut i: usize = 0;
    while n - i >= 8
        invariant
            n == bytes@.len(),
            i % 8 == 0,
            i <= n,
            entries@ == old(entries)@ + spec_decode_entries(bytes@.subrange(0, i as int)),
            raw@ == old(raw)@ + bytes@.subrange(0, i as int),
        decreases n - i,
    {
        let chunk = vstd::slice::slice_subrange(bytes, i, i + 8);
        let pair = bincode_deserialize_u32_pair(chunk);
        match pair {
            Ok((start, total)) => {
                let ghost prev = entries@;
                entries.push(Entry { start, total });
                extend_bytes(raw, chunk);
                proof {
                    let before = bytes@.subrange(0, i as int);
                    let after = bytes@.subrange(0, i + 8);
                    assert(spec_decode_entries(after).len() == spec_decode_entries(before).len() + 1);
                    assert forall|j: int| 0 <= j < spec_decode_entries(before).len() implies
                        spec_decode_entries(after)[j] == spec_decode_entries(before)[j] by {
                        assert(after.subrange(8 * j, 8 * j + 8) =~= before.subrange(8 * j, 8 * j + 8));
                    }
                    assert(after.subrange(8 * (i / 8) as int, 8 * (i / 8) + 8) =~= chunk@);
                    assert(spec_decode_entries(after) =~= spec_decode_entries(before).push(
                        Entry { start, total },
                    ));
                    assert(bytes@.subrange(0, i + 8) =~= bytes@.subrange(0, i as int) + chunk@);
                }
            },
            Err(_) => {},
        }
        i = i + 8;
    }
    proof {
        let whole = bytes@.subrange(0, i as int);
        assert(i == spec_whole_entry_len(bytes@));
        assert forall|j: int| 0 <= j < spec_decode_entries(whole).len() implies
            spec_decode_entries(whole)[j] == spec_decode_entries(bytes@)[j] by {
            assert(whole.subrange(8 * j, 8 * j + 8) =~= bytes@.subrange(8 * j, 8 * j + 8));
        }
        assert(spec_decode_entries(whole) =~= spec_decode_entries(bytes@));
    }
    i / 8
}

/// The index of a segment held in memory: its entries and their bytes, which
/// are written to the index file when the segment is flushed.
pub struct VirtualIndex {
    contents: Vec<u8>,
    entries: Vec<Entry>,
    full_index_file_path: String,
}

impl View for VirtualIndex {
    type V = Seq<Entry>;

    closed spec fn view(&self) -> Seq<Entry> {
        self.entries@
    }
}

impl VirtualIndex {
    /// The bytes of the index file.
    pub closed spec fn spec_contents(&self) -> Seq<u8> {
        self.contents@
    }

    /// The path of the index file.
    pub closed spec fn spec_path(&self) -> Seq<char> {
        self.full_index_file_path@
    }

    /// The bytes of the index are those of its entries.
    pub open spec fn wf(&self) -> bool {
        self.spec_contents() == spec_encode_entries(self@)
    }

    /// Creates an empty index whose file is `index_path`.
    pub fn new(index_path: String) -> (idx: VirtualIndex)
        ensures
            idx.wf(),
            idx@ == Seq::<Entry>::empty(),
            idx.spec_path() == index_path@,
    {
        VirtualIndex { contents: Vec::new(), entries: Vec::new(), full_index_file_path: index_path }
    }

    /// Adds a new entry to the index.
    pub fn add_entry(&mut self, start_position: u32, total_bytes: u32) -> (r: Result<
        bool,
        IndexError,
    >)
        requires
            old(self).wf(),
        ensures
            final(self).wf(),
            r matches Ok(b) && b,
            final(self)@ == old(self)@.push(Entry { start: start_position, total: total_bytes }),
            final(self).spec_path() == old(self).spec_path(),
    {
        let entry = Entry { start: start_position, total: total_bytes };
        let encoded_entry = match bincode_serialize_u32_pair(start_position, total_bytes) {
            Ok(bytes) => bytes,
            Err(_) => {
                return Err(IndexError::new("Unable to serialize entry"));
            },
        };
        self.entries.push(entry);
        extend_bytes(&mut self.contents, encoded_entry.as_slice());
        proof {
            assert(self.entries@.drop_last() =~= old(self).entries@);
        }
        Ok(true)
    }

    /// Given an offset, returns the start and the length of its entry.
    pub fn return_entry_details_by_offset(&self, offset: usize) -> (r: Result<
        (u64, usize),
        IndexError,
    >)
        requires
            offset < self@.len(),
        ensures
            r matches Ok((start, total)) && start == self@[offset as int].start && total
                == self@[offset as int].total,
    {
        let entry = self.entries[offset];
        let start_offset: u64 = entry.start as u64;
        let total_bytes: usize = entry.total as usize;
        Ok((start_offset, total_bytes))
    }

    /// Loads the entries held by the bytes of the index file, adding them
    /// after the entries already present. Gives the number of entries.
    pub fn load_index(&mut self, file_bytes: &[u8]) -> (r: Result<u16, IndexError>)
        requires
            old(self).wf(),
        ensures
            final(self).wf(),
            final(self)@ == old(self)@ + spec_decode_entries(file_bytes@),
            final(self).spec_path() == old(self).spec_path(),
            match r {
                Ok(n) => n == final(self)@.len(),
                Err(e) => final(self)@.len() > u16::MAX && e@ == "unable to convert usize to u16"@,
            },
    {
        let ghost old_entries = self.entries@;
        decode_into(file_bytes, &mut self.entries, &mut self.contents);
        proof {
            let whole = file_bytes@.subrange(0, spec_whole_entry_len(file_bytes@));
            assert(spec_decode_entries(whole) =~= spec_decode_entries(file_bytes@)) by {
                assert forall|j: int| 0 <= j < spec_decode_entries(whole).len() implies
                    spec_decode_entries(whole)[j] == spec_decode_entries(file_bytes@)[j] by {
                    assert(whole.subrange(8 * j, 8 * j + 8) =~= file_bytes@.subrange(8 * j, 8 * j + 8));
                }
            }
            lemma_encode_append_decoded(old_entries, whole);
        }
        let n = self.entries.len();
        if n > 65535 {
            return Err(IndexError::new("unable to convert usize to u16"));
        }
        Ok(n as u16)
    }

    /// The bytes of the index file.
    pub fn contents(&self) -> (s: &[u8])
        ensures
            s@ == self.spec_contents(),
    {
        self.contents.as_slice()
    }

    /// The path of the index file.
    pub fn full_index_file_path(&self) -> (p: String)
        ensures
            p@ == self.spec_path(),
    {
        self.full_index_file_path.clone()
    }

    /// The number of entries.
    pub fn len(&self) -> (n: usize)
        ensures
            n == self@.len(),
    {
        self.entries.len()
    }

    /// The entry at position `i`.
    pub fn get(&self, i: usize) -> (e: Option<Entry>)
        ensures
            i < self@.len() ==> e == Some(self@[i as int]),
            i >= self@.len() ==> e is None,
    {
        if i < self.entries.len() {
            Some(self.entries[i])
        } else {
            None
        }
    }
}

/// The bytes of an index file holding `es`, in order.
pub fn encode_entries(es: &Vec<Entry>) -> (bytes: Vec<u8>)
    ensures
        bytes@ == spec_encode_entries(es@),
{
    let mut index = VirtualIndex::new(String::new());
    let mut i: usize = 0;
    while i < es.len()
        invariant
            i <= es@.len(),
            index.wf(),
            index@ == es@.take(i as int),
        decreases es@.len() - i,
    {
        let _ = index.add_entry(es[i].start, es[i].total);
        i = i + 1;
        assert(index@ =~= es@.take(i as int));
    }
    assert(es@.take(i as int) =~= es@);
    let mut bytes: Vec<u8> = Vec::new();
    crate::bytes_util::extend_bytes(&mut bytes, index.contents());
    bytes
}

/// Encoding entries followed by the entries decoded from whole groups of
/// eight bytes gives the first encoding followed by those bytes.
pub proof fn lemma_encode_append_decoded(es: Seq<Entry>, bytes: Seq<u8>)
    requires
        bytes.len() % 8 == 0,
    ensures
        spec_encode_entries(es + spec_decode_entries(bytes)) == spec_encode_entries(es) + bytes,
    decreases bytes.len(),
{
    if bytes.len() == 0 {
        assert(es + spec_decode_entries(bytes) =~= es);
        assert(spec_encode_entries(es) + bytes =~= spec_encode_entries(es));
    } else {
        let init = bytes.subrange(0, bytes.len() - 8);
        let last = bytes.subrange(bytes.len() - 8, bytes.len() as int);
        lemma_encode_append_decoded(es, init);
        let d = spec_decode_entries(bytes);
        let di = spec_decode_entries(init);
        assert forall|j: int| 0 <= j < di.len() implies di[j] == d[j] by {
            assert(init.subrange(8 * j, 8 * j + 8) =~= bytes.subrange(8 * j, 8 * j + 8));
        }
        assert(d =~= di.push(spec_decode_entry(last)));
        let all = es + d;
        assert(all.drop_last() =~= es + di);
        lemma_entry_decode_roundtrip(last);
        assert(bytes =~= init + last);
        assert(spec_encode_entries(es) + bytes =~= (spec_encode_entries(es) + init) + last);
    }
}

/// The index of a segment whose log lives in a file: its file name and its
/// entries.
pub struct Index {
    pub file_name: String,
    entries: Vec<Entry>,
}

impl View for Index {
    type V = Seq<Entry>;

    closed spec fn view(&self) -> Seq<Entry> {
        self.entries@
    }
}

impl Index {
    /// The name of the index file.
    pub closed spec fn spec_file_name(&self) -> Seq<char> {
        self.file_name@
    }

    /// The name of the index file.
    pub fn get_file_name(&self) -> (n: String)
        ensures
            n@ == self.spec_file_name(),
    {
        self.file_name.clone()
    }

    /// Creates an empty index for the file at `index_path`.
    pub fn new(index_path: &str) -> (idx: Index)
        ensures
            idx@ == Seq::<Entry>::empty(),
            idx.spec_file_name() == index_path@,
    {
        Index { file_name: to_owned_string(index_path), entries: Vec::new() }
    }

    /// Loads the entries held by the bytes of the index file, adding them
    /// after the entries already present. Gives the number of entries.
    pub fn load_index(&mut self, file_bytes: &[u8]) -> (r: Result<u16, IndexError>)
        ensures
            final(self)@ == old(self)@ + spec_decode_entries(file_bytes@),
            final(self).spec_file_name() == old(self).spec_file_name(),
            match r {
                Ok(n) => n == final(self)@.len(),
                Err(e) => final(self)@.len() > u16::MAX && e@ == "unable to convert usize to u16"@,
            },
    {
        let mut raw: Vec<u8> = Vec::new();
        decode_into(file_bytes, &mut self.entries, &mut raw);
        let n = self.entries.len();
        if n > 65535 {
            return Err(IndexError::new("unable to convert usize to u16"));
        }
        Ok(n as u16)
    }

    /// Replaces the entries by those held by the bytes of the index file.
    /// Gives the number of entries.
    pub fn reload_index(&mut self, file_bytes: &[u8]) -> (r: Result<u16, IndexError>)
        ensures
            final(self)@ == spec_decode_entries(file_bytes@),
            final(self).spec_file_name() == old(self).spec_file_name(),
            match r {
                Ok(n) => n == final(self)@.len(),
                Err(e) => final(self)@.len() > u16::MAX && e@ == "unable to convert usize to u16"@,
            },
    {
        self.entries = Vec::new();
        let r = self.load_index(file_bytes);
        assert(Seq::<Entry>::empty() + spec_decode_entries(file_bytes@) =~= spec_decode_entries(
            file_bytes@,
        ));
        r
    }

    /// Adds a new entry to the index.
    pub fn add_entry(&mut self, start_position: u32, total_bytes: u32)
        ensures
            final(self)@ == old(self)@.push(Entry { start: start_position, total: total_bytes }),
            final(self).spec_file_name() == old(self).spec_file_name(),
    {
        self.entries.push(Entry { start: start_position, total: total_bytes });
    }

    /// Given an offset, returns the start and the length of its entry, or an
    /// error when the index has no entry at that offset.
    pub fn return_entry_details_by_offset(&self, offset: usize) -> (r: Result<
        (u64, usize),
        IndexError,
    >)
        ensures
            match r {
                Ok((start, total)) => offset < self@.len() && start == self@[offset as int].start
                    && total == self@[offset as int].total,
                Err(e) => offset >= self@.len() && e@ == "offset is greater than entries length"@,
            },
    {
        if offset >= self.entries.len() {
            return Err(IndexError::new("offset is greater than entries length"));
        }
        let entry = self.entries[offset];
        Ok((entry.start as u64, entry.total as usize))
    }

    /// The number of entries.
    pub fn len(&self) -> (n: usize)
        ensures
            n == self@.len(),
    {
        self.entries.len()
    }
}

} // verus!

//! A segment held in memory: the bytes of its log and its index, written to
//! their files when the segment is flushed.
use vstd::prelude::*;
use crate::bytes_util::{extend_bytes, copy_range};
use crate::index::{Entry, VirtualIndex, spec_decode_entries, spec_encode_entries};
use crate::nolan_errors::SegmentError;
use crate::utils::{create_segment_file_name, spec_segment_file_name, LOG_SUFFIX, INDEX_SUFFIX};

verus! {

/// The bytes that an entry designates in a log: the range it names when the
/// log holds it, nothing for an empty entry, and no answer otherwise (the
/// read fails).
pub open spec fn spec_entry_data(log: Seq<u8>, e: Entry) -> Option<Seq<u8>> {
    if e.start + e.total <= log.len() {
        Some(log.subrange(e.start as int, e.start + e.total))
    } else if e.total == 0 {
        Some(Seq::empty())
    } else {
        None
    }
}

/// A segment of the commit log held in memory.
pub struct VirtualSegment {
    contents: Vec<u8>,
    /// The last position in the log file to allow for easy writes
    position: u32,
    max_bytes: u64,
    /// The starting offset of the segment relative to the whole commitlog
    pub starting_offset: u16,
    /// The next offset that was written to relative to the current segment
    pub next_offset: u16,
    index: VirtualIndex,
    pub full_log_path: String,
}

impl VirtualSegment {
    /// The offset of the first message of the segment in the commit log.
    pub closed spec fn spec_starting_offset(&self) -> u16 {
        self.starting_offset
    }

    /// The number of messages written to the segment.
    pub closed spec fn spec_next_offset(&self) -> u16 {
        self.next_offset
    }

    /// The path of the log file.
    pub closed spec fn spec_full_log_path(&self) -> Seq<char> {
        self.full_log_path@
    }

    /// The bytes of the log.
    pub closed spec fn spec_contents(&self) -> Seq<u8> {
        self.contents@
    }

    /// The position where the next message is recorded to start.
    pub closed spec fn spec_position(&self) -> u32 {
        self.position
    }

    /// The largest size that the log may reach.
    pub closed spec fn spec_max_bytes(&self) -> u64 {
        self.max_bytes
    }

    /// The entries of the index.
    pub closed spec fn spec_entries(&self) -> Seq<Entry> {
        self.index@
    }

    /// The bytes of the index file.
    pub closed spec fn spec_index_contents(&self) -> Seq<u8> {
        self.index.spec_contents()
    }

    /// The path of the index file.
    pub closed spec fn spec_index_path(&self) -> Seq<char> {
        self.index.spec_path()
    }

    /// The segment is consistent: the index bytes are those of its entries,
    /// there is one entry per offset written, and the recorded position lies
    /// within the log.
    pub open spec fn wf(&self) -> bool {
        &&& self.spec_index_contents() == spec_encode_entries(self.spec_entries())
        &&& self.spec_next_offset() == self.spec_entries().len()
        &&& self.spec_position() <= self.spec_contents().len()
    }

    /// The next message is recorded where it is written: at the end of the log.
    pub open spec fn tidy(&self) -> bool {
        self.spec_position() == self.spec_contents().len()
    }

    /// The outcome of reading the message at `offset`, counted from the
    /// start of the whole commit log.
    pub open spec fn spec_read_at(&self, offset: int) -> Result<Seq<u8>, Seq<char>> {
        if offset < self.spec_starting_offset() || offset >= self.spec_starting_offset() + self.spec_next_offset() {
            Err("offset is out of bounds"@)
        } else {
            match spec_entry_data(
                self.spec_contents(),
                self.spec_entries()[offset - self.spec_starting_offset()],
            ) {
                Some(data) => Ok(data),
                None => Err("unable to read into buffer"@),
            }
        }
    }

    /// A write of `n` bytes passes the size checks.
    pub open spec fn spec_accepts(&self, n: int) -> bool {
        n <= self.spec_max_bytes() && self.spec_contents().len() + n <= self.spec_max_bytes()
    }

    /// Creates an empty segment with the provided starting offset.
    pub fn new(base_directory: &str, max_segment_bytes: u64, offset: u16) -> (s: VirtualSegment)
        ensures
            s.wf(),
            s.tidy(),
            s.spec_contents() == Seq::<u8>::empty(),
            s.spec_entries() == Seq::<Entry>::empty(),
            s.spec_max_bytes() == max_segment_bytes,
            s.spec_starting_offset() == offset,
            s.spec_next_offset() == 0,
            s.spec_full_log_path() == spec_segment_file_name(base_directory@, offset, LOG_SUFFIX@),
            s.spec_index_path() == spec_segment_file_name(base_directory@, offset, INDEX_SUFFIX@),
    {
        let log_file_path = create_segment_file_name(base_directory, offset, LOG_SUFFIX);
        let index_file_name = create_segment_file_name(base_directory, offset, INDEX_SUFFIX);
        let new_virtual_index = VirtualIndex::new(index_file_name);
        VirtualSegment {
            contents: Vec::new(),
            position: 0,
            max_bytes: max_segment_bytes,
            starting_offset: offset,
            next_offset: 0,
            index: new_virtual_index,
            full_log_path: log_file_path,
        }
    }

    /// Builds the segment starting at `segment_offset` in `base_directory`
    /// from the bytes of its log file and of its index file.
    pub fn load_segment(
        base_directory: &str,
        segment_offset: u16,
        max_segment_bytes: u64,
        log_bytes: Vec<u8>,
        index_bytes: &[u8],
    ) -> (r: Result<VirtualSegment, SegmentError>)
        ensures
            match r {
                Ok(s) => {
                    &&& s.wf()
                    &&& s.tidy()
                    &&& s.spec_contents() == log_bytes@
                    &&& s.spec_entries() == spec_decode_entries(index_bytes@)
                    &&& s.spec_max_bytes() == max_segment_bytes
                    &&& s.spec_starting_offset() == segment_offset
                    &&& s.spec_full_log_path() == spec_segment_file_name(
                        base_directory@,
                        segment_offset,
                        LOG_SUFFIX@,
                    )
                    &&& s.spec_index_path() == spec_segment_file_name(
                        base_directory@,
                        segment_offset,
                        INDEX_SUFFIX@,
                    )
                },
                Err(e) => {
                    ||| (log_bytes@.len() > u32::MAX && e@ == "unable to convert from u64 to u32"@)
                    ||| (log_bytes@.len() <= u32::MAX && spec_decode_entries(index_bytes@).len()
                        > u16::MAX && e@ == "unable to load index"@)
                },
            },
    {
        let log_file_name = create_segment_file_name(base_directory, segment_offset, LOG_SUFFIX);
        let total_bytes_read = log_bytes.len();
        if total_bytes_read > 4294967295 {
            return Err(SegmentError::new("unable to convert from u64 to u32"));
        }
        let current_segment_position = total_bytes_read as u32;
        let index_file_name = create_segment_file_name(base_directory, segment_offset, INDEX_SUFFIX);
        let mut loaded_index = VirtualIndex::new(index_file_name);
        let total_entries = match loaded_index.load_index(index_bytes) {
            Ok(n) => n,
            Err(_) => {
                return Err(SegmentError::new("unable to load index"));
            },
        };
        assert(loaded_index@ =~= spec_decode_entries(index_bytes@));
        Ok(
            VirtualSegment {
                contents: log_bytes,
                position: current_segment_position,
                max_bytes: max_segment_bytes,
                starting_offset: segment_offset,
                next_offset: total_entries,
                index: loaded_index,
                full_log_path: log_file_name,
            },
        )
    }

    /// Given a byte array, writes that data to the log and adds its entry to
    /// the index. Returns the offset in the segment that was written to.
    pub fn write(&mut self, data: &[u8]) -> (r: Result<u16, SegmentError>)
        requires
            old(self).wf(),
            old(self).spec_accepts(data@.len() as int) && data@.len() <= u32::MAX ==> {
                &&& old(self).spec_position() + data@.len() <= u32::MAX
                &&& old(self).spec_next_offset() < u16::MAX
            },
        ensures
            final(self).wf(),
            final(self).spec_starting_offset() == old(self).spec_starting_offset(),
            final(self).spec_max_bytes() == old(self).spec_max_bytes(),
            final(self).spec_full_log_path() == old(self).spec_full_log_path(),
            final(self).spec_index_path() == old(self).spec_index_path(),
            match r {
                Ok(offset) => {
                    &&& old(self).spec_accepts(data@.len() as int)
                    &&& data@.len() <= u32::MAX
                    &&& spec_wrote(*old(self), data@, *final(self))
                    &&& offset == old(self).spec_next_offset()
                    &&& final(self).spec_next_offset() == old(self).spec_next_offset() + 1
                    &&& final(self).spec_contents() == old(self).spec_contents() + data@
                    &&& final(self).spec_position() == old(self).spec_position() + data@.len()
                    &&& final(self).spec_entries() == old(self).spec_entries().push(
                        Entry { start: old(self).spec_position(), total: data@.len() as u32 },
                    )
                },
                Err(e) => {
                    &&& final(self).spec_next_offset() == old(self).spec_next_offset()
                    &&& final(self).spec_entries() == old(self).spec_entries()
                    &&& final(self).spec_position() == old(self).spec_position()
                    &&& if data@.len() > old(self).spec_max_bytes() {
                        &&& e@ == "Data to write is greater than the allowed max segment size"@
                        &&& final(self).spec_contents() == old(self).spec_contents()
                    } else if !old(self).spec_accepts(data@.len() as int) {
                        &&& e@ == "Write not possible. Segment log would be greater than max bytes"@
                        &&& final(self).spec_contents() == old(self).spec_contents()
                    } else {
                        &&& data@.len() > u32::MAX
                        &&& e@ == "unable to convert from usize to u32"@
                        &&& final(self).spec_contents() == old(self).spec_contents() + data@
                    }
                },
            },
    {
        let data_len = data.len() as u64;
        if data_len > self.max_bytes {
            return Err(SegmentError::new("Data to write is greater than the allowed max segment size"));
        }
        let current_len = self.contents.len() as u64;
        if current_len > self.max_bytes - data_len {
            return Err(SegmentError::new("Write not possible. Segment log would be greater than max bytes"));
        }
        extend_bytes(&mut self.contents, data);
        if data.len() > 4294967295 {
            return Err(SegmentError::new("unable to convert from usize to u32"));
        }
        let written_bytes = data.len() as u32;
        match self.index.add_entry(self.position, written_bytes) {
            Ok(_) => {},
            Err(_) => {
                return Err(SegmentError::new("unable to add entry to index"));
            },
        }
        self.position = self.position + written_bytes;
        let offset_written = self.next_offset;
        self.next_offset = self.next_offset + 1;
        Ok(offset_written)
    }

    /// Given an offset (counted from the start of the commit log), finds its
    /// entry in the index and returns its bytes from the log.
    pub fn read_at(&mut self, offset: usize) -> (r: Result<Vec<u8>, SegmentError>)
        requires
            old(self).wf(),
        ensures
            *final(self) == *old(self),
            match (r, old(self).spec_read_at(offset as int)) {
                (Ok(bytes), Ok(data)) => bytes@ == data,
                (Err(e), Err(msg)) => e@ == msg,
                _ => false,
            },
    {
        let start_offset = self.starting_offset as usize;
        let count = self.next_offset as usize;
        if offset < start_offset || offset - start_offset >= count {
            return Err(SegmentError::new("offset is out of bounds"));
        }
        let (start, total) = match self.index.return_entry_details_by_offset(offset - start_offset) {
            Ok(details) => details,
            Err(_) => {
                return Err(SegmentError::new("unable to get entry details from index"));
            },
        };
        let len = self.contents.len() as u64;
        if start <= len && (total as u64) <= len - start {
            Ok(copy_range(self.contents.as_slice(), start as usize, total))
        } else if total == 0 {
            Ok(Vec::new())
        } else {
            Err(SegmentError::new("unable to read into buffer"))
        }
    }

    /// The bytes of the log file.
    pub fn contents(&self) -> (s: &[u8])
        ensures
            s@ == self.spec_contents(),
    {
        self.contents.as_slice()
    }

    /// The bytes of the index file.
    pub fn index_contents(&self) -> (s: &[u8])
        ensures
            s@ == self.spec_index_contents(),
    {
        self.index.contents()
    }

    /// The path of the index file.
    pub fn index_file_path(&self) -> (p: String)
        ensures
            p@ == self.spec_index_path(),
    {
        self.index.full_index_file_path()
    }

    /// The entry of the message at `offset` within the segment.
    pub fn entry(&self, offset: usize) -> (e: Option<Entry>)
        ensures
            offset < self.spec_entries().len() ==> e == Some(self.spec_entries()[offset as int]),
            offset >= self.spec_entries().len() ==> e is None,
    {
        self.index.get(offset)
    }

    /// The field `starting_offset`: the offset of the first message of the
    /// segment in the commit log.
    pub fn starting_offset(&self) -> (o: u16)
        ensures
            o == self.spec_starting_offset(),
    {
        self.starting_offset
    }

    /// The field `next_offset`: the number of messages written to the segment.
    pub fn next_offset(&self) -> (o: u16)
        ensures
            o == self.spec_next_offset(),
    {
        self.next_offset
    }

    /// The field `full_log_path`: the path of the log file.
    pub fn full_log_path(&self) -> (p: String)
        ensures
            p@ == self.spec_full_log_path(),
    {
        self.full_log_path.clone()
    }
}

/// Every entry of the segment lies within its log.
pub open spec fn spec_entries_fit(s: VirtualSegment) -> bool {
    forall|i: int|
        0 <= i < s.spec_entries().len() ==> #[trigger] s.spec_entries()[i].start
            + s.spec_entries()[i].total <= s.spec_contents().len()
}

/// A successful write of `data` turned `old` into `new`.
pub open spec fn spec_wrote(old: VirtualSegment, data: Seq<u8>, new: VirtualSegment) -> bool {
    &&& new.spec_starting_offset() == old.spec_starting_offset()
    &&& new.spec_next_offset() == old.spec_next_offset() + 1
    &&& new.spec_contents() == old.spec_contents() + data
    &&& new.spec_entries() == old.spec_entries().push(
        Entry { start: old.spec_position(), total: data.len() as u32 },
    )
}

/// Law: reading the offset a write got gives the bytes written, and every
/// other offset reads as before the write.
pub proof fn lemma_segment_read_after_write(old: VirtualSegment, data: Seq<u8>, new: VirtualSegment, offset: int)
    requires
        old.wf(),
        old.tidy(),
        spec_entries_fit(old),
        data.len() <= u32::MAX,
        spec_wrote(old, data, new),
    ensures
        new.spec_read_at(old.spec_starting_offset() + old.spec_next_offset()) == Ok::<Seq<u8>, Seq<char>>(data),
        offset != old.spec_starting_offset() + old.spec_next_offset() ==> new.spec_read_at(offset)
            == old.spec_read_at(offset),
{
    let n = old.spec_entries().len();
    assert(new.spec_entries()[n as int] == Entry { start: old.spec_position(), total: data.len() as u32 });
    assert(new.spec_contents().subrange(
        old.spec_position() as int,
        old.spec_position() + data.len(),
    ) =~= data);
    if offset != old.spec_starting_offset() + old.spec_next_offset() && old.spec_starting_offset() <= offset
        < old.spec_starting_offset() + old.spec_next_offset() {
        let k = offset - old.spec_starting_offset();
        let e = old.spec_entries()[k];
        assert(new.spec_entries()[k] == e);
        assert(e.start + e.total <= old.spec_contents().len());
        assert(new.spec_contents().subrange(e.start as int, e.start + e.total) =~= old.spec_contents().subrange(
            e.start as int,
            e.start + e.total,
        ));
    }
}

/// Law: a segment loaded from the bytes of the log and of the index that a
/// segment holds (the bytes a flush writes) reads as that segment does.
pub proof fn lemma_flush_load_roundtrip(s: VirtualSegment, loaded: VirtualSegment, offset: int)
    requires
        s.wf(),
        loaded.wf(),
        loaded.spec_contents() == s.spec_contents(),
        loaded.spec_entries() == spec_decode_entries(s.spec_index_contents()),
        loaded.spec_starting_offset() == s.spec_starting_offset(),
    ensures
        loaded.spec_read_at(offset) == s.spec_read_at(offset),
{
    crate::index::lemma_entries_roundtrip(s.spec_entries());
}


/// `segs` are the states of a segment through the successful writes of
/// `datas`, one after the other.
pub open spec fn spec_write_run(segs: Seq<VirtualSegment>, datas: Seq<Seq<u8>>) -> bool {
    &&& segs.len() == datas.len() + 1
    &&& forall|i: int| #![trigger segs[i]] 0 <= i < segs.len() ==> segs[i].wf() && segs[i].tidy()
    &&& forall|i: int|
        #![trigger datas[i]]
        0 <= i < datas.len() ==> spec_wrote(segs[i], datas[i], segs[i + 1]) && datas[i].len() <= u32::MAX
}

/// Along a run of writes the starting offset stays, the next offset counts
/// the writes, and every entry lies within the log.
proof fn lemma_write_run_shape(segs: Seq<VirtualSegment>, datas: Seq<Seq<u8>>, k: int)
    requires
        spec_write_run(segs, datas),
        segs[0].spec_next_offset() == 0,
        0 <= k <= datas.len(),
    ensures
        segs[k].spec_starting_offset() == segs[0].spec_starting_offset(),
        segs[k].spec_next_offset() == k,
        spec_entries_fit(segs[k]),
    decreases k,
{
    if k > 0 {
        lemma_write_run_shape(segs, datas, k - 1);
        let old = segs[k - 1];
        let new = segs[k];
        assert(spec_wrote(old, datas[k - 1], new));
        assert(old.wf() && old.tidy());
        assert forall|i: int| 0 <= i < new.spec_entries().len() implies #[trigger] new.spec_entries()[i].start
            + new.spec_entries()[i].total <= new.spec_contents().len() by {
            if i < old.spec_entries().len() {
                assert(new.spec_entries()[i] == old.spec_entries()[i]);
            }
        }
    } else {
        assert(segs[0].wf());
    }
}

/// Law: after a run of successful writes on a segment that held no message,
/// the message at each offset of the run reads back as the bytes written
/// there, and every offset outside the run is out of bounds.
pub proof fn lemma_write_run_reads_back(segs: Seq<VirtualSegment>, datas: Seq<Seq<u8>>, offset: int)
    requires
        spec_write_run(segs, datas),
        segs[0].spec_next_offset() == 0,
    ensures
        ({
            let start = segs[0].spec_starting_offset() as int;
            let last = segs[datas.len() as int];
            &&& start <= offset < start + datas.len() ==> last.spec_read_at(offset) == Ok::<
                Seq<u8>,
                Seq<char>,
            >(datas[offset - start])
            &&& !(start <= offset < start + datas.len()) ==> last.spec_read_at(offset) == Err::<
                Seq<u8>,
                Seq<char>,
            >("offset is out of bounds"@)
        }),
    decreases datas.len(),
{
    let n = datas.len() as int;
    let start = segs[0].spec_starting_offset() as int;
    lemma_write_run_shape(segs, datas, n);
    if n > 0 && start <= offset < start + n {
        let psegs = segs.drop_last();
        let pdatas = datas.drop_last();
        assert(spec_write_run(psegs, pdatas)) by {
            assert forall|i: int| #![trigger psegs[i]] 0 <= i < psegs.len() implies psegs[i].wf() && psegs[i].tidy() by {
                assert(psegs[i] == segs[i]);
                assert(segs[i].wf() && segs[i].tidy());
            }
            assert forall|i: int| #![trigger pdatas[i]] 0 <= i < pdatas.len() implies spec_wrote(psegs[i], pdatas[i], psegs[i + 1])
                && pdatas[i].len() <= u32::MAX by {
                assert(pdatas[i] == datas[i]);
                assert(spec_wrote(segs[i], datas[i], segs[i + 1]) && datas[i].len() <= u32::MAX);
            }
        }
        lemma_write_run_shape(segs, datas, n - 1);
        let old = segs[n - 1];
        let new = segs[n];
        assert(spec_wrote(old, datas[n - 1], new) && datas[n - 1].len() <= u32::MAX);
        lemma_segment_read_after_write(old, datas[n - 1], new, offset);
        if offset < start + n - 1 {
            lemma_write_run_reads_back(psegs, pdatas, offset);
            assert(psegs[n - 1] == old);
            assert(pdatas[offset - start] == datas[offset - start]);
        }
    }
}

} // verus!

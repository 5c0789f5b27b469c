//! A segment of the commit log: a log file holding the messages one after
//! the other and an index file locating each of them.
//!
//! The segment keeps the bytes of its log file in memory; the files
//! themselves are written and removed by the caller.
use vstd::prelude::*;
use crate::bytes_util::{extend_bytes, copy_range};
use crate::index::{spec_encode_entries, Entry, Index, spec_decode_entries};
use crate::nolan_errors::SegmentError;
use crate::text::{parse_u16, spec_parse_u16};
use crate::utils::{spec_segment_file_name, LOG_SUFFIX, INDEX_SUFFIX};
use crate::virtual_segment::spec_entry_data;

verus! {

/// The largest size of the log of a segment loaded from its files.
pub const LOADED_SEGMENT_MAX_BYTES: u64 = 255;

/// A segment of the commit log.
pub struct Segment {
    pub file_name: String,
    pub position: u32,
    max_bytes: u64,
    pub starting_offset: u16,
    pub next_offset: u16,
    pub directory: String,
    contents: Vec<u8>,
    index: Index,
}

impl Segment {
    /// The path of the log file.
    pub closed spec fn spec_file_name(&self) -> Seq<char> {
        self.file_name@
    }

    /// The position where the next message is recorded to start.
    pub closed spec fn spec_position(&self) -> u32 {
        self.position
    }

    /// The size beyond which the log takes no more messages.
    pub closed spec fn spec_max_bytes(&self) -> u64 {
        self.max_bytes
    }

    /// The offset of the first message of the segment in the commit log.
    pub closed spec fn spec_starting_offset(&self) -> u16 {
        self.starting_offset
    }

    /// The offset, in the commit log, of the next message of the segment.
    pub closed spec fn spec_next_offset(&self) -> u16 {
        self.next_offset
    }

    /// The directory of the segment's files.
    pub closed spec fn spec_directory(&self) -> Seq<char> {
        self.directory@
    }

    /// The bytes of the log file.
    pub closed spec fn spec_contents(&self) -> Seq<u8> {
        self.contents@
    }

    /// The entries of the index.
    pub closed spec fn spec_entries(&self) -> Seq<Entry> {
        self.index@
    }

    /// The path of the index file.
    pub closed spec fn spec_index_file_name(&self) -> Seq<char> {
        self.index.spec_file_name()
    }

    /// The segment is consistent: one entry per message from its starting
    /// offset to its next offset.
    pub open spec fn wf(&self) -> bool {
        &&& self.spec_starting_offset() <= self.spec_next_offset()
        &&& self.spec_next_offset() - self.spec_starting_offset() == self.spec_entries().len()
    }

    /// Messages are recorded where they are written: the recorded position
    /// is the end of the log and every entry lies before it.
    pub open spec fn tidy(&self) -> bool {
        &&& self.spec_position() == self.spec_contents().len()
        &&& forall|i: int|
            0 <= i < self.spec_entries().len() ==> #[trigger] self.spec_entries()[i].start
                + self.spec_entries()[i].total <= self.spec_position()
    }

    /// Every entry of the index lies within the log: each message can be
    /// read.
    pub open spec fn entries_in_log(&self) -> bool {
        forall|i: int|
            0 <= i < self.spec_entries().len() ==> #[trigger] self.spec_entries()[i].start
                + self.spec_entries()[i].total <= self.spec_contents().len()
    }

    /// The number of messages of the segment.
    pub open spec fn spec_len(&self) -> int {
        self.spec_next_offset() - self.spec_starting_offset()
    }

    /// The segment holds the message at `offset` of the commit log.
    pub open spec fn holds(&self, offset: int) -> bool {
        self.spec_starting_offset() <= offset < self.spec_next_offset()
    }

    /// The bytes of the message at position `i` within the segment.
    pub open spec fn spec_message(&self, i: int) -> Seq<u8> {
        let e = self.spec_entries()[i];
        self.spec_contents().subrange(e.start as int, e.start + e.total)
    }

    /// The outcome of reading the message at `offset` within the segment.
    pub open spec fn spec_read_at(&self, offset: int) -> Result<Seq<u8>, Seq<char>> {
        if offset >= self.spec_len() {
            Err("offset is out of bounds"@)
        } else if offset >= self.spec_entries().len() {
            Err("unable to get entry details from index"@)
        } else {
            match spec_entry_data(self.spec_contents(), self.spec_entries()[offset]) {
                Some(data) => Ok(data),
                None => Err("unable to read into buffer"@),
            }
        }
    }

    /// The log takes another message: it is not yet beyond its largest size.
    pub open spec fn spec_has_room(&self) -> bool {
        self.spec_contents().len() <= self.spec_max_bytes()
    }

    /// A successful write of `data` turned `old` into `new`.
    pub open spec fn spec_wrote(old: Segment, data: Seq<u8>, new: Segment) -> bool {
        &&& new.spec_contents() == old.spec_contents() + data
        &&& new.spec_entries() == old.spec_entries().push(
            Entry { start: old.spec_position(), total: data.len() as u32 },
        )
        &&& new.spec_position() == old.spec_position() + data.len()
        &&& new.spec_next_offset() == old.spec_next_offset() + 1
        &&& new.spec_starting_offset() == old.spec_starting_offset()
        &&& new.spec_max_bytes() == old.spec_max_bytes()
        &&& new.spec_file_name() == old.spec_file_name()
        &&& new.spec_index_file_name() == old.spec_index_file_name()
        &&& new.spec_directory() == old.spec_directory()
    }

    /// `s` is a new, empty segment starting at `offset` in `directory`.
    pub open spec fn spec_fresh(s: Segment, directory: Seq<char>, max_bytes: u64, offset: u16) -> bool {
        &&& s.spec_contents() == Seq::<u8>::empty()
        &&& s.spec_entries() == Seq::<Entry>::empty()
        &&& s.spec_position() == 0
        &&& s.spec_max_bytes() == max_bytes
        &&& s.spec_starting_offset() == offset
        &&& s.spec_next_offset() == offset
        &&& s.spec_directory() == directory
        &&& s.spec_file_name() == spec_segment_file_name(directory, offset, LOG_SUFFIX@)
        &&& s.spec_index_file_name() == spec_segment_file_name(directory, offset, INDEX_SUFFIX@)
    }

    /// Creates a new segment with the provided starting offset.
    pub fn new(base_directory: String, max_segment_bytes: u64, offset: u16) -> (s: Segment)
        ensures
            s.wf(),
            s.tidy(),
            Segment::spec_fresh(s, base_directory@, max_segment_bytes, offset),
    {
        let log_file_name = Self::create_segment_file_name(
            base_directory.clone(),
            offset,
            crate::text::to_owned_string(LOG_SUFFIX),
        );
        let index_file_name = Self::create_segment_file_name(
            base_directory.clone(),
            offset,
            crate::text::to_owned_string(INDEX_SUFFIX),
        );
        let new_index = Index::new(index_file_name.as_str());
        Segment {
            file_name: log_file_name,
            position: 0,
            max_bytes: max_segment_bytes,
            starting_offset: offset,
            next_offset: offset,
            directory: base_directory,
            contents: Vec::new(),
            index: new_index,
        }
    }

    /// Builds the segment named `segment_base` in `base_directory` from the
    /// bytes of its log file and of its index file.
    pub fn load_segment(
        base_directory: String,
        segment_base: String,
        log_bytes: Vec<u8>,
        index_bytes: &[u8],
    ) -> (r: Result<Segment, SegmentError>)
        requires
            spec_parse_u16(segment_base@) matches Some(offset) ==> (log_bytes@.len() <= u32::MAX
                && spec_decode_entries(index_bytes@).len() <= u16::MAX ==> offset
                + spec_decode_entries(index_bytes@).len() <= u16::MAX),
        ensures
            match r {
                Ok(s) => {
                    &&& spec_parse_u16(segment_base@) == Some(s.spec_starting_offset())
                    &&& s.wf()
                    &&& s.spec_position() == log_bytes@.len()
                    &&& s.spec_contents() == log_bytes@
                    &&& s.spec_entries() == spec_decode_entries(index_bytes@)
                    &&& s.spec_next_offset() == s.spec_starting_offset() + s.spec_entries().len()
                    &&& s.spec_max_bytes() == LOADED_SEGMENT_MAX_BYTES
                    &&& s.spec_directory() == base_directory@
                    &&& s.spec_file_name() == spec_segment_file_name(
                        base_directory@,
                        s.spec_starting_offset(),
                        LOG_SUFFIX@,
                    )
                    &&& s.spec_index_file_name() == spec_segment_file_name(
                        base_directory@,
                        s.spec_starting_offset(),
                        INDEX_SUFFIX@,
                    )
                },
                Err(e) => {
                    ||| (spec_parse_u16(segment_base@) is None
                        && e@ == "unable to parse base string into u16"@)
                    ||| (spec_parse_u16(segment_base@) is Some && log_bytes@.len() > u32::MAX
                        && e@ == "unable to convert from u64 to u32"@)
                    ||| (spec_parse_u16(segment_base@) is Some && log_bytes@.len() <= u32::MAX
                        && spec_decode_entries(index_bytes@).len() > u16::MAX
                        && e@ == "unable to load index"@)
                },
            },
    {
        let segment_offset = match parse_u16(segment_base.as_str()) {
            Some(o) => o,
            None => {
                return Err(SegmentError::new("unable to parse base string into u16"));
            },
        };
        let log_file_name = Self::create_segment_file_name(
            base_directory.clone(),
            segment_offset,
            crate::text::to_owned_string(LOG_SUFFIX),
        );
        if log_bytes.len() > 4294967295 {
            return Err(SegmentError::new("unable to convert from u64 to u32"));
        }
        let current_segment_position = log_bytes.len() as u32;
        let index_file_name = Self::create_segment_file_name(
            base_directory.clone(),
            segment_offset,
            crate::text::to_owned_string(INDEX_SUFFIX),
        );
        let mut loaded_index = Index::new(index_file_name.as_str());
        let mut total_entries = match loaded_index.load_index(index_bytes) {
            Ok(n) => n,
            Err(_) => {
                return Err(SegmentError::new("unable to load index"));
            },
        };
        assert(loaded_index@ =~= spec_decode_entries(index_bytes@));
        total_entries = total_entries + segment_offset;
        Ok(
            Segment {
                file_name: log_file_name,
                position: current_segment_position,
                max_bytes: LOADED_SEGMENT_MAX_BYTES,
                starting_offset: segment_offset,
                next_offset: total_entries,
                directory: base_directory,
                contents: log_bytes,
                index: loaded_index,
            },
        )
    }

    /// Reloads the segment with the most up to date bytes of its log file
    /// and of its index file.
    pub fn reload(&mut self, log_bytes: Vec<u8>, index_bytes: &[u8]) -> (r: Result<
        bool,
        SegmentError,
    >)
        requires
            spec_decode_entries(index_bytes@).len() <= u16::MAX ==> old(
                self,
            ).spec_starting_offset() + spec_decode_entries(index_bytes@).len() <= u16::MAX,
        ensures
            final(self).spec_contents() == log_bytes@,
            final(self).spec_entries() == spec_decode_entries(index_bytes@),
            final(self).spec_position() == old(self).spec_position(),
            final(self).spec_starting_offset() == old(self).spec_starting_offset(),
            final(self).spec_max_bytes() == old(self).spec_max_bytes(),
            final(self).spec_file_name() == old(self).spec_file_name(),
            final(self).spec_index_file_name() == old(self).spec_index_file_name(),
            final(self).spec_directory() == old(self).spec_directory(),
            match r {
                Ok(b) => b && final(self).spec_next_offset() == old(self).spec_starting_offset()
                    + final(self).spec_entries().len(),
                Err(e) => final(self).spec_next_offset() == old(self).spec_next_offset()
                    && final(self).spec_entries().len() > u16::MAX && e@
                    == "unable to reload index"@,
            },
    {
        self.contents = log_bytes;
        let mut total_entries = match self.index.reload_index(index_bytes) {
            Ok(n) => n,
            Err(_) => {
                return Err(SegmentError::new("unable to reload index"));
            },
        };
        total_entries = total_entries + self.starting_offset;
        self.next_offset = total_entries;
        Ok(true)
    }

    /// Given a byte array, writes that data to the log and adds its entry to
    /// the index.
    pub fn write(&mut self, data: &[u8]) -> (r: Result<bool, SegmentError>)
        requires
            old(self).spec_has_room() && data@.len() <= u32::MAX ==> {
                &&& old(self).spec_position() + data@.len() <= u32::MAX
                &&& old(self).spec_next_offset() < u16::MAX
            },
        ensures
            old(self).wf() ==> final(self).wf(),
            old(self).tidy() && r is Ok ==> final(self).tidy(),
            !old(self).spec_has_room() ==> *final(self) == *old(self),
            match r {
                Ok(b) => {
                    &&& b
                    &&& old(self).spec_has_room()
                    &&& data@.len() <= u32::MAX
                    &&& Segment::spec_wrote(*old(self), data@, *final(self))
                },
                Err(e) => {
                    &&& final(self).spec_entries() == old(self).spec_entries()
                    &&& final(self).spec_position() == old(self).spec_position()
                    &&& final(self).spec_next_offset() == old(self).spec_next_offset()
                    &&& final(self).spec_starting_offset() == old(self).spec_starting_offset()
                    &&& final(self).spec_max_bytes() == old(self).spec_max_bytes()
                    &&& final(self).spec_file_name() == old(self).spec_file_name()
                    &&& final(self).spec_index_file_name() == old(self).spec_index_file_name()
                    &&& final(self).spec_directory() == old(self).spec_directory()
                    &&& if !old(self).spec_has_room() {
                        &&& e@ == "Write not possible. Segment log would be greater than max bytes"@
                        &&& final(self).spec_contents() == old(self).spec_contents()
                    } else {
                        &&& data@.len() > u32::MAX
                        &&& e@ == "unable to convert from usize to u32"@
                        &&& final(self).spec_contents() == old(self).spec_contents() + data@
                    }
                },
            },
    {
        let computed_size_bytes = self.contents.len() as u64;
        let ghost old_entries = self.index@;
        if computed_size_bytes > self.max_bytes {
            return Err(SegmentError::new("Write not possible. Segment log would be greater than max bytes"));
        }
        extend_bytes(&mut self.contents, data);
        if data.len() > 4294967295 {
            return Err(SegmentError::new("unable to convert from usize to u32"));
        }
        let written_bytes = data.len() as u32;
        self.index.add_entry(self.position, written_bytes);
        self.position = self.position + written_bytes;
        self.next_offset = self.next_offset + 1;
        Ok(true)
    }

    /// Given an offset within the segment, finds its entry in the index and
    /// returns its bytes from the log.
    pub fn read_at(&mut self, offset: usize) -> (r: Result<Vec<u8>, SegmentError>)
        requires
            old(self).spec_starting_offset() <= old(self).spec_next_offset(),
        ensures
            *final(self) == *old(self),
            match (r, old(self).spec_read_at(offset as int)) {
                (Ok(bytes), Ok(data)) => bytes@ == data,
                (Err(e), Err(msg)) => e@ == msg,
                _ => false,
            },
    {
        self.read_message(offset)
    }

    /// Reads the message at `offset` within the segment, leaving the
    /// segment as it is.
    pub fn read_message(&self, offset: usize) -> (r: Result<Vec<u8>, SegmentError>)
        requires
            self.spec_starting_offset() <= self.spec_next_offset(),
        ensures
            match (r, self.spec_read_at(offset as int)) {
                (Ok(bytes), Ok(data)) => bytes@ == data,
                (Err(e), Err(msg)) => e@ == msg,
                _ => false,
            },
    {
        let count = (self.next_offset - self.starting_offset) as usize;
        if (self.starting_offset == 0 && offset >= self.next_offset as usize) || offset >= count {
            return Err(SegmentError::new("offset is out of bounds"));
        }
        let (start, total) = match self.index.return_entry_details_by_offset(offset) {
            Ok(details) => details,
            Err(_) => {
                return Err(SegmentError::new("unable to get entry details from index"));
            },
        };
        let len = self.contents.len() as u64;
        if start <= len && (total as u64) <= len - start {
            Ok(copy_range(self.contents.as_slice(), start as usize, total))
        } else if total == 0 {
            Ok(Vec::new())
        } else {
            Err(SegmentError::new("unable to read into buffer"))
        }
    }

    /// Given a directory, a starting offset and a file type suffix, creates
    /// and returns the path to the file.
    pub fn create_segment_file_name(directory: String, starting_offset: u16, suffix: String) -> (p:
        String)
        ensures
            p@ == spec_segment_file_name(directory@, starting_offset, suffix@),
    {
        crate::utils::create_segment_file_name(directory.as_str(), starting_offset, suffix.as_str())
    }

    /// The position where the next message is recorded to start.
    pub fn get_position(&self) -> (p: u32)
        ensures
            p == self.spec_position(),
    {
        self.position
    }

    /// The offset of the first message of the segment in the commit log.
    pub fn get_starting_offset(&self) -> (o: u16)
        ensures
            o == self.spec_starting_offset(),
    {
        self.starting_offset
    }

    /// The offset, in the commit log, of the next message of the segment.
    pub fn get_next_offset(&self) -> (o: u16)
        ensures
            o == self.spec_next_offset(),
    {
        self.next_offset
    }

    /// The path of the log file.
    pub fn get_file_name(&self) -> (p: String)
        ensures
            p@ == self.spec_file_name(),
    {
        self.file_name.clone()
    }

    /// The bytes of the log file.
    pub fn contents(&self) -> (s: &[u8])
        ensures
            s@ == self.spec_contents(),
    {
        self.contents.as_slice()
    }

    /// The path of the index file.
    pub fn index_file_name(&self) -> (p: String)
        ensures
            p@ == self.spec_index_file_name(),
    {
        self.index.get_file_name()
    }

    /// Tells whether the segment records its messages where they are
    /// written.
    pub fn is_tidy(&self) -> (b: bool)
        ensures
            b == self.tidy(),
    {
        let position = self.get_position();
        if position as usize != self.contents().len() {
            return false;
        }
        let es = self.entries();
        let mut i: usize = 0;
        while i < es.len()
            invariant
                es@ == self.spec_entries(),
                position == self.spec_position(),
                i <= es@.len(),
                forall|k: int| 0 <= k < i ==> #[trigger] es@[k].start + es@[k].total <= position,
            decreases es@.len() - i,
        {
            if es[i].start as u64 + es[i].total as u64 > position as u64 {
                return false;
            }
            i = i + 1;
        }
        true
    }

    /// Tells whether every entry of the index lies within the log.
    pub fn has_entries_in_log(&self) -> (b: bool)
        ensures
            b == self.entries_in_log(),
    {
        let len = self.contents().len() as u64;
        let es = self.entries();
        let mut i: usize = 0;
        while i < es.len()
            invariant
                es@ == self.spec_entries(),
                len == self.spec_contents().len(),
                i <= es@.len(),
                forall|k: int| 0 <= k < i ==> #[trigger] es@[k].start + es@[k].total <= len,
            decreases es@.len() - i,
        {
            if es[i].start as u64 + es[i].total as u64 > len {
                return false;
            }
            i = i + 1;
        }
        true
    }

    /// The log takes another message: it is not yet beyond its largest
    /// size.
    pub fn has_room(&self) -> (b: bool)
        ensures
            b == self.spec_has_room(),
    {
        (self.contents.len() as u64) <= self.max_bytes
    }

    /// The bytes of the index file: the entries, in order.
    pub fn index_bytes(&self) -> (bytes: Vec<u8>)
        ensures
            bytes@ == spec_encode_entries(self.spec_entries()),
    {
        crate::index::encode_entries(&self.entries())
    }

    /// The entries of the index, in order.
    pub fn entries(&self) -> (es: Vec<Entry>)
        ensures
            es@ == self.spec_entries(),
    {
        let mut es: Vec<Entry> = Vec::new();
        let n = self.index.len();
        let mut i: usize = 0;
        while i < n
            invariant
                n == self.spec_entries().len(),
                i <= n,
                es@ == self.spec_entries().subrange(0, i as int),
            decreases n - i,
        {
            match self.index.return_entry_details_by_offset(i) {
                Ok((start, total)) => {
                    es.push(Entry { start: start as u32, total: total as u32 });
                },
                Err(_) => {},
            }
            i = i + 1;
            assert(es@ =~= self.spec_entries().subrange(0, i as int));
        }
        assert(es@ =~= self.spec_entries());
        es
    }
}

/// Law: a segment loaded from the bytes of its log file and of its index
/// file (its contents and its entries, as `contents` and `index_bytes`
/// give them) reads as the segment it was stored from.
pub proof fn lemma_store_load_roundtrip(s: Segment, loaded: Segment, offset: int)
    requires
        s.wf(),
        loaded.wf(),
        loaded.spec_contents() == s.spec_contents(),
        loaded.spec_entries() == spec_decode_entries(spec_encode_entries(s.spec_entries())),
        loaded.spec_starting_offset() == s.spec_starting_offset(),
    ensures
        loaded.spec_read_at(offset) == s.spec_read_at(offset),
{
    crate::index::lemma_entries_roundtrip(s.spec_entries());
}

} // verus!

//! The commit log: an append-only sequence of messages, addressed by
//! offset, kept in segments of bounded size; the oldest segments are
//! removed by the cleaner once the segments hold more than it retains.
use vstd::prelude::*;
use crate::cleaner::{
    Cleaner, spec_sum_last, spec_removed_count, spec_count_fits,
    lemma_kept_from_is_least, lemma_sum_last_suffix,
};
use crate::segment::Segment;
use crate::index::{Entry, spec_decode_entries};
use crate::segment_files::spec_views;
use crate::text::{parse_u16, spec_parse_u16};

verus! {

/// The answer to a read of an offset that the commit log does not hold.
pub open spec fn spec_not_in_log() -> Seq<char> {
    "Offset does not exist in the commitlog"@
}

/// The segments start at non-decreasing offsets.
pub open spec fn spec_sorted(segs: Seq<Segment>) -> bool {
    forall|i: int, j: int|
        0 <= i < j < segs.len() ==> #[trigger] segs[i].spec_starting_offset()
            <= #[trigger] segs[j].spec_starting_offset()
}

/// Among the first `n` segments, the newest one that starts at or before
/// `offset`, or -1 when there is none.
pub open spec fn spec_segment_for(segs: Seq<Segment>, offset: int, n: int) -> int
    decreases n,
{
    if n <= 0 {
        -1
    } else if segs[n - 1].spec_starting_offset() <= offset {
        n - 1
    } else {
        spec_segment_for(segs, offset, n - 1)
    }
}

/// The outcome of reading `offset` from a log made of `segs`: the message
/// read from the newest segment starting at or before `offset`.
pub open spec fn spec_log_read(segs: Seq<Segment>, offset: int) -> Result<Seq<u8>, Seq<char>> {
    let i = spec_segment_for(segs, offset, segs.len() as int);
    if i < 0 {
        Err(spec_not_in_log())
    } else {
        match segs[i].spec_read_at(offset - segs[i].spec_starting_offset()) {
            Ok(data) => Ok(data),
            Err(msg) => if msg == "offset is out of bounds"@ {
                Err(spec_not_in_log())
            } else {
                Err(msg)
            },
        }
    }
}

/// The sum of the log bytes of all segments.
pub open spec fn spec_total_bytes(segs: Seq<Segment>) -> int {
    spec_sum_last(segs, segs.len() as int)
}

/// The bytes of the last `k` segments are at most the bytes of the last
/// `m` for `k <= m`.
pub proof fn lemma_sum_last_monotone(segs: Seq<Segment>, k: int, m: int)
    requires
        0 <= k <= m <= segs.len(),
    ensures
        0 <= spec_sum_last(segs, k) <= spec_sum_last(segs, m),
    decreases m - k,
{
    if k < m {
        lemma_sum_last_monotone(segs, k, m - 1);
    } else {
        lemma_sum_last_nonneg(segs, k);
    }
}

proof fn lemma_sum_last_nonneg(segs: Seq<Segment>, k: int)
    ensures
        spec_sum_last(segs, k) >= 0,
    decreases k,
{
    if k > 0 {
        lemma_sum_last_nonneg(segs, k - 1);
    }
}

/// Adding a segment at the end adds its bytes to each sum over the newest
/// segments that includes it.
proof fn lemma_sum_last_push(segs: Seq<Segment>, x: Segment, k: int)
    requires
        1 <= k <= segs.len() + 1,
    ensures
        spec_sum_last(segs.push(x), k) == x.spec_position() + spec_sum_last(segs, k - 1),
    decreases k,
{
    let p = segs.push(x);
    if k > 1 {
        lemma_sum_last_push(segs, x, k - 1);
        assert(p[p.len() - k] == segs[segs.len() - (k - 1)]);
        assert(spec_sum_last(p, k) == p[p.len() - k].spec_position() + spec_sum_last(p, k - 1));
        assert(spec_sum_last(segs, k - 1) == segs[segs.len() - (k - 1)].spec_position()
            + spec_sum_last(segs, k - 2));
    } else {
        assert(p[p.len() - 1] == x);
        assert(spec_sum_last(p, 1) == p[p.len() - 1].spec_position() + spec_sum_last(p, 0));
    }
}

/// Replacing the last segment changes each sum that includes it by the
/// difference of their bytes.
proof fn lemma_sum_last_update_last(segs: Seq<Segment>, y: Segment, k: int)
    requires
        segs.len() >= 1,
        1 <= k <= segs.len(),
    ensures
        spec_sum_last(segs.update(segs.len() - 1, y), k) == spec_sum_last(segs, k)
            - segs.last().spec_position() + y.spec_position(),
    decreases k,
{
    let u = segs.update(segs.len() - 1, y);
    if k > 1 {
        lemma_sum_last_update_last(segs, y, k - 1);
        assert(u[u.len() - k] == segs[segs.len() - k]);
        assert(spec_sum_last(u, k) == u[u.len() - k].spec_position() + spec_sum_last(u, k - 1));
        assert(spec_sum_last(segs, k) == segs[segs.len() - k].spec_position() + spec_sum_last(
            segs,
            k - 1,
        ));
    } else {
        assert(spec_sum_last(u, 1) == u[u.len() - 1].spec_position() + spec_sum_last(u, 0));
        assert(spec_sum_last(segs, 1) == segs[segs.len() - 1].spec_position() + spec_sum_last(
            segs,
            0,
        ));
    }
}

/// When no later segment starts at or before `offset`, the search among the
/// first `n` segments finds the same one as among the first `m`.
proof fn lemma_segment_for_prefix(segs: Seq<Segment>, offset: int, m: int, n: int)
    requires
        0 <= m <= n <= segs.len(),
        forall|j: int| m <= j < n ==> #[trigger] segs[j].spec_starting_offset() > offset,
    ensures
        spec_segment_for(segs, offset, n) == spec_segment_for(segs, offset, m),
    decreases n - m,
{
    if n > m {
        lemma_segment_for_prefix(segs, offset, m, n - 1);
    }
}

/// The search finds the newest segment starting at or before `offset`.
proof fn lemma_segment_for_bounds(segs: Seq<Segment>, offset: int, n: int)
    requires
        0 <= n <= segs.len(),
    ensures
        -1 <= spec_segment_for(segs, offset, n) < n,
        spec_segment_for(segs, offset, n) >= 0 ==> segs[spec_segment_for(
            segs,
            offset,
            n,
        )].spec_starting_offset() <= offset,
        forall|j: int|
            spec_segment_for(segs, offset, n) < j < n ==> #[trigger] segs[j].spec_starting_offset()
                > offset,
    decreases n,
{
    if n > 0 {
        lemma_segment_for_bounds(segs, offset, n - 1);
    }
}

/// A search among the first `n` segments is determined by them.
proof fn lemma_segment_for_same_prefix(a: Seq<Segment>, b: Seq<Segment>, offset: int, n: int)
    requires
        0 <= n <= a.len(),
        n <= b.len(),
        forall|j: int|
            0 <= j < n ==> #[trigger] a[j].spec_starting_offset() == b[j].spec_starting_offset(),
    ensures
        spec_segment_for(a, offset, n) == spec_segment_for(b, offset, n),
    decreases n,
{
    if n > 0 {
        lemma_segment_for_same_prefix(a, b, offset, n - 1);
    }
}

/// The commit log.
pub struct Commitlog {
    directory: String,
    segments: Vec<Segment>,
    cleaner: Cleaner,
    max_segment_size: u64,
    current_segment_index: usize,
}

impl Commitlog {
    /// The segments, oldest first.
    pub closed spec fn spec_segments(&self) -> Seq<Segment> {
        self.segments@
    }

    /// The directory of the log.
    pub closed spec fn spec_directory(&self) -> Seq<char> {
        self.directory@
    }

    /// The size beyond which a segment takes no more messages.
    pub closed spec fn spec_max_segment_size(&self) -> u64 {
        self.max_segment_size
    }

    /// The number of bytes that the cleaner retains.
    pub closed spec fn spec_retention(&self) -> u64 {
        self.cleaner.spec_retention()
    }

    /// The position of the segment written to.
    pub closed spec fn spec_current(&self) -> usize {
        self.current_segment_index
    }

    /// The log is consistent: each segment is, the segments are in order of
    /// their starting offsets and the segment written to is the newest.
    pub open spec fn wf(&self) -> bool {
        &&& spec_sorted(self.spec_segments())
        &&& forall|i: int|
            0 <= i < self.spec_segments().len() ==> #[trigger] self.spec_segments()[i].wf()
        &&& self.spec_current() == if self.spec_segments().len() == 0 {
            0
        } else {
            self.spec_segments().len() - 1
        }
    }

    /// Every segment records its messages where they are written.
    pub open spec fn sound(&self) -> bool {
        &&& self.wf()
        &&& forall|i: int|
            0 <= i < self.spec_segments().len() ==> #[trigger] self.spec_segments()[i].tidy()
    }

    /// Every message of every segment can be read: the log is consistent
    /// and each index entry lies within its segment's log.
    pub open spec fn readable(&self) -> bool {
        &&& self.wf()
        &&& forall|i: int|
            0 <= i < self.spec_segments().len() ==> #[trigger] self.spec_segments()[i].entries_in_log()
    }

    /// The outcome of reading the message at `offset`.
    pub open spec fn spec_read(&self, offset: int) -> Result<Seq<u8>, Seq<char>> {
        spec_log_read(self.spec_segments(), offset)
    }

    /// The offset that the next message appended gets.
    pub open spec fn spec_next_offset(&self) -> int {
        if self.spec_segments().len() == 0 {
            0
        } else {
            self.spec_segments().last().spec_next_offset() as int
        }
    }

    /// The next message appended starts a new segment: there is none yet, or
    /// the newest one is full.
    pub open spec fn spec_needs_split(&self) -> bool {
        self.spec_segments().len() == 0 || !self.spec_segments().last().spec_has_room()
    }

    /// Appending `n` bytes cannot overflow the counters of the log.
    pub open spec fn spec_can_append(&self, n: int) -> bool {
        &&& n <= u32::MAX
        &&& self.spec_segments().len() > 0 ==> {
            &&& self.spec_segments().last().spec_next_offset() < u16::MAX
            &&& self.spec_segments().last().spec_has_room() ==> self.spec_segments().last().spec_position()
                + n <= u32::MAX
        }
        &&& spec_total_bytes(self.spec_segments()) + n <= u64::MAX
    }

    /// The segment `s` is a new segment starting at `offset` to which `data`
    /// was written.
    pub open spec fn spec_fresh_written(
        s: Segment,
        directory: Seq<char>,
        max_bytes: u64,
        offset: int,
        data: Seq<u8>,
    ) -> bool {
        exists|f: Segment|
            Segment::spec_fresh(f, directory, max_bytes, offset as u16) && Segment::spec_wrote(
                f,
                data,
                s,
            )
    }

    /// Appending `data` to `old` gave `new`: the message went to the newest
    /// segment, or to a new segment when it was full, and then the cleaner
    /// removed the oldest segments, keeping the newest, until the segments
    /// kept hold at most the retention (or only the newest is left).
    pub open spec fn spec_appended(old: Commitlog, data: Seq<u8>, new: Commitlog) -> bool {
        let olds = old.spec_segments();
        let news = new.spec_segments();
        let mid_len = olds.len() + if old.spec_needs_split() {
            1int
        } else {
            0int
        };
        let removed = mid_len - news.len();
        &&& 1 <= news.len() <= mid_len
        &&& forall|i: int| 0 <= i < news.len() - 1 ==> #[trigger] news[i] == olds[removed + i]
        &&& if old.spec_needs_split() {
            Commitlog::spec_fresh_written(
                news.last(),
                old.spec_directory(),
                old.spec_max_segment_size(),
                old.spec_next_offset(),
                data,
            )
        } else {
            Segment::spec_wrote(olds.last(), data, news.last())
        }
        &&& news.len() == 1 || spec_total_bytes(news) <= old.spec_retention()
        &&& news.len() < mid_len ==> spec_total_bytes(news) + olds[removed - 1].spec_position()
            > old.spec_retention()
    }

    /// Creates a new, empty commit log in `path`, with segments of 256 bytes
    /// and a cleaner retaining 1000 bytes.
    pub fn new(path: String) -> (cl: Commitlog)
        ensures
            cl.wf(),
            cl.sound(),
            cl.spec_segments() == Seq::<Segment>::empty(),
            cl.spec_directory() == path@,
            cl.spec_max_segment_size() == 256,
            cl.spec_retention() == 1000,
    {
        Self::with_limits(path, 256, 1000)
    }

    /// Creates a new, empty commit log in `path` with the given largest
    /// segment size and retention.
    pub fn with_limits(path: String, max_segment_size: u64, retention_bytes: u64) -> (cl:
        Commitlog)
        ensures
            cl.wf(),
            cl.sound(),
            cl.spec_segments() == Seq::<Segment>::empty(),
            cl.spec_directory() == path@,
            cl.spec_max_segment_size() == max_segment_size,
            cl.spec_retention() == retention_bytes,
    {
        Commitlog {
            directory: path,
            segments: Vec::new(),
            cleaner: Cleaner::new(retention_bytes),
            max_segment_size,
            current_segment_index: 0,
        }
    }

    /// Given a byte array, adds it to the commit log on the newest segment,
    /// starting a new segment when that one is full, then cleans the log.
    /// Gives the offset of the message.
    #[verifier::rlimit(100)]
    pub fn append(&mut self, data: &[u8]) -> (offset: u16)
        requires
            old(self).wf(),
            old(self).spec_can_append(data@.len() as int),
        ensures
            final(self).wf(),
            old(self).sound() ==> final(self).sound(),
            offset == old(self).spec_next_offset(),
            final(self).spec_directory() == old(self).spec_directory(),
            final(self).spec_max_segment_size() == old(self).spec_max_segment_size(),
            final(self).spec_retention() == old(self).spec_retention(),
            Commitlog::spec_appended(*old(self), data@, *final(self)),
    {
        let ghost old_segs = self.segments@;
        if self.segments.len() == 0 {
            let segment = Segment::new(self.directory.clone(), self.max_segment_size, 0);
            self.segments.push(segment);
            self.current_segment_index = 0;
        }
        let ghost first_segs = self.segments@;
        let mut current = self.segments.pop().unwrap();
        let ghost before_write = current;
        let next = current.get_next_offset();
        let written = current.write(data);
        match written {
            Ok(_) => {
                self.segments.push(current);
                proof {
                    assert(self.segments@ =~= first_segs.update(first_segs.len() - 1, current));
                }
            },
            Err(err) => {
                if !err.has_details("Write not possible. Segment log would be greater than max bytes") {
                    proof {
                        assert(false);
                    }
                }
                self.segments.push(current);
                assert(self.segments@ =~= first_segs);
                let mut fresh = Segment::new(self.directory.clone(), self.max_segment_size, next);
                let ghost fresh0 = fresh;
                match fresh.write(data) {
                    Ok(_) => {},
                    Err(_) => {
                        proof {
                            assert(false);
                        }
                    },
                }
                self.segments.push(fresh);
                proof {
                    assert(self.segments@ =~= first_segs.push(fresh));
                }
            },
        }
        self.current_segment_index = self.segments.len() - 1;
        let ghost mid = self.segments@;
        proof {
            let n = data@.len() as int;
            // The log before the clean holds the old segments, with the
            // newest one written to or followed by the new one.
            if old_segs.len() > 0 {
                assert(first_segs == old_segs);
            }
            assert(spec_total_bytes(mid) == spec_total_bytes(old_segs) + n) by {
                if old_segs.len() == 0 {
                    assert(first_segs.len() == 1);
                    assert(mid.len() == 1);
                    assert(spec_sum_last(mid, 0) == 0);
                } else if mid.len() == old_segs.len() {
                    lemma_sum_last_update_last(old_segs, mid.last(), old_segs.len() as int);
                    assert(mid =~= old_segs.update(old_segs.len() - 1, mid.last()));
                } else {
                    lemma_sum_last_push(old_segs, mid.last(), mid.len() as int);
                    assert(mid =~= old_segs.push(mid.last()));
                }
            }
            assert forall|j: int|
                0 <= j < mid.len() && #[trigger] spec_sum_last(mid, j)
                    <= self.cleaner.spec_retention() implies spec_sum_last(mid, j + 1)
                <= u64::MAX by {
                lemma_sum_last_monotone(mid, j + 1, mid.len() as int);
            }
        }
        proof {
            if old_segs.len() > 0 && old(self).sound() {
                assert forall|i: int| 0 <= i < mid.len() implies #[trigger] mid[i].tidy() by {
                    if i < old_segs.len() - 1 {
                        assert(mid[i] == old_segs[i]);
                    } else if i == old_segs.len() - 1 {
                        assert(old_segs[i].tidy());
                    }
                }
            }
        }
        self.clean();
        proof {
            lemma_cleaned_bounds(mid, self.cleaner.spec_retention(), self.segments@);
            let k = self.segments@.len() as int;
            let r = mid.len() - k;
            assert(self.segments@ =~= mid.subrange(r, mid.len() as int));
            if r > 0 {
                if mid.len() == old_segs.len() {
                    assert(mid[r - 1] == old_segs[r - 1]);
                } else if old_segs.len() > 0 {
                    assert(mid[r - 1] == old_segs[r - 1]);
                }
            }
        }
        next
    }

    /// Given an offset, finds the segment holding it and reads the message
    /// from that segment.
    pub fn read(&mut self, offset: usize) -> (r: Result<Vec<u8>, String>)
        requires
            old(self).wf(),
            old(self).spec_read(offset as int) is Ok || old(self).spec_read(offset as int) == Err::<
                Seq<u8>,
                Seq<char>,
            >(spec_not_in_log()),
        ensures
            *final(self) == *old(self),
            match (r, old(self).spec_read(offset as int)) {
                (Ok(bytes), Ok(data)) => bytes@ == data,
                (Err(msg), Err(m)) => msg@ == m,
                _ => false,
            },
    {
        let ghost segs = self.segments@;
        let len = self.segments.len();
        let mut segment_index: Option<usize> = None;
        let mut i: usize = 0;
        while i < len
            invariant
                len == segs.len(),
                segs == self.segments@,
                i <= len,
                match segment_index {
                    Some(k) => k == spec_segment_for(segs, offset as int, i as int),
                    None => spec_segment_for(segs, offset as int, i as int) == -1,
                },
            ensures
                i <= len,
                match segment_index {
                    Some(k) => k == spec_segment_for(segs, offset as int, i as int),
                    None => spec_segment_for(segs, offset as int, i as int) == -1,
                },
                i < len ==> segs[i as int].spec_starting_offset() > offset,
            decreases len - i,
        {
            if self.segments[i].get_starting_offset() as usize <= offset {
                segment_index = Some(i);
            } else {
                break;
            }
            i = i + 1;
        }
        proof {
            if i < len {
                assert forall|j: int| i <= j < len implies #[trigger] segs[j].spec_starting_offset()
                    > offset by {
                    if j > i {
                        assert(segs[i as int].spec_starting_offset() <= segs[j].spec_starting_offset());
                    }
                }
                lemma_segment_for_prefix(segs, offset as int, i as int, len as int);
            }
            lemma_segment_for_bounds(segs, offset as int, len as int);
        }
        match segment_index {
            Some(value) => {
                assert(segs[value as int].wf());
                let start = self.segments[value].get_starting_offset() as usize;
                let search_offset = offset - start;
                match self.segments[value].read_message(search_offset) {
                    Ok(buffer) => Ok(buffer),
                    Err(err) => {
                        if err.has_details("offset is out of bounds") {
                            Err(crate::text::to_owned_string("Offset does not exist in the commitlog"))
                        } else {
                            Err(err.message())
                        }
                    },
                }
            },
            None => Err(crate::text::to_owned_string("Offset does not exist in the commitlog")),
        }
    }

    /// Tells whether every segment records its messages where they are
    /// written.
    pub fn is_sound(&self) -> (b: bool)
        requires
            self.wf(),
        ensures
            b == self.sound(),
    {
        let mut i: usize = 0;
        while i < self.segments.len()
            invariant
                i <= self.spec_segments().len(),
                forall|k: int| 0 <= k < i ==> #[trigger] self.spec_segments()[k].tidy(),
            decreases self.spec_segments().len() - i,
        {
            if !self.segments[i].is_tidy() {
                return false;
            }
            i = i + 1;
        }
        true
    }

    /// Tells whether every message of every segment can be read.
    pub fn is_readable(&self) -> (b: bool)
        requires
            self.wf(),
        ensures
            b == self.readable(),
    {
        let mut i: usize = 0;
        while i < self.segments.len()
            invariant
                i <= self.spec_segments().len(),
                forall|k: int| 0 <= k < i ==> #[trigger] self.spec_segments()[k].entries_in_log(),
            decreases self.spec_segments().len() - i,
        {
            if !self.segments[i].has_entries_in_log() {
                return false;
            }
            i = i + 1;
        }
        true
    }

    /// Tells whether appending `n` bytes keeps the counters of the log
    /// within their types.
    pub fn can_append(&self, n: usize) -> (b: bool)
        requires
            self.wf(),
        ensures
            b == self.spec_can_append(n as int),
    {
        if n as u64 > 0xffff_ffffu64 {
            return false;
        }
        let len = self.segments.len();
        if len > 0 {
            let last = &self.segments[len - 1];
            if last.get_next_offset() == 0xffffu16 {
                return false;
            }
            if last.has_room() && last.get_position() as u64 + n as u64 > 0xffff_ffffu64 {
                return false;
            }
        }
        let ghost segs = self.segments@;
        let mut total: u128 = 0;
        let mut k: usize = 0;
        while k < len
            invariant
                len == segs.len(),
                segs == self.segments@,
                k <= len,
                total == spec_sum_last(segs, k as int),
                total <= k * 0xffff_ffffu128,
            decreases len - k,
        {
            let i = len - 1 - k;
            assert(spec_sum_last(segs, k + 1) == segs[i as int].spec_position() + spec_sum_last(
                segs,
                k as int,
            ));
            total = total + self.segments[i].get_position() as u128;
            k = k + 1;
        }
        total + n as u128 <= 0xffff_ffff_ffff_ffffu128
    }

    /// The offset of the oldest message the commit log holds: the starting
    /// offset of its oldest segment.
    pub fn get_oldest_offset(&mut self) -> (offset: usize)
        requires
            old(self).spec_segments().len() > 0,
        ensures
            *final(self) == *old(self),
            offset == old(self).spec_segments()[0].spec_starting_offset(),
    {
        self.segments[0].get_starting_offset() as usize
    }

    /// The segments of the log, oldest first.
    pub fn segments(&self) -> (s: &[Segment])
        ensures
            s@ == self.spec_segments(),
    {
        self.segments.as_slice()
    }

    /// Some segment of the log starts at `offset`.
    pub open spec fn spec_has_segment_at(&self, offset: u16) -> bool {
        exists|k: int|
            0 <= k < self.spec_segments().len() && #[trigger] self.spec_segments()[k].spec_starting_offset()
                == offset
    }

    /// Of the stems `stems`, in order, those whose starting offset no
    /// segment of the log has.
    pub open spec fn spec_stems_to_add(&self, stems: Seq<Seq<char>>) -> Seq<Seq<char>> {
        stems.filter_map(
            |s: Seq<char>|
                if self.spec_has_segment_at(spec_parse_u16(s)->0) {
                    None
                } else {
                    Some(s)
                },
        )
    }

    /// Of the complete segments found in the directory, the stems of those
    /// whose starting offset no segment of the log has yet.
    pub fn segments_to_add(&self, stems: &Vec<String>) -> (r: Vec<String>)
        requires
            forall|i: int| 0 <= i < stems@.len() ==> spec_parse_u16((#[trigger] stems@[i])@) is Some,
        ensures
            spec_views(r@) == spec_views(stems@).filter_map(
                |s: Seq<char>|
                    if self.spec_has_segment_at(spec_parse_u16(s)->0) {
                        None
                    } else {
                        Some(s)
                    },
            ),
            spec_views(r@) == self.spec_stems_to_add(spec_views(stems@)),
    {
        let ghost all = spec_views(stems@);
        let ghost f = |s: Seq<char>|
            if self.spec_has_segment_at(spec_parse_u16(s)->0) {
                None
            } else {
                Some(s)
            };
        let mut out: Vec<String> = Vec::new();
        let mut i: usize = 0;
        while i < stems.len()
            invariant
                i <= stems@.len(),
                all == spec_views(stems@),
                f == (|s: Seq<char>|
                    if self.spec_has_segment_at(spec_parse_u16(s)->0) {
                        None
                    } else {
                        Some(s)
                    }),
                forall|k: int| 0 <= k < stems@.len() ==> spec_parse_u16((#[trigger] stems@[k])@) is Some,
                spec_views(out@) == all.take(i as int).filter_map(f),
            decreases stems@.len() - i,
        {
            proof {
                all.lemma_filter_map_take_succ(f, i as int);
                assert(all[i as int] == stems@[i as int]@);
            }
            let offset = match parse_u16(stems[i].as_str()) {
                Some(o) => o,
                None => 0,
            };
            let mut exists_already = false;
            let mut k: usize = 0;
            while k < self.segments.len()
                invariant
                    k <= self.spec_segments().len(),
                    exists_already == exists|q: int|
                        0 <= q < k && #[trigger] self.spec_segments()[q].spec_starting_offset()
                            == offset,
                decreases self.spec_segments().len() - k,
            {
                if self.segments[k].get_starting_offset() == offset {
                    exists_already = true;
                }
                k = k + 1;
            }
            let ghost o0 = out@;
            if !exists_already {
                out.push(stems[i].clone());
                assert(spec_views(out@) =~= spec_views(o0).push(stems@[i as int]@));
            } else {
                assert(spec_views(out@) =~= spec_views(o0));
            }
            i = i + 1;
        }
        proof {
            assert(all.take(stems@.len() as int) =~= all);
        }
        out
    }

    /// Adds a segment loaded from the directory, keeping the segments in
    /// order of their starting offsets (after those starting at the same
    /// offset), and makes the newest segment the one written to.
    pub fn add_segment(&mut self, segment: Segment)
        requires
            old(self).wf(),
            segment.wf(),
        ensures
            final(self).wf(),
            final(self).spec_directory() == old(self).spec_directory(),
            final(self).spec_max_segment_size() == old(self).spec_max_segment_size(),
            final(self).spec_retention() == old(self).spec_retention(),
            exists|p: int|
                0 <= p <= old(self).spec_segments().len() && final(self).spec_segments()
                    == old(self).spec_segments().insert(p, segment) && (forall|i: int|
                    0 <= i < p ==> #[trigger] old(self).spec_segments()[i].spec_starting_offset()
                        <= segment.spec_starting_offset()) && (forall|i: int|
                    p <= i < old(self).spec_segments().len()
                        ==> #[trigger] old(self).spec_segments()[i].spec_starting_offset()
                        > segment.spec_starting_offset()),
    {
        let start = segment.get_starting_offset();
        let len = self.segments.len();
        let mut p: usize = 0;
        while p < len
            invariant
                len == self.spec_segments().len(),
                p <= len,
                forall|i: int|
                    0 <= i < p ==> #[trigger] self.spec_segments()[i].spec_starting_offset() <= start,
            ensures
                p <= len,
                forall|i: int|
                    0 <= i < p ==> #[trigger] self.spec_segments()[i].spec_starting_offset() <= start,
                p < len ==> self.spec_segments()[p as int].spec_starting_offset() > start,
            decreases len - p,
        {
            if self.segments[p].get_starting_offset() > start {
                break;
            }
            p = p + 1;
        }
        let ghost before = self.segments@;
        proof {
            assert forall|i: int| p <= i < len implies #[trigger] before[i].spec_starting_offset()
                > start by {
                if i > p {
                    assert(before[p as int].spec_starting_offset() <= before[i].spec_starting_offset());
                }
            }
        }
        self.segments.insert(p, segment);
        self.current_segment_index = self.segments.len() - 1;
        proof {
            let after = self.segments@;
            assert(after == before.insert(p as int, segment));
            assert forall|i: int, j: int| 0 <= i < j < after.len() implies #[trigger] after[i].spec_starting_offset()
                <= #[trigger] after[j].spec_starting_offset() by {
                if j < p {
                    assert(after[i] == before[i] && after[j] == before[j]);
                } else if j == p {
                    assert(after[i] == before[i]);
                } else if i < p {
                    assert(after[i] == before[i] && after[j] == before[j - 1]);
                } else if i == p {
                    assert(after[j] == before[j - 1]);
                } else {
                    assert(after[i] == before[i - 1] && after[j] == before[j - 1]);
                }
            }
            assert forall|i: int| 0 <= i < after.len() implies #[trigger] after[i].wf() by {
                if i < p {
                    assert(after[i] == before[i]);
                } else if i > p {
                    assert(after[i] == before[i - 1]);
                }
            }
        }
    }

    /// Reloads the segment written to from the up to date bytes of its log
    /// file and of its index file.
    pub fn reload_current_segment(&mut self, log_bytes: Vec<u8>, index_bytes: &[u8])
        requires
            old(self).wf(),
            old(self).spec_segments().len() > 0 ==> old(self).spec_segments().last().spec_starting_offset()
                + spec_decode_entries(index_bytes@).len() <= u16::MAX,
        ensures
            final(self).wf(),
            final(self).spec_directory() == old(self).spec_directory(),
            final(self).spec_max_segment_size() == old(self).spec_max_segment_size(),
            final(self).spec_retention() == old(self).spec_retention(),
            final(self).spec_segments().len() == old(self).spec_segments().len(),
            forall|i: int|
                0 <= i < old(self).spec_segments().len() - 1 ==> #[trigger] final(self).spec_segments()[i]
                    == old(self).spec_segments()[i],
            old(self).spec_segments().len() > 0 ==> {
                let o = old(self).spec_segments().last();
                let n = final(self).spec_segments().last();
                &&& n.spec_contents() == log_bytes@
                &&& n.spec_entries() == spec_decode_entries(index_bytes@)
                &&& n.spec_starting_offset() == o.spec_starting_offset()
                &&& n.spec_next_offset() == o.spec_starting_offset() + n.spec_entries().len()
                &&& n.spec_position() == o.spec_position()
                &&& n.spec_max_bytes() == o.spec_max_bytes()
                &&& n.spec_file_name() == o.spec_file_name()
                &&& n.spec_index_file_name() == o.spec_index_file_name()
            },
    {
        if self.segments.len() == 0 {
            return;
        }
        let ghost before = self.segments@;
        let mut current = self.segments.pop().unwrap();
        let _ = current.reload(log_bytes, index_bytes);
        self.segments.push(current);
        proof {
            let after = self.segments@;
            assert(after =~= before.update(before.len() - 1, current));
            assert forall|i: int, j: int| 0 <= i < j < after.len() implies #[trigger] after[i].spec_starting_offset()
                <= #[trigger] after[j].spec_starting_offset() by {
                assert(before[i].spec_starting_offset() <= before[j].spec_starting_offset());
            }
            assert forall|i: int| 0 <= i < after.len() implies #[trigger] after[i].wf() by {
                if i < after.len() - 1 {
                    assert(after[i] == before[i]);
                }
            }
        }
    }

    /// Removes the oldest segments as the cleaner decides and makes the
    /// newest segment the one written to.
    fn clean(&mut self)
        requires
            old(self).spec_segments().len() >= 1,
            spec_count_fits(old(self).spec_segments(), old(self).spec_retention()),
        ensures
            final(self).spec_segments() == old(self).spec_segments().subrange(
                spec_removed_count(old(self).spec_segments(), old(self).spec_retention()),
                old(self).spec_segments().len() as int,
            ),
            final(self).spec_segments().len() >= 1,
            final(self).spec_current() == final(self).spec_segments().len() - 1,
            final(self).spec_directory() == old(self).spec_directory(),
            final(self).spec_max_segment_size() == old(self).spec_max_segment_size(),
            final(self).spec_retention() == old(self).spec_retention(),
    {
        proof {
            lemma_kept_from_is_least(self.segments@, self.cleaner.spec_retention(), 1);
        }
        let _ = self.cleaner.clean(&mut self.segments);
        self.current_segment_index = self.segments.len() - 1;
    }
}


/// The segments the cleaner keeps of `mid`: at least the newest, at most
/// the retention unless only the newest is left, and, when some were
/// removed, the newest one removed would have taken them over the retention.
proof fn lemma_cleaned_bounds(mid: Seq<Segment>, ret: u64, kept: Seq<Segment>)
    requires
        mid.len() >= 1,
        kept == mid.subrange(spec_removed_count(mid, ret), mid.len() as int),
    ensures
        1 <= kept.len() <= mid.len(),
        spec_removed_count(mid, ret) == mid.len() - kept.len(),
        kept.len() == 1 || spec_total_bytes(kept) <= ret,
        kept.len() < mid.len() ==> spec_total_bytes(kept) + mid[mid.len() - kept.len() - 1].spec_position()
            > ret,
{
    lemma_kept_from_is_least(mid, ret, 1);
    let k = kept.len() as int;
    let r = mid.len() - k;
    lemma_sum_last_suffix(mid, r, k);
    if k >= 2 {
        assert(spec_sum_last(mid, (k - 1) + 1) <= ret);
    }
    if r > 0 {
        assert(spec_sum_last(mid, k + 1) == mid[r - 1].spec_position() + spec_sum_last(mid, k));
    }
}


} // verus!

verus! {

/// The bytes that an entry of a segment designates, when its log holds it,
/// stay the same once more bytes are added to the log.
proof fn lemma_entry_data_extend(log: Seq<u8>, extra: Seq<u8>, e: Entry)
    requires
        e.start + e.total <= log.len(),
    ensures
        crate::virtual_segment::spec_entry_data(log + extra, e)
            == crate::virtual_segment::spec_entry_data(log, e),
{
    assert((log + extra).subrange(e.start as int, e.start + e.total) =~= log.subrange(
        e.start as int,
        e.start + e.total,
    ));
}

/// A search for `offset` finds segment `k` when it starts at or before the
/// offset and no later segment does.
proof fn lemma_segment_for_is(segs: Seq<Segment>, offset: int, k: int)
    requires
        0 <= k < segs.len(),
        segs[k].spec_starting_offset() <= offset,
        forall|j: int| k < j < segs.len() ==> #[trigger] segs[j].spec_starting_offset() > offset,
    ensures
        spec_segment_for(segs, offset, segs.len() as int) == k,
{
    lemma_segment_for_prefix(segs, offset, k + 1, segs.len() as int);
}

/// Law: reading the offset that an append gave returns the appended bytes.
pub proof fn lemma_read_after_append(old: Commitlog, data: Seq<u8>, new: Commitlog)
    requires
        old.sound(),
        new.wf(),
        Commitlog::spec_appended(old, data, new),
    ensures
        new.spec_read(old.spec_next_offset()) == Ok::<Seq<u8>, Seq<char>>(data),
{
    let olds = old.spec_segments();
    let news = new.spec_segments();
    let off = old.spec_next_offset();
    let last = news.last();
    let k = news.len() - 1;
    if old.spec_needs_split() {
        let f = choose|f: Segment|
            Segment::spec_fresh(f, old.spec_directory(), old.spec_max_segment_size(), off as u16)
                && Segment::spec_wrote(f, data, last);
        assert(f.spec_entries().push(Entry { start: 0, total: data.len() as u32 })[0] == Entry {
            start: 0,
            total: data.len() as u32,
        });
        assert(Seq::<u8>::empty() + data =~= data);
        assert(last.spec_contents().subrange(0, data.len() as int) =~= data);
    } else {
        let o = olds.last();
        assert(o.wf());
        assert(o.tidy());
        let c = o.spec_entries().len();
        assert(last.spec_entries()[c as int] == Entry {
            start: o.spec_position(),
            total: data.len() as u32,
        });
        assert(last.spec_contents().subrange(
            o.spec_position() as int,
            o.spec_position() + data.len(),
        ) =~= data);
    }
    assert forall|j: int| k < j < news.len() implies #[trigger] news[j].spec_starting_offset()
        > off by {}
    lemma_segment_for_is(news, off, k);
}

/// Law: an append changes no other message. Reading any other offset after
/// an append gives what it gave before, unless the cleaner removed the
/// segment that held it: then the offset lies before the oldest segment
/// left and the log no longer holds it.
pub proof fn lemma_append_keeps_other_messages(
    old: Commitlog,
    data: Seq<u8>,
    new: Commitlog,
    offset: int,
)
    requires
        old.sound(),
        new.wf(),
        Commitlog::spec_appended(old, data, new),
        offset != old.spec_next_offset(),
    ensures
        new.spec_read(offset) == if offset < new.spec_segments()[0].spec_starting_offset() {
            Err::<Seq<u8>, Seq<char>>(spec_not_in_log())
        } else {
            old.spec_read(offset)
        },
{
    let olds = old.spec_segments();
    let news = new.spec_segments();
    let nl = news.len() as int;
    let ol = olds.len() as int;
    let off = old.spec_next_offset();
    let split = old.spec_needs_split();
    let m = ol + if split {
        1int
    } else {
        0int
    };
    let r = m - nl;
    if offset < news[0].spec_starting_offset() {
        assert forall|j: int| 0 <= j < nl implies #[trigger] news[j].spec_starting_offset()
            > offset by {
            if j > 0 {
                assert(news[0].spec_starting_offset() <= news[j].spec_starting_offset());
            }
        }
        lemma_segment_for_prefix(news, offset, 0, nl);
    } else {
        lemma_segment_for_bounds(news, offset, nl);
        let j = spec_segment_for(news, offset, nl);
        assert(j >= 0) by {
            if j < 0 {
                lemma_segment_for_prefix(news, offset, 0, nl);
                assert(spec_segment_for(news, offset, 1) == 0);
                lemma_segment_for_prefix(news, offset, 1, nl);
            }
        }
        if j < nl - 1 {
            // The segment holding the offset was not touched by the append.
            assert(news[j] == olds[r + j]);
            assert forall|i: int| r + j < i < ol implies #[trigger] olds[i].spec_starting_offset()
                > offset by {
                if i - r < nl - 1 {
                    assert(news[i - r] == olds[i]);
                } else {
                    assert(!split && i == ol - 1);
                    assert(news.last().spec_starting_offset() == olds.last().spec_starting_offset());
                }
            }
            lemma_segment_for_is(olds, offset, r + j);
        } else {
            let last = news.last();
            if split {
                let f = choose|f: Segment|
                    Segment::spec_fresh(
                        f,
                        old.spec_directory(),
                        old.spec_max_segment_size(),
                        off as u16,
                    ) && Segment::spec_wrote(f, data, last);
                assert(last.spec_starting_offset() == off);
                if ol > 0 {
                    let o = olds.last();
                    assert(o.wf());
                    assert forall|i: int| ol - 1 < i < ol implies #[trigger] olds[i].spec_starting_offset()
                        > offset by {}
                    lemma_segment_for_is(olds, offset, ol - 1);
                } else {
                    lemma_segment_for_prefix(olds, offset, 0, 0);
                }
            } else {
                let o = olds.last();
                assert(o.wf());
                assert(o.tidy());
                assert forall|i: int| ol - 1 < i < ol implies #[trigger] olds[i].spec_starting_offset()
                    > offset by {}
                lemma_segment_for_is(olds, offset, ol - 1);
                let rel = offset - o.spec_starting_offset();
                let c = o.spec_entries().len() as int;
                if rel < c {
                    let e = o.spec_entries()[rel];
                    assert(last.spec_entries()[rel] == e);
                    lemma_entry_data_extend(o.spec_contents(), data, e);
                }
            }
        }
    }
}


/// In a log whose segments record their messages where they are written, a
/// read gives a message or says that the log does not hold the offset.
pub proof fn lemma_read_is_clean(cl: Commitlog, offset: int)
    requires
        cl.readable(),
    ensures
        cl.spec_read(offset) is Ok || cl.spec_read(offset) == Err::<Seq<u8>, Seq<char>>(
            spec_not_in_log(),
        ),
{
    let segs = cl.spec_segments();
    lemma_segment_for_bounds(segs, offset, segs.len() as int);
    let i = spec_segment_for(segs, offset, segs.len() as int);
    if i >= 0 {
        let s = segs[i];
        assert(s.wf());
        assert(s.entries_in_log());
        let rel = offset - s.spec_starting_offset();
        if rel < s.spec_len() {
            let e = s.spec_entries()[rel];
            assert(e.start + e.total <= s.spec_contents().len());
        }
    }
}

/// A log whose segments record their messages where they are written can
/// be read.
pub proof fn lemma_sound_is_readable(cl: Commitlog)
    requires
        cl.sound(),
    ensures
        cl.readable(),
{
    assert forall|i: int| 0 <= i < cl.spec_segments().len() implies #[trigger] cl.spec_segments()[i].entries_in_log() by {
        let s = cl.spec_segments()[i];
        assert(s.tidy());
        assert forall|k: int| 0 <= k < s.spec_entries().len() implies #[trigger] s.spec_entries()[k].start
            + s.spec_entries()[k].total <= s.spec_contents().len() by {
            assert(s.spec_entries()[k].start + s.spec_entries()[k].total <= s.spec_position());
        }
    }
}

/// No message lies at or after the offset that the next append gets.
pub proof fn lemma_read_past_end(cl: Commitlog, offset: int)
    requires
        cl.wf(),
        offset >= cl.spec_next_offset(),
    ensures
        cl.spec_read(offset) == Err::<Seq<u8>, Seq<char>>(spec_not_in_log()),
{
    let segs = cl.spec_segments();
    let n = segs.len() as int;
    lemma_segment_for_bounds(segs, offset, n);
    let i = spec_segment_for(segs, offset, n);
    if i >= 0 {
        let last = segs[n - 1];
        assert(last.wf());
        if i < n - 1 {
            assert(last.spec_starting_offset() <= last.spec_next_offset());
            assert(segs[n - 1].spec_starting_offset() > offset);
        }
        assert(i == n - 1);
    }
}

/// An append moves the offset that the next append gets by one.
pub proof fn lemma_append_next_offset(old: Commitlog, data: Seq<u8>, new: Commitlog)
    requires
        old.wf(),
        new.wf(),
        Commitlog::spec_appended(old, data, new),
    ensures
        new.spec_next_offset() == old.spec_next_offset() + 1,
{
    let olds = old.spec_segments();
    let news = new.spec_segments();
    if old.spec_needs_split() {
        let off = old.spec_next_offset();
        let f = choose|f: Segment|
            Segment::spec_fresh(f, old.spec_directory(), old.spec_max_segment_size(), off as u16)
                && Segment::spec_wrote(f, data, news.last());
        if olds.len() > 0 {
            assert(olds.last().spec_next_offset() <= u16::MAX);
        }
    }
}

/// An append never moves the oldest segment back: the oldest offset the log
/// holds only grows.
pub proof fn lemma_append_oldest_grows(old: Commitlog, data: Seq<u8>, new: Commitlog)
    requires
        old.wf(),
        new.wf(),
        Commitlog::spec_appended(old, data, new),
        old.spec_segments().len() > 0,
    ensures
        new.spec_segments()[0].spec_starting_offset() >= old.spec_segments()[0].spec_starting_offset(),
{
    let olds = old.spec_segments();
    let news = new.spec_segments();
    let split = old.spec_needs_split();
    let mid = olds.len() + if split {
        1int
    } else {
        0int
    };
    let removed = mid - news.len();
    if news.len() > 1 {
        assert(news[0] == olds[removed]);
        if removed > 0 {
            assert(olds[0].spec_starting_offset() <= olds[removed].spec_starting_offset());
        }
    } else {
        let last = olds.last();
        assert(last.wf());
        if olds.len() > 1 {
            assert(olds[0].spec_starting_offset() <= last.spec_starting_offset());
        }
        if split {
            let off = old.spec_next_offset();
            let f = choose|f: Segment|
                Segment::spec_fresh(f, old.spec_directory(), old.spec_max_segment_size(), off as u16)
                    && Segment::spec_wrote(f, data, news.last());
            assert(last.spec_next_offset() <= u16::MAX);
        }
    }
}

/// `logs` are the states of a commit log through the appends of `msgs`, one
/// after the other.
pub open spec fn spec_append_chain(logs: Seq<Commitlog>, msgs: Seq<Seq<u8>>) -> bool {
    &&& logs.len() == msgs.len() + 1
    &&& forall|j: int|
        0 <= j < msgs.len() ==> #[trigger] logs[j + 1].wf() && Commitlog::spec_appended(
            logs[j],
            msgs[j],
            logs[j + 1],
        ) && logs[j].spec_can_append(msgs[j].len() as int) && (logs[j].sound()
            ==> logs[j + 1].sound())
}

/// Law: after the first `k` appends of a chain that starts from a log whose
/// segments record their messages where they are written, the log still
/// does, its next offset moved by `k`, each of those `k` messages reads back
/// at the offset it got unless the cleaner removed it, and the offset after
/// them is not in the log.
pub proof fn lemma_chain_prefix(logs: Seq<Commitlog>, msgs: Seq<Seq<u8>>, k: int)
    requires
        spec_append_chain(logs, msgs),
        logs[0].sound(),
        0 <= k <= msgs.len(),
    ensures
        logs[k].sound(),
        logs[k].spec_next_offset() == logs[0].spec_next_offset() + k,
        k > 0 ==> logs[k].spec_segments().len() > 0,
        forall|j: int|
            0 <= j < k && logs[k].spec_segments()[0].spec_starting_offset() <= logs[0].spec_next_offset()
                + j ==> #[trigger] logs[k].spec_read(logs[0].spec_next_offset() + j) == Ok::<
                Seq<u8>,
                Seq<char>,
            >(msgs[j]),
        logs[k].spec_read(logs[0].spec_next_offset() + k) == Err::<Seq<u8>, Seq<char>>(
            spec_not_in_log(),
        ),
    decreases k,
{
    if k > 0 {
        lemma_chain_prefix(logs, msgs, k - 1);
        let o = logs[0].spec_next_offset();
        let l = logs[k - 1];
        let l2 = logs[k];
        let i = k - 1;
        assert(logs[i + 1].wf() && Commitlog::spec_appended(logs[i], msgs[i], logs[i + 1]) && (
        logs[i].sound() ==> logs[i + 1].sound()));
        assert(l2.wf() && Commitlog::spec_appended(l, msgs[k - 1], l2) && (l.sound() ==> l2.sound()));
        crate::commitlog::lemma_append_next_offset(l, msgs[k - 1], l2);
        crate::commitlog::lemma_read_after_append(l, msgs[k - 1], l2);
        assert forall|j: int|
            0 <= j < k && l2.spec_segments()[0].spec_starting_offset() <= o + j implies #[trigger] l2.spec_read(
            o + j,
        ) == Ok::<Seq<u8>, Seq<char>>(msgs[j]) by {
            if j < k - 1 {
                crate::commitlog::lemma_append_keeps_other_messages(l, msgs[k - 1], l2, o + j);
                crate::commitlog::lemma_append_oldest_grows(l, msgs[k - 1], l2);
            }
        }
    }
    lemma_read_past_end(logs[k], logs[0].spec_next_offset() + k);
}


/// Each segment starts at the offset where the one before it ends.
pub open spec fn spec_contiguous(segs: Seq<Segment>) -> bool {
    forall|i: int|
        0 < i < segs.len() ==> #[trigger] segs[i].spec_starting_offset() == segs[i - 1].spec_next_offset()
}

/// Law: in a consistent log whose segments follow one another without gap,
/// a read fails with "Offset does not exist in the commitlog" exactly when
/// the log is empty or the offset lies before the first segment or at or
/// after the end of the last. Any other offset is held by the segment the
/// read picks, and reads as the message recorded there whenever that
/// message's index entry lies within the segment's log.
pub proof fn lemma_contiguous_read(cl: Commitlog, offset: int)
    requires
        cl.wf(),
        spec_contiguous(cl.spec_segments()),
    ensures
        ({
            let segs = cl.spec_segments();
            let n = segs.len() as int;
            let outside = n == 0 || offset < segs[0].spec_starting_offset() || offset
                >= segs[n - 1].spec_next_offset();
            let i = spec_segment_for(segs, offset, n);
            let k = offset - segs[i].spec_starting_offset();
            &&& outside <==> cl.spec_read(offset) == Err::<Seq<u8>, Seq<char>>(spec_not_in_log())
            &&& !outside ==> 0 <= i < n && segs[i].holds(offset) && 0 <= k < segs[i].spec_entries().len()
            &&& !outside && segs[i].spec_entries()[k].start + segs[i].spec_entries()[k].total
                <= segs[i].spec_contents().len() ==> cl.spec_read(offset) == Ok::<Seq<u8>, Seq<char>>(
                segs[i].spec_message(k),
            )
        }),
{
    let segs = cl.spec_segments();
    let n = segs.len() as int;
    lemma_segment_for_bounds(segs, offset, n);
    let i = spec_segment_for(segs, offset, n);
    if n > 0 {
        assert(segs[0].wf());
        assert(segs[n - 1].wf());
        if offset < segs[0].spec_starting_offset() {
            if i >= 0 {
                assert(segs[0].spec_starting_offset() <= segs[i].spec_starting_offset());
            }
        } else {
            assert(i >= 0);
            let s = segs[i];
            assert(s.wf());
            if i < n - 1 {
                assert(segs[i + 1].spec_starting_offset() > offset);
                assert(segs[i + 1].spec_starting_offset() == segs[i].spec_next_offset());
                if offset >= segs[n - 1].spec_next_offset() {
                    assert(segs[n - 1].spec_starting_offset() > offset);
                }
            }
            if offset < segs[n - 1].spec_next_offset() {
                let k = offset - s.spec_starting_offset();
                let e = s.spec_entries()[k];
                if e.start + e.total > s.spec_contents().len() && e.total != 0 {
                    assert("unable to read into buffer"@ != "offset is out of bounds"@) by {
                        reveal_strlit("unable to read into buffer");
                        reveal_strlit("offset is out of bounds");
                        assert("unable to read into buffer"@.len() != "offset is out of bounds"@.len());
                    }
                    assert("unable to read into buffer"@ != spec_not_in_log()) by {
                        reveal_strlit("unable to read into buffer");
                        reveal_strlit("Offset does not exist in the commitlog");
                        assert("unable to read into buffer"@.len() != spec_not_in_log().len());
                    }
                }
            }
        }
    }
}

/// Law: an append keeps the segments of a log following one another
/// without gap.
pub proof fn lemma_append_keeps_contiguous(old: Commitlog, data: Seq<u8>, new: Commitlog)
    requires
        old.wf(),
        spec_contiguous(old.spec_segments()),
        Commitlog::spec_appended(old, data, new),
    ensures
        spec_contiguous(new.spec_segments()),
{
    let olds = old.spec_segments();
    let news = new.spec_segments();
    let mid_len = olds.len() + if old.spec_needs_split() {
        1int
    } else {
        0int
    };
    let removed = mid_len - news.len();
    if old.spec_needs_split() {
        let f = choose|f: Segment|
            Segment::spec_fresh(f, old.spec_directory(), old.spec_max_segment_size(), old.spec_next_offset() as u16)
                && Segment::spec_wrote(f, data, news.last());
        assert(news.last().spec_starting_offset() == old.spec_next_offset());
    }
    assert forall|i: int| 0 < i < news.len() implies #[trigger] news[i].spec_starting_offset()
        == news[i - 1].spec_next_offset() by {
        assert(news[i - 1] == olds[removed + (i - 1)]);
        if i < news.len() - 1 {
            assert(news[i] == olds[removed + i]);
            assert(olds[removed + i].spec_starting_offset() == olds[removed + i - 1].spec_next_offset());
        } else if !old.spec_needs_split() {
            assert(olds[olds.len() - 1].spec_starting_offset() == olds[olds.len() - 2].spec_next_offset());
        }
    }
}


/// Law: of the stems found in a directory, a reload adds exactly those whose
/// offset no segment of the log, at any position, starts at: a stem is
/// kept if and only if it is one of the stems found and, for every segment
/// of the log, the segment's starting offset differs from the stem's.
pub proof fn lemma_stems_to_add_are_the_new_ones(cl: Commitlog, stems: Seq<Seq<char>>, s: Seq<char>)
    ensures
        cl.spec_stems_to_add(stems).contains(s) <==> (stems.contains(s) && forall|k: int|
            0 <= k < cl.spec_segments().len() ==> #[trigger] cl.spec_segments()[k].spec_starting_offset()
                != spec_parse_u16(s)->0),
    decreases stems.len(),
{
    let segs = cl.spec_segments();
    let new_at = forall|k: int|
        0 <= k < segs.len() ==> #[trigger] segs[k].spec_starting_offset() != spec_parse_u16(s)->0;
    if stems.len() > 0 {
        let rest = stems.drop_last();
        let last = stems.last();
        lemma_stems_to_add_are_the_new_ones(cl, rest, s);
        assert(cl.spec_stems_to_add(rest) == rest.filter_map(
            |t: Seq<char>|
                if cl.spec_has_segment_at(spec_parse_u16(t)->0) {
                    None
                } else {
                    Some(t)
                },
        ));
        assert(stems =~= rest.push(last));
        assert(stems.contains(s) <==> (rest.contains(s) || last == s)) by {
            if stems.contains(s) {
                let j = choose|j: int| 0 <= j < stems.len() && stems[j] == s;
                if j < stems.len() - 1 {
                    assert(rest[j] == s);
                }
            }
            if rest.contains(s) {
                let j = choose|j: int| 0 <= j < rest.len() && rest[j] == s;
                assert(stems[j] == s);
            }
            if last == s {
                assert(stems[stems.len() - 1] == s);
            }
        }
        if cl.spec_has_segment_at(spec_parse_u16(last)->0) {
            assert(cl.spec_stems_to_add(stems) == cl.spec_stems_to_add(rest));
            if last == s {
                let k = choose|k: int|
                    0 <= k < segs.len() && #[trigger] segs[k].spec_starting_offset() == spec_parse_u16(last)->0;
                assert(!new_at);
            }
        } else {
            assert(cl.spec_stems_to_add(stems) == cl.spec_stems_to_add(rest).push(last));
            let r = cl.spec_stems_to_add(rest);
            assert(r.push(last).contains(s) <==> (r.contains(s) || last == s)) by {
                if r.push(last).contains(s) {
                    let j = choose|j: int| 0 <= j < r.push(last).len() && r.push(last)[j] == s;
                    if j < r.len() {
                        assert(r[j] == s);
                    }
                }
                if r.contains(s) {
                    let j = choose|j: int| 0 <= j < r.len() && r[j] == s;
                    assert(r.push(last)[j] == s);
                }
                if last == s {
                    assert(r.push(last)[r.len() as int] == s);
                }
            }
            if last == s {
                assert forall|k: int| 0 <= k < segs.len() implies #[trigger] segs[k].spec_starting_offset()
                    != spec_parse_u16(s)->0 by {
                    if segs[k].spec_starting_offset() == spec_parse_u16(s)->0 {
                        assert(cl.spec_has_segment_at(spec_parse_u16(last)->0));
                    }
                }
            }
        }
    }
}

} // verus!

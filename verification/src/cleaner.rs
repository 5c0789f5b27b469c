//! The cleaner removes the oldest segments of a commit log once its
//! segments hold more bytes than it retains, always keeping the newest.
use vstd::prelude::*;
use crate::nolan_errors::CleanerError;
use crate::segment::Segment;

verus! {

/// The number of log bytes of the last `k` segments.
pub open spec fn spec_sum_last(segs: Seq<Segment>, k: int) -> int
    decreases k,
{
    if k <= 0 || k > segs.len() {
        0
    } else {
        segs[segs.len() - k].spec_position() + spec_sum_last(segs, k - 1)
    }
}

/// The number of newest segments kept, counting from `k` kept: one more
/// is kept while the newest ones, with it, hold at most the retention.
pub open spec fn spec_kept_from(segs: Seq<Segment>, retention: u64, k: int) -> int
    decreases segs.len() - k,
{
    if k >= segs.len() || spec_sum_last(segs, k + 1) > retention {
        k
    } else {
        spec_kept_from(segs, retention, k + 1)
    }
}

/// The number of oldest segments that cleaning removes: the newest segment
/// is always kept, and older ones as long as the segments kept hold at most
/// the retention.
pub open spec fn spec_removed_count(segs: Seq<Segment>, retention: u64) -> int {
    if segs.len() == 0 {
        0
    } else {
        segs.len() - spec_kept_from(segs, retention, 1)
    }
}

/// Counting the bytes of the newest segments cannot overflow a `u64`
/// before the count passes the retention.
pub open spec fn spec_count_fits(segs: Seq<Segment>, retention: u64) -> bool {
    forall|j: int|
        0 <= j < segs.len() && #[trigger] spec_sum_last(segs, j) <= retention ==> spec_sum_last(
            segs,
            j + 1,
        ) <= u64::MAX
}

/// The number kept counting from `k` is the least count from `k` on that
/// either takes all segments or would, with one more, hold more than the
/// retention.
pub proof fn lemma_kept_from_is_least(segs: Seq<Segment>, retention: u64, k: int)
    requires
        0 <= k <= segs.len(),
    ensures
        k <= spec_kept_from(segs, retention, k) <= segs.len(),
        spec_kept_from(segs, retention, k) == segs.len() || spec_sum_last(
            segs,
            spec_kept_from(segs, retention, k) + 1,
        ) > retention,
        forall|j: int|
            k <= j < spec_kept_from(segs, retention, k) ==> #[trigger] spec_sum_last(segs, j + 1)
                <= retention,
    decreases segs.len() - k,
{
    if k < segs.len() && spec_sum_last(segs, k + 1) <= retention {
        lemma_kept_from_is_least(segs, retention, k + 1);
    }
}

/// Removing the oldest segment of a cleaned log leaves the bytes of the
/// others: the sum over the last `k` segments does not depend on the older
/// ones.
pub proof fn lemma_sum_last_suffix(segs: Seq<Segment>, r: int, k: int)
    requires
        0 <= r <= segs.len(),
        0 <= k <= segs.len() - r,
    ensures
        spec_sum_last(segs.subrange(r, segs.len() as int), k) == spec_sum_last(segs, k),
    decreases k,
{
    if k > 0 {
        lemma_sum_last_suffix(segs, r, k - 1);
    }
}

/// Law: cleaning never removes the newest segment; once the segments hold
/// more bytes than the retention, at least one oldest segment is removed;
/// the segments kept hold at most the retention unless only the newest is
/// left; and a segment is removed only when keeping it too would pass the
/// retention.
pub proof fn lemma_clean_keeps_newest(segs: Seq<Segment>, retention: u64)
    requires
        segs.len() >= 1,
    ensures
        0 <= spec_removed_count(segs, retention) < segs.len(),
        segs.len() >= 2 && spec_sum_last(segs, segs.len() as int) > retention ==> spec_removed_count(
            segs,
            retention,
        ) >= 1,
        segs.len() - spec_removed_count(segs, retention) == 1 || spec_sum_last(
            segs,
            segs.len() - spec_removed_count(segs, retention),
        ) <= retention,
        spec_removed_count(segs, retention) > 0 ==> spec_sum_last(
            segs,
            segs.len() - spec_removed_count(segs, retention) + 1,
        ) > retention,
{
    lemma_kept_from_is_least(segs, retention, 1);
    let kept = spec_kept_from(segs, retention, 1);
    if kept >= 2 {
        assert(spec_sum_last(segs, (kept - 1) + 1) <= retention);
    }
}

/// The cleaner of a commit log, based on a retention size in bytes.
pub struct Cleaner {
    retention_bytes: u64,
}

impl Cleaner {
    /// The number of bytes the cleaner retains.
    pub closed spec fn spec_retention(&self) -> u64 {
        self.retention_bytes
    }

    /// Initializes a new cleaner, based on a retention size in bytes.
    pub fn new(bytes_to_retain: u64) -> (c: Cleaner)
        ensures
            c.spec_retention() == bytes_to_retain,
    {
        Cleaner { retention_bytes: bytes_to_retain }
    }

    /// The number of oldest segments that cleaning removes: the newest
    /// segments are kept, from the newest on, until the bytes already kept
    /// exceed the retention.
    pub fn segments_to_remove(&self, segments: &Vec<Segment>) -> (n: usize)
        requires
            spec_count_fits(segments@, self.spec_retention()),
        ensures
            n == spec_removed_count(segments@, self.spec_retention()),
    {
        let len = segments.len();
        if len == 0 {
            return 0;
        }
        assert(spec_sum_last(segments@, 1) == segments@[len - 1].spec_position() + spec_sum_last(
            segments@,
            0,
        ));
        let mut total_bytes: u64 = segments[len - 1].get_position() as u64;
        let mut kept: usize = 1;
        while kept < len
            invariant
                len == segments@.len(),
                1 <= kept <= len,
                total_bytes == spec_sum_last(segments@, kept as int),
                spec_kept_from(segments@, self.spec_retention(), 1) == spec_kept_from(
                    segments@,
                    self.spec_retention(),
                    kept as int,
                ),
                kept >= 2 ==> total_bytes <= self.spec_retention(),
                spec_count_fits(segments@, self.spec_retention()),
            ensures
                1 <= kept <= len,
                spec_kept_from(segments@, self.spec_retention(), 1) == spec_kept_from(
                    segments@,
                    self.spec_retention(),
                    kept as int,
                ),
                kept == len || spec_sum_last(segments@, kept + 1) > self.spec_retention(),
            decreases len - kept,
        {
            let i = len - 1 - kept;
            assert(spec_sum_last(segments@, kept + 1) == segments@[i as int].spec_position()
                + spec_sum_last(segments@, kept as int));
            if total_bytes > self.retention_bytes {
                break;
            }
            let next = total_bytes + segments[i].get_position() as u64;
            if next > self.retention_bytes {
                break;
            }
            total_bytes = next;
            kept = kept + 1;
        }
        assert(spec_kept_from(segments@, self.spec_retention(), kept as int) == kept);
        len - kept
    }

    /// Cleans up the segments based on the cleaner's retention bytes: if the
    /// total bytes stored on segments exceed the retention, the oldest
    /// segments are removed.
    pub fn clean(&self, segments: &mut Vec<Segment>) -> (r: Result<bool, CleanerError>)
        requires
            spec_count_fits(old(segments)@, self.spec_retention()),
        ensures
            r matches Ok(b) && b,
            final(segments)@ == old(segments)@.subrange(
                spec_removed_count(old(segments)@, self.spec_retention()),
                old(segments)@.len() as int,
            ),
            old(segments)@.len() >= 1 ==> final(segments)@.len() >= 1,
            old(segments)@.len() >= 2 && spec_sum_last(old(segments)@, old(segments)@.len() as int)
                > self.spec_retention() ==> final(segments)@.len() < old(segments)@.len(),
    {
        let to_remove = self.segments_to_remove(segments);
        proof {
            if old(segments)@.len() > 0 {
                lemma_kept_from_is_least(old(segments)@, self.spec_retention(), 1);
                lemma_clean_keeps_newest(old(segments)@, self.spec_retention());
            }
        }
        let mut j: usize = 0;
        while j < to_remove
            invariant
                j <= to_remove <= old(segments)@.len(),
                segments@ == old(segments)@.subrange(j as int, old(segments)@.len() as int),
            decreases to_remove - j,
        {
            segments.remove(0);
            j = j + 1;
            assert(segments@ =~= old(segments)@.subrange(j as int, old(segments)@.len() as int));
        }
        Ok(true)
    }
}

impl Default for Cleaner {
    /// A cleaner retaining no bytes: it keeps only the newest segment.
    fn default() -> (c: Cleaner)
        ensures
            c.spec_retention() == 0,
    {
        Cleaner::new(0)
    }
}

} // verus!

//! Consumers: read the messages of a topic from the offset of their
//! consumer group on, and move that offset past what they read.
use vstd::prelude::*;
use crate::commitlog::{Commitlog, lemma_read_is_clean, lemma_read_past_end};
use crate::codec::spec_decode_message;
use crate::message::Message;
use crate::topic::ConsumerGroup;

verus! {

/// The number of consecutive offsets from `from` on that the log holds: a
/// read stops at the first one that gives no message.
pub open spec fn spec_run_len(cl: Commitlog, from: int) -> nat
    decreases cl.spec_next_offset() - from,
{
    if from < cl.spec_next_offset() && cl.spec_read(from) is Ok {
        1 + spec_run_len(cl, from + 1)
    } else {
        0
    }
}

/// The message stored at `offset` (meaningful where the read succeeds).
pub open spec fn spec_record(cl: Commitlog, offset: int) -> Seq<u8> {
    match cl.spec_read(offset) {
        Ok(data) => data,
        Err(_) => Seq::empty(),
    }
}

/// The messages of the run from `from` on, in order.
pub open spec fn spec_run(cl: Commitlog, from: int) -> Seq<Seq<u8>> {
    Seq::new(spec_run_len(cl, from), |k: int| spec_record(cl, from + k))
}

/// Every message of the run from `from` on holds an encoded message.
pub open spec fn spec_run_decodes(cl: Commitlog, from: int) -> bool {
    forall|i: int|
        0 <= i < spec_run_len(cl, from) ==> #[trigger] spec_decode_message(spec_record(cl, from + i))
            is Some
}

/// The run ends before the offset that the next append gets.
pub proof fn lemma_run_len_bound(cl: Commitlog, from: int)
    ensures
        from + spec_run_len(cl, from) <= if from <= cl.spec_next_offset() {
            cl.spec_next_offset()
        } else {
            from
        },
    decreases cl.spec_next_offset() - from,
{
    if from < cl.spec_next_offset() && cl.spec_read(from) is Ok {
        lemma_run_len_bound(cl, from + 1);
    }
}

/// When the offsets `from`, ..., `from + n - 1` hold the messages `data`
/// and the next offset holds none, the run from `from` is `data`.
pub proof fn lemma_run_is(cl: Commitlog, from: int, data: Seq<Seq<u8>>)
    requires
        cl.wf(),
        forall|j: int| 0 <= j < data.len() ==> #[trigger] cl.spec_read(from + j) == Ok::<
            Seq<u8>,
            Seq<char>,
        >(data[j]),
        cl.spec_read(from + data.len()) is Err,
    ensures
        spec_run(cl, from) == data,
    decreases data.len(),
{
    if data.len() == 0 {
        assert(spec_run(cl, from) =~= data);
    } else {
        assert(cl.spec_read(from + 0) == Ok::<Seq<u8>, Seq<char>>(data[0]));
        if from >= cl.spec_next_offset() {
            lemma_read_past_end(cl, from);
        }
        let rest = data.drop_first();
        assert forall|j: int| 0 <= j < rest.len() implies #[trigger] cl.spec_read((from + 1) + j)
            == Ok::<Seq<u8>, Seq<char>>(rest[j]) by {
            assert(cl.spec_read(from + (j + 1)) == Ok::<Seq<u8>, Seq<char>>(data[j + 1]));
            assert(from + (j + 1) == (from + 1) + j);
        }
        assert(from + 1 + rest.len() == from + data.len());
        lemma_run_is(cl, from + 1, rest);
        assert(spec_run_len(cl, from) == 1 + spec_run_len(cl, from + 1));
        assert forall|k: int| 0 <= k < data.len() implies #[trigger] spec_run(cl, from)[k] == data[k] by {
            if k > 0 {
                assert(spec_run(cl, from + 1)[k - 1] == rest[k - 1]);
                assert(from + 1 + (k - 1) == from + k);
            }
        }
        assert(spec_run(cl, from) =~= data);
    }
}

/// Reads the messages at consecutive offsets from `from` on, up to the
/// first offset that the log does not hold, and gives them with the offset
/// that follows them.
pub fn read_records(commitlog: &mut Commitlog, from: u32) -> (r: (Vec<Vec<u8>>, u32))
    requires
        old(commitlog).readable(),
    ensures
        *final(commitlog) == *old(commitlog),
        r.0@.len() == spec_run_len(*old(commitlog), from as int),
        r.1 == from + spec_run_len(*old(commitlog), from as int),
        forall|i: int|
            0 <= i < r.0@.len() ==> (#[trigger] r.0@[i])@ == spec_record(
                *old(commitlog),
                from + i,
            ),
{
    let ghost cl = *commitlog;
    let mut records: Vec<Vec<u8>> = Vec::new();
    let mut off: u32 = from;
    proof {
        lemma_run_len_bound(cl, from as int);
    }
    loop
        invariant
            *commitlog == cl,
            cl.readable(),
            from <= off,
            off == from + records@.len(),
            spec_run_len(cl, from as int) == records@.len() + spec_run_len(cl, off as int),
            forall|i: int|
                0 <= i < records@.len() ==> (#[trigger] records@[i])@ == spec_record(cl, from + i),
        ensures
            *commitlog == cl,
            off == from + records@.len(),
            spec_run_len(cl, from as int) == records@.len(),
            forall|i: int|
                0 <= i < records@.len() ==> (#[trigger] records@[i])@ == spec_record(cl, from + i),
        decreases cl.spec_next_offset() - off,
    {
        proof {
            lemma_read_is_clean(cl, off as int);
        }
        match commitlog.read(off as usize) {
            Ok(buffer) => {
                proof {
                    if off >= cl.spec_next_offset() {
                        lemma_read_past_end(cl, off as int);
                    }
                    assert(cl.spec_next_offset() <= u16::MAX) by {
                        if cl.spec_segments().len() > 0 {
                            assert(cl.spec_segments().last().spec_next_offset() <= u16::MAX);
                        }
                    }
                }
                records.push(buffer);
                off = off + 1;
            },
            Err(_) => {
                break;
            },
        }
    }
    (records, off)
}

/// A consumer of a topic: it reads the topic's commit log for its consumer
/// group.
pub struct Consumer {
    pub topic: String,
    pub commitlog: Commitlog,
    pub consumer_offset: usize,
    pub consumer_group: ConsumerGroup,
}

impl Consumer {
    /// A consumer of `topic`, reading `commitlog` for `consumer_group`; its
    /// own offset starts at the oldest offset of the log, which must hold a
    /// segment.
    pub fn new(commitlog: Commitlog, topic: String, consumer_group: ConsumerGroup) -> (c: Consumer)
        requires
            commitlog.spec_segments().len() > 0,
        ensures
            c.topic == topic,
            c.commitlog == commitlog,
            c.consumer_group == consumer_group,
            c.consumer_offset == commitlog.spec_segments()[0].spec_starting_offset(),
    {
        let mut cl = commitlog;
        let offset = cl.get_oldest_offset();
        Consumer { topic, commitlog: cl, consumer_offset: offset, consumer_group }
    }

    /// Moves the consumer group's offset up to the oldest offset of the log
    /// when it lies before it (those messages were cleaned away). Tells
    /// whether it moved, so that the state can be saved.
    pub fn consumer_group_initialize(&mut self) -> (moved: bool)
        requires
            old(self).commitlog.spec_segments().len() > 0,
        ensures
            final(self).topic == old(self).topic,
            final(self).commitlog == old(self).commitlog,
            final(self).consumer_offset == old(self).consumer_offset,
            final(self).consumer_group.name == old(self).consumer_group.name,
            moved == (old(self).consumer_group.offset < old(self).commitlog.spec_segments()[0].spec_starting_offset()),
            final(self).consumer_group.offset == if moved {
                old(self).commitlog.spec_segments()[0].spec_starting_offset() as u32
            } else {
                old(self).consumer_group.offset
            },
    {
        let oldest = self.commitlog.get_oldest_offset();
        if (self.consumer_group.offset as usize) < oldest {
            self.consumer_group.offset = oldest as u32;
            true
        } else {
            false
        }
    }

    /// Reads the messages available to the consumer group, from its offset
    /// up to the first offset that the log does not hold, as stored bytes,
    /// and moves the group's offset past them.
    pub fn poll_records(&mut self) -> (records: Vec<Vec<u8>>)
        requires
            old(self).commitlog.readable(),
        ensures
            final(self).topic == old(self).topic,
            final(self).commitlog == old(self).commitlog,
            final(self).consumer_offset == old(self).consumer_offset,
            final(self).consumer_group.name == old(self).consumer_group.name,
            records@.len() == spec_run_len(old(self).commitlog, old(self).consumer_group.offset as int),
            final(self).consumer_group.offset == old(self).consumer_group.offset + records@.len(),
            forall|i: int|
                0 <= i < records@.len() ==> (#[trigger] records@[i])@ == spec_record(
                    old(self).commitlog,
                    old(self).consumer_group.offset + i,
                ),
    {
        let (records, next) = read_records(&mut self.commitlog, self.consumer_group.offset);
        self.consumer_group.offset = next;
        records
    }

    /// Reads the messages available to the consumer group and moves the
    /// group's offset past them; each stored message must decode.
    pub fn poll(&mut self) -> (messages: Vec<Message>)
        requires
            old(self).commitlog.readable(),
            spec_run_decodes(old(self).commitlog, old(self).consumer_group.offset as int),
        ensures
            final(self).topic == old(self).topic,
            final(self).commitlog == old(self).commitlog,
            final(self).consumer_offset == old(self).consumer_offset,
            final(self).consumer_group.name == old(self).consumer_group.name,
            messages@.len() == spec_run_len(old(self).commitlog, old(self).consumer_group.offset as int),
            final(self).consumer_group.offset == old(self).consumer_group.offset + messages@.len(),
            forall|i: int|
                0 <= i < messages@.len() ==> spec_decode_message(
                    spec_record(old(self).commitlog, old(self).consumer_group.offset + i),
                ) == Some(
                    ((#[trigger] messages@[i]).key@, messages@[i].value@, messages@[i].timestamp),
                ),
    {
        let ghost cl = self.commitlog;
        let ghost from = self.consumer_group.offset as int;
        let records = self.poll_records();
        let mut messages: Vec<Message> = Vec::new();
        let mut i: usize = 0;
        while i < records.len()
            invariant
                i <= records@.len(),
                messages@.len() == i,
                records@.len() == spec_run_len(cl, from),
                spec_run_decodes(cl, from),
                forall|k: int|
                    0 <= k < records@.len() ==> (#[trigger] records@[k])@ == spec_record(cl, from + k),
                forall|k: int|
                    0 <= k < i ==> spec_decode_message(spec_record(cl, from + k)) == Some(
                        ((#[trigger] messages@[k]).key@, messages@[k].value@, messages@[k].timestamp),
                    ),
            decreases records@.len() - i,
        {
            assert(records@[i as int]@ == spec_record(cl, from + i));
            assert(spec_decode_message(spec_record(cl, from + i)) is Some);
            let m = Message::deserialize_message(records[i].as_slice());
            messages.push(m);
            i = i + 1;
        }
        messages
    }

    /// The topic the consumer reads.
    pub fn get_topic(&self) -> (t: String)
        ensures
            t@ == self.topic@,
    {
        self.topic.clone()
    }

    /// The consumer's own offset: the oldest offset of the log when it was
    /// made.
    pub fn get_offset(&self) -> (o: usize)
        ensures
            o == self.consumer_offset,
    {
        self.consumer_offset
    }

    /// Moves the consumer group's offset by one, wrapping around at the
    /// largest `u32`.
    pub fn update_consumer_group_offset(&mut self)
        ensures
            final(self).topic == old(self).topic,
            final(self).commitlog == old(self).commitlog,
            final(self).consumer_offset == old(self).consumer_offset,
            final(self).consumer_group.name == old(self).consumer_group.name,
            final(self).consumer_group.offset == if old(self).consumer_group.offset == u32::MAX {
                0
            } else {
                old(self).consumer_group.offset + 1
            },
    {
        self.consumer_group.offset = self.consumer_group.offset.wrapping_add(1);
    }
}

} // verus!

//! The commit log's own producer and consumer: a producer appends bytes to
//! the log of a directory, and a consumer reads it from its own offset.
use vstd::prelude::*;
use crate::codec::spec_decode_message;
use crate::commitlog::{Commitlog, lemma_read_past_end};
use crate::consumer::{read_records, spec_record, spec_run_decodes, spec_run_len};
use crate::message::Message;

verus! {

/// A consumer of the commit log in the directory `topic`, reading from its
/// own offset.
pub struct Consumer {
    pub topic: String,
    pub commitlog: Commitlog,
    pub consumer_offset: usize,
}

impl Consumer {
    /// A consumer of the commit log in the directory `topic`, from offset 0.
    pub fn new(topic: String) -> (c: Consumer)
        ensures
            c.topic == topic,
            c.commitlog.wf(),
            c.commitlog.sound(),
            c.commitlog.spec_segments().len() == 0,
            c.commitlog.spec_directory() == topic@,
            c.consumer_offset == 0,
    {
        let cl = Commitlog::new(topic.clone());
        Consumer { topic, commitlog: cl, consumer_offset: 0 }
    }

    /// Reads the messages from the consumer's offset up to the first offset
    /// that the log does not hold, and moves the offset past them; each
    /// stored message must decode.
    pub fn poll(&mut self) -> (records: Vec<Message>)
        requires
            old(self).commitlog.readable(),
            spec_run_decodes(old(self).commitlog, old(self).consumer_offset as int),
        ensures
            final(self).topic == old(self).topic,
            final(self).commitlog == old(self).commitlog,
            records@.len() == spec_run_len(old(self).commitlog, old(self).consumer_offset as int),
            final(self).consumer_offset == old(self).consumer_offset + records@.len(),
            forall|i: int|
                0 <= i < records@.len() ==> spec_decode_message(
                    spec_record(old(self).commitlog, old(self).consumer_offset + i),
                ) == Some(
                    ((#[trigger] records@[i]).key@, records@[i].value@, records@[i].timestamp),
                ),
    {
        let ghost cl = self.commitlog;
        let ghost from = self.consumer_offset as int;
        if self.consumer_offset > 0xffff_ffffusize {
            proof {
                assert(cl.spec_next_offset() <= u16::MAX) by {
                    if cl.spec_segments().len() > 0 {
                        assert(cl.spec_segments().last().spec_next_offset() <= u16::MAX);
                    }
                }
                lemma_read_past_end(cl, from);
            }
            return Vec::new();
        }
        let (raw, next) = read_records(&mut self.commitlog, self.consumer_offset as u32);
        self.consumer_offset = next as usize;
        let mut records: Vec<Message> = Vec::new();
        let mut i: usize = 0;
        while i < raw.len()
            invariant
                i <= raw@.len(),
                records@.len() == i,
                raw@.len() == spec_run_len(cl, from),
                spec_run_decodes(cl, from),
                forall|k: int| 0 <= k < raw@.len() ==> (#[trigger] raw@[k])@ == spec_record(cl, from + k),
                forall|k: int|
                    0 <= k < i ==> spec_decode_message(spec_record(cl, from + k)) == Some(
                        ((#[trigger] records@[k]).key@, records@[k].value@, records@[k].timestamp),
                    ),
            decreases raw@.len() - i,
        {
            assert(raw@[i as int]@ == spec_record(cl, from + i));
            assert(spec_decode_message(spec_record(cl, from + i)) is Some);
            records.push(Message::deserialize_message(raw[i].as_slice()));
            i = i + 1;
        }
        records
    }

    /// The directory of the commit log the consumer reads.
    pub fn get_topic(&self) -> (t: String)
        ensures
            t@ == self.topic@,
    {
        self.topic.clone()
    }
}

/// A producer appending to the commit log in the directory `topic`.
pub struct Producer {
    pub topic: String,
    pub commitlog: Commitlog,
}

impl Producer {
    /// A producer of the commit log in the directory `topic`.
    pub fn new(topic: String) -> (p: Producer)
        ensures
            p.topic == topic,
            p.commitlog.wf(),
            p.commitlog.sound(),
            p.commitlog.spec_segments().len() == 0,
            p.commitlog.spec_directory() == topic@,
    {
        let cl = Commitlog::new(topic.clone());
        Producer { topic, commitlog: cl }
    }

    /// Appends `message` to the commit log.
    pub fn produce(&mut self, message: &[u8])
        requires
            old(self).commitlog.wf(),
            old(self).commitlog.spec_can_append(message@.len() as int),
        ensures
            final(self).topic == old(self).topic,
            final(self).commitlog.wf(),
            old(self).commitlog.sound() ==> final(self).commitlog.sound(),
            Commitlog::spec_appended(old(self).commitlog, message@, final(self).commitlog),
    {
        let _ = self.commitlog.append(message);
    }

    /// The directory of the commit log the producer writes to.
    pub fn get_topic(&self) -> (t: String)
        ensures
            t@ == self.topic@,
    {
        self.topic.clone()
    }
}

} // verus!

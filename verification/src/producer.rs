//! Producers: append messages to the commit log of a topic.
use vstd::prelude::*;
use crate::codec::{spec_message_bytes, spec_decode_message};
use crate::commitlog::{Commitlog, lemma_read_after_append};
use crate::consumer::spec_record;
use crate::message::{Message, lemma_message_roundtrip};

verus! {

/// A producer of a topic: it appends to the topic's commit log.
pub struct Producer {
    pub topic: String,
    pub commitlog: Commitlog,
}

impl Producer {
    /// A producer of the topic `topic_name`, whose commit log lies in
    /// `directory` with the given largest segment size and retention.
    pub fn new(
        directory: String,
        topic_name: String,
        max_segment_size_bytes: u64,
        max_commitlog_size: u64,
    ) -> (p: Producer)
        ensures
            p.topic@ == topic_name@,
            p.commitlog.wf(),
            p.commitlog.sound(),
            p.commitlog.spec_segments().len() == 0,
            p.commitlog.spec_directory() == directory@,
            p.commitlog.spec_max_segment_size() == max_segment_size_bytes,
            p.commitlog.spec_retention() == max_commitlog_size,
    {
        let cl = Commitlog::with_limits(directory, max_segment_size_bytes, max_commitlog_size);
        Producer { topic: topic_name, commitlog: cl }
    }

    /// Appends the stored bytes of `message` to the commit log and gives
    /// the offset it got.
    pub fn produce_message(&mut self, message: Message) -> (offset: u16)
        requires
            old(self).commitlog.wf(),
            old(self).commitlog.spec_can_append(
                spec_message_bytes(message.key@, message.value@, message.timestamp).len() as int,
            ),
        ensures
            final(self).topic == old(self).topic,
            final(self).commitlog.wf(),
            old(self).commitlog.sound() ==> final(self).commitlog.sound(),
            offset == old(self).commitlog.spec_next_offset(),
            final(self).commitlog.spec_directory() == old(self).commitlog.spec_directory(),
            final(self).commitlog.spec_max_segment_size() == old(self).commitlog.spec_max_segment_size(),
            final(self).commitlog.spec_retention() == old(self).commitlog.spec_retention(),
            Commitlog::spec_appended(
                old(self).commitlog,
                spec_message_bytes(message.key@, message.value@, message.timestamp),
                final(self).commitlog,
            ),
    {
        let mut message = message;
        let message_bytes = message.serialize_message();
        self.commitlog.append(message_bytes.as_slice())
    }

    /// Appends `bytes` to the commit log and gives the offset they got.
    pub fn produce_bytes(&mut self, bytes: &[u8]) -> (offset: u16)
        requires
            old(self).commitlog.wf(),
            old(self).commitlog.spec_can_append(bytes@.len() as int),
        ensures
            final(self).topic == old(self).topic,
            final(self).commitlog.wf(),
            old(self).commitlog.sound() ==> final(self).commitlog.sound(),
            offset == old(self).commitlog.spec_next_offset(),
            final(self).commitlog.spec_directory() == old(self).commitlog.spec_directory(),
            final(self).commitlog.spec_max_segment_size() == old(self).commitlog.spec_max_segment_size(),
            final(self).commitlog.spec_retention() == old(self).commitlog.spec_retention(),
            Commitlog::spec_appended(old(self).commitlog, bytes@, final(self).commitlog),
    {
        self.commitlog.append(bytes)
    }

    /// The topic the producer writes to.
    pub fn get_topic(&self) -> (t: String)
        ensures
            t@ == self.topic@,
    {
        self.topic.clone()
    }
}

/// Law: a produced message reads back. Once a message is appended, reading
/// the offset it got gives bytes that decode to its key, value and
/// timestamp.
pub proof fn lemma_produced_message_reads_back(
    old: Commitlog,
    new: Commitlog,
    key: Seq<u8>,
    value: Seq<u8>,
    timestamp: i64,
)
    requires
        old.sound(),
        new.wf(),
        key.len() <= usize::MAX,
        value.len() <= usize::MAX,
        Commitlog::spec_appended(old, spec_message_bytes(key, value, timestamp), new),
    ensures
        new.spec_read(old.spec_next_offset()) is Ok,
        spec_decode_message(spec_record(new, old.spec_next_offset())) == Some((key, value, timestamp)),
{
    lemma_read_after_append(old, spec_message_bytes(key, value, timestamp), new);
    lemma_message_roundtrip(key, value, timestamp);
}

} // verus!

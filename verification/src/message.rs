//! Messages: a key, a value and a timestamp, stored in the commit log in
//! their `bincode` encoding.
use vstd::prelude::*;
use vstd::bytes::*;
use crate::codec::{
    bincode_serialize_message, bincode_deserialize_message, spec_message_bytes,
    spec_decode_message, spec_read_byte_seq,
};

verus! {

/// A message of a topic.
#[derive(Debug, PartialEq, Eq)]
pub struct Message {
    pub key: Vec<u8>,
    pub value: Vec<u8>,
    pub timestamp: i64,
}

/// Copies a byte slice into a new vector.
fn bytes_to_vec(s: &[u8]) -> (v: Vec<u8>)
    ensures
        v@ == s@,
{
    let mut v: Vec<u8> = Vec::new();
    crate::bytes_util::extend_bytes(&mut v, s);
    v
}

impl Message {
    /// A message with the given key, value and timestamp (milliseconds
    /// since the Unix epoch).
    pub fn new(key: &[u8], value: &[u8], timestamp: i64) -> (m: Message)
        ensures
            m.key@ == key@,
            m.value@ == value@,
            m.timestamp == timestamp,
    {
        Message { key: bytes_to_vec(key), value: bytes_to_vec(value), timestamp }
    }

    /// A message with the given key, value and timestamp.
    pub fn new_with_timestamp(key: &[u8], value: &[u8], timestamp: i64) -> (m: Message)
        ensures
            m.key@ == key@,
            m.value@ == value@,
            m.timestamp == timestamp,
    {
        Self::new(key, value, timestamp)
    }

    /// A copy of the message.
    pub fn copy(&self) -> (m: Message)
        ensures
            m.key@ == self.key@,
            m.value@ == self.value@,
            m.timestamp == self.timestamp,
    {
        Message { key: self.key.clone(), value: self.value.clone(), timestamp: self.timestamp }
    }

    /// The bytes of the message as the commit log stores them: the key and
    /// the value, each preceded by its length, then the timestamp.
    pub fn serialize_message(&mut self) -> (bytes: Vec<u8>)
        ensures
            *final(self) == *old(self),
            bytes@ == spec_message_bytes(old(self).key@, old(self).value@, old(self).timestamp),
    {
        match bincode_serialize_message(self.key.as_slice(), self.value.as_slice(), self.timestamp) {
            Ok(bytes) => bytes,
            Err(_) => Vec::new(),
        }
    }

    /// The message that `message_bytes` holds. The bytes must hold one.
    pub fn deserialize_message(message_bytes: &[u8]) -> (m: Message)
        requires
            spec_decode_message(message_bytes@) is Some,
        ensures
            spec_decode_message(message_bytes@) == Some((m.key@, m.value@, m.timestamp)),
    {
        match Self::try_deserialize_message(message_bytes) {
            Some(m) => m,
            None => Message { key: Vec::new(), value: Vec::new(), timestamp: 0 },
        }
    }

    /// The message that `message_bytes` holds, or `None` when they hold
    /// none.
    pub fn try_deserialize_message(message_bytes: &[u8]) -> (r: Option<Message>)
        ensures
            match r {
                Some(m) => spec_decode_message(message_bytes@) == Some((m.key@, m.value@, m.timestamp)),
                None => spec_decode_message(message_bytes@) is None,
            },
    {
        match bincode_deserialize_message(message_bytes) {
            Ok((key, value, timestamp)) => Some(Message { key, value, timestamp }),
            Err(_) => None,
        }
    }
}

/// Reading a length-prefixed sequence from the encoding of `s` followed by
/// more bytes gives `s` and the length of its encoding.
proof fn lemma_read_byte_seq_encoded(s: Seq<u8>, rest: Seq<u8>)
    requires
        s.len() <= usize::MAX,
    ensures
        spec_read_byte_seq(spec_u64_to_le_bytes(s.len() as u64) + s + rest) == Some((s, 8 + s.len() as int)),
{
    lemma_auto_spec_u64_to_from_le_bytes();
    let b = spec_u64_to_le_bytes(s.len() as u64) + s + rest;
    assert(b.subrange(0, 8) =~= spec_u64_to_le_bytes(s.len() as u64));
    assert(b.subrange(8, 8 + s.len() as int) =~= s);
}

/// Law: decoding the stored bytes of a message gives back its key, its
/// value and its timestamp.
pub proof fn lemma_message_roundtrip(key: Seq<u8>, value: Seq<u8>, timestamp: i64)
    requires
        key.len() <= usize::MAX,
        value.len() <= usize::MAX,
    ensures
        spec_decode_message(spec_message_bytes(key, value, timestamp)) == Some((key, value, timestamp)),
{
    lemma_auto_spec_u64_to_from_le_bytes();
    let kb = spec_u64_to_le_bytes(key.len() as u64);
    let vb = spec_u64_to_le_bytes(value.len() as u64);
    let tb = spec_u64_to_le_bytes(timestamp as u64);
    let bytes = spec_message_bytes(key, value, timestamp);
    let rest1 = vb + value + tb;
    assert(bytes =~= kb + key + rest1);
    lemma_read_byte_seq_encoded(key, rest1);
    let k = 8 + key.len();
    assert(bytes.subrange(k as int, bytes.len() as int) =~= rest1);
    lemma_read_byte_seq_encoded(value, tb);
    let v = 8 + value.len();
    assert(rest1.subrange(v as int, rest1.len() as int) =~= tb);
    assert(tb.subrange(0, 8) =~= tb);
    assert((timestamp as u64) as i64 == timestamp) by (bit_vector);
}

} // verus!

//! Byte encodings used by the commit log, produced and read by `bincode`.
//!
//! `bincode::serialize` and `bincode::deserialize` use fixed-width,
//! little-endian integers, write a sequence as its length (a `u64`)
//! followed by its items, and accept trailing bytes when reading.
use vstd::prelude::*;
use vstd::bytes::*;

verus! {

#[verifier::external_type_specification]
#[verifier::external_body]
pub struct ExBincodeErrorKind(bincode::ErrorKind);

/// The bytes of an index entry: its start position, then its length.
pub open spec fn spec_entry_bytes(start: u32, total: u32) -> Seq<u8> {
    spec_u32_to_le_bytes(start) + spec_u32_to_le_bytes(total)
}

/// The bytes of a message: the key and the value, each preceded by its
/// length, then the timestamp.
pub open spec fn spec_message_bytes(key: Seq<u8>, value: Seq<u8>, timestamp: i64) -> Seq<u8> {
    spec_u64_to_le_bytes(key.len() as u64) + key + spec_u64_to_le_bytes(value.len() as u64) + value
        + spec_u64_to_le_bytes(timestamp as u64)
}

/// Reads one length-prefixed byte sequence at the start of `bytes`, giving
/// the sequence and the number of bytes it took.
pub open spec fn spec_read_byte_seq(bytes: Seq<u8>) -> Option<(Seq<u8>, int)> {
    if bytes.len() < 8 {
        None
    } else {
        let n = spec_u64_from_le_bytes(bytes.subrange(0, 8)) as int;
        if n > usize::MAX || bytes.len() < 8 + n {
            None
        } else {
            Some((bytes.subrange(8, 8 + n), 8 + n))
        }
    }
}

/// The message that a byte sequence holds, if it holds one: a key, a value
/// and a timestamp, with any bytes after them ignored.
pub open spec fn spec_decode_message(bytes: Seq<u8>) -> Option<(Seq<u8>, Seq<u8>, i64)> {
    match spec_read_byte_seq(bytes) {
        None => None,
        Some((key, k)) => {
            let rest = bytes.subrange(k, bytes.len() as int);
            match spec_read_byte_seq(rest) {
                None => None,
                Some((value, v)) => {
                    let tail = rest.subrange(v, rest.len() as int);
                    if tail.len() < 8 {
                        None
                    } else {
                        Some((key, value, spec_u64_from_le_bytes(tail.subrange(0, 8)) as i64))
                    }
                },
            }
        },
    }
}

/// `bincode::serialize` of the pair `(a, b)` of `u32`: the two values as
/// little-endian bytes, one after the other. Writing into a `Vec` with no
/// size limit cannot fail, so the result is `Ok`.
#[verifier::external_body]
pub(crate) fn bincode_serialize_u32_pair(a: u32, b: u32) -> (r: Result<
    Vec<u8>,
    Box<bincode::ErrorKind>,
>)
    ensures
        match r {
            Ok(bytes) => bytes@ == spec_entry_bytes(a, b),
            Err(_) => false,
        },
{
    bincode::serialize(&(a, b))
}

/// `bincode::deserialize` of a pair of `u32` from eight bytes: each value
/// is read as four little-endian bytes; eight bytes are always enough, so
/// the result is `Ok`.
#[verifier::external_body]
pub(crate) fn bincode_deserialize_u32_pair(bytes: &[u8]) -> (r: Result<
    (u32, u32),
    Box<bincode::ErrorKind>,
>)
    requires
        bytes@.len() == 8,
    ensures
        match r {
            Ok((a, b)) => a == spec_u32_from_le_bytes(bytes@.subrange(0, 4)) && b
                == spec_u32_from_le_bytes(bytes@.subrange(4, 8)),
            Err(_) => false,
        },
{
    bincode::deserialize::<(u32, u32)>(bytes)
}

/// `bincode::serialize` of the triple `(key, value, timestamp)`: each byte
/// slice as its length (eight little-endian bytes) and its bytes, then the
/// timestamp as eight little-endian bytes. Writing into a `Vec` with no size
/// limit cannot fail, so the result is `Ok`.
#[verifier::external_body]
pub(crate) fn bincode_serialize_message(key: &[u8], value: &[u8], timestamp: i64) -> (r: Result<
    Vec<u8>,
    Box<bincode::ErrorKind>,
>)
    ensures
        match r {
            Ok(bytes) => bytes@ == spec_message_bytes(key@, value@, timestamp),
            Err(_) => false,
        },
{
    bincode::serialize(&(key, value, timestamp))
}

/// `bincode::deserialize` of a triple `(Vec<u8>, Vec<u8>, i64)`: it
/// succeeds exactly when the bytes start with a length-prefixed key, a
/// length-prefixed value and eight bytes of timestamp, and then gives them.
#[verifier::external_body]
pub(crate) fn bincode_deserialize_message(bytes: &[u8]) -> (r: Result<
    (Vec<u8>, Vec<u8>, i64),
    Box<bincode::ErrorKind>,
>)
    ensures
        match r {
            Ok((key, value, timestamp)) => spec_decode_message(bytes@) == Some(
                (key@, value@, timestamp),
            ),
            Err(_) => spec_decode_message(bytes@) is None,
        },
{
    bincode::deserialize::<(Vec<u8>, Vec<u8>, i64)>(bytes)
}

} // verus!

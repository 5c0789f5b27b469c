//! The messages of the topic schema: requests on topics and the answers to
//! them, with the accessors of their fields.
//!
//! Each message is held as the values of its fields; a pointer field that
//! was never set reads as empty. The union of a message is its
//! discriminant: `which` tells the variant it names, and an unknown
//! discriminant is reported as not in the schema.
use vstd::prelude::*;

pub mod topic_request;
pub mod topic_response;


verus! {

/// A discriminant that names no variant of a union of the schema.
#[derive(Debug, Clone, Copy, PartialEq, Eq)]
pub struct NotInSchema(pub u16);

/// The size of a message, in words and capabilities.
#[derive(Debug, Clone, Copy, PartialEq, Eq)]
pub struct MessageSize {
    pub word_count: u64,
    pub cap_count: u32,
}

} // verus!

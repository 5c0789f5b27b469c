//! LucidMQ: an event-streaming library built on an append-only commit log.
//!
//! The `nolan` layer is the commit log (index, segments, cleaner, commit
//! log); on it stand topics and their consumer groups, producers and
//! consumers, the broker's handling of requests, the framing of protocol
//! messages, the accessors of the topic schema and the text a client prints
//! for a response.
use vstd::prelude::*;

pub mod text;
pub mod nolan_errors;
pub mod lucidmq_errors;
pub mod codec;
pub mod bytes_util;
pub mod index;
pub mod utils;
pub mod virtual_segment;
pub mod segment;
pub mod cleaner;
pub mod commitlog;
pub mod segment_files;
pub mod topic_capnp;
pub mod random;
pub mod topic;
pub mod message;
pub mod consumer;
pub mod producer;
pub mod types;
pub mod cap_n_proto_helper;
pub mod broker;
pub mod lucid;
pub mod request_builder;
pub mod server;
pub mod response_text;
pub mod response_builder;
pub mod nolan;

verus! {

} // verus!

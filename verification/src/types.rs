//! The commands passed between the connections and the broker.
use vstd::prelude::*;
use crate::cap_n_proto_helper::{ConsumeRequest, ProduceRequest, Response, TopicRequest};

verus! {

/// A command: a request received on a connection, a response to send on
/// one, or an invalid message and the answer to it.
#[derive(Debug)]
pub enum Command {
    TopicRequest { conn_id: String, capmessage: TopicRequest },
    ProduceRequest { conn_id: String, capmessage: ProduceRequest },
    ConsumeRequest { conn_id: String, capmessage: ConsumeRequest },
    Response { conn_id: String, capmessagedata: Response },
    Invalid { conn_id: String, error_message: String, capmessage_data: Response },
}

} // verus!

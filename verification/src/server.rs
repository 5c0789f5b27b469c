//! The commands of the broker's text protocol: a line naming what the
//! client wants.
use vstd::prelude::*;
use crate::random::{random_alphanumeric, spec_is_alphanumeric};
use crate::text::{str_equal, to_owned_string};

verus! {

/// What a text command carries: the connection it came on, its name and
/// its data.
#[derive(Debug, PartialEq, Eq)]
pub struct Payload {
    pub conn_id: String,
    pub message: String,
    pub data: Vec<u8>,
}

/// A command of the text protocol.
#[derive(Debug, PartialEq, Eq)]
pub enum Command {
    Produce(Payload),
    Consume(Payload),
    Topic(Payload),
    Invalid { message: String },
}

/// The payload of a command received on `conn_id`, named `message`.
pub open spec fn spec_payload(p: Payload, conn_id: String, message: Seq<char>) -> bool {
    &&& p.conn_id == conn_id
    &&& p.message@ == message
    &&& p.data@ == "data"@.map_values(|c: char| c as u8)
}

/// The bytes of the text "data".
fn data_bytes() -> (v: Vec<u8>)
    ensures
        v@ == "data"@.map_values(|c: char| c as u8),
{
    proof {
        reveal_strlit("data");
    }
    let v: Vec<u8> = vec![100u8, 97u8, 116u8, 97u8];
    assert(v@ =~= "data"@.map_values(|c: char| c as u8));
    v
}

/// The command that the line `websocket_message` received on `conn_id`
/// names: "produce", "consume" or "topic", each ending with a newline;
/// any other line is invalid.
pub fn parse_mesage(websocket_message: &str, conn_id: String) -> (c: Command)
    ensures
        websocket_message@ == "produce\n"@ ==> (c matches Command::Produce(p) && spec_payload(
            p,
            conn_id,
            "produce"@,
        )),
        websocket_message@ == "consume\n"@ ==> (c matches Command::Consume(p) && spec_payload(
            p,
            conn_id,
            "consume"@,
        )),
        websocket_message@ == "topic\n"@ ==> (c matches Command::Topic(p) && spec_payload(
            p,
            conn_id,
            "consume"@,
        )),
        websocket_message@ != "produce\n"@ && websocket_message@ != "consume\n"@
            && websocket_message@ != "topic\n"@ ==> (c matches Command::Invalid { message }
            && message@ == "invalid"@),
{
    proof {
        reveal_strlit("produce\n");
        reveal_strlit("consume\n");
        reveal_strlit("topic\n");
        assert("produce\n"@[0] != "consume\n"@[0]);
        assert("produce\n"@[0] != "topic\n"@[0]);
        assert("consume\n"@[0] != "topic\n"@[0]);
    }
    if str_equal(websocket_message, "produce\n") {
        Command::Produce(
            Payload { conn_id, message: to_owned_string("produce"), data: data_bytes() },
        )
    } else if str_equal(websocket_message, "consume\n") {
        Command::Consume(
            Payload { conn_id, message: to_owned_string("consume"), data: data_bytes() },
        )
    } else if str_equal(websocket_message, "topic\n") {
        Command::Topic(Payload { conn_id, message: to_owned_string("consume"), data: data_bytes() })
    } else {
        Command::Invalid { message: to_owned_string("invalid") }
    }
}

/// A new connection identifier: ten random letters or digits.
pub fn generate_connection_string() -> (s: String)
    ensures
        s@.len() == 10,
        forall|i: int| 0 <= i < 10 ==> spec_is_alphanumeric(#[trigger] s@[i]),
{
    random_alphanumeric(10)
}

} // verus!

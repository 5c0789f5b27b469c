//! The text a client prints for a response of the broker.
use vstd::prelude::*;
use vstd::string::*;
use crate::cap_n_proto_helper::Envelope;
use crate::codec::spec_decode_message;
use crate::message::Message;
use crate::segment_files::spec_views;
use crate::text::{digit_str, spec_digit_char};
use crate::topic_capnp::NotInSchema;
use crate::topic_capnp::topic_request::spec_text;
use crate::topic_capnp::topic_response::describe::spec_names;

verus! {

/// The decimal digits of `n`, most significant first.
pub open spec fn spec_decimal(n: nat) -> Seq<char>
    decreases n,
{
    if n < 10 {
        seq![spec_digit_char(n as int)]
    } else {
        spec_decimal(n / 10).push(spec_digit_char((n % 10) as int))
    }
}

/// The decimal text of `n`, with a minus sign when it is negative.
pub open spec fn spec_signed_decimal(n: int) -> Seq<char> {
    if n < 0 {
        "-"@ + spec_decimal((-n) as nat)
    } else {
        spec_decimal(n as nat)
    }
}

/// The text of a boolean.
pub open spec fn spec_bool_text(b: bool) -> Seq<char> {
    if b {
        "true"@
    } else {
        "false"@
    }
}

/// The items joined, with `sep` between two of them.
pub open spec fn spec_join(items: Seq<Seq<char>>, sep: Seq<char>) -> Seq<char>
    decreases items.len(),
{
    if items.len() == 0 {
        Seq::empty()
    } else if items.len() == 1 {
        items[0]
    } else {
        spec_join(items.drop_last(), sep) + sep + items.last()
    }
}

/// A list written as its items between brackets, separated by a comma and
/// a space.
pub open spec fn spec_list_text(items: Seq<Seq<char>>) -> Seq<char> {
    "["@ + spec_join(items, ", "@) + "]"@
}

/// The decimal texts of some bytes.
pub open spec fn spec_byte_texts(bytes: Seq<u8>) -> Seq<Seq<char>> {
    bytes.map_values(|b: u8| spec_decimal(b as nat))
}

/// A list of bytes written as the list of their decimal values.
pub open spec fn spec_bytes_text(bytes: Seq<u8>) -> Seq<char> {
    spec_list_text(spec_byte_texts(bytes))
}

/// The line describing a message: its key, its value and its timestamp.
pub open spec fn spec_message_line(key: Seq<u8>, value: Seq<u8>, timestamp: i64) -> Seq<char> {
    "Key: "@ + spec_bytes_text(key) + ",Value: "@ + spec_bytes_text(value) + ", Timestamp: "@
        + spec_signed_decimal(timestamp as int)
}

/// The line of the message stored as `bytes`.
pub open spec fn spec_stored_message_line(bytes: Seq<u8>) -> Seq<char> {
    match spec_decode_message(bytes) {
        Some((key, value, timestamp)) => spec_message_line(key, value, timestamp),
        None => Seq::empty(),
    }
}

/// The text that `format!("{:?}", s)` gives for a string: the string
/// between double quotes, with the characters that need it escaped.
pub uninterp spec fn spec_debug_text(s: Seq<char>) -> Seq<char>;

/// The items of a response that the text quotes: the consumer groups of a
/// topic description, or the lines of the messages consumed.
pub open spec fn spec_listed_items(envelope: Result<Envelope, NotInSchema>) -> Seq<Seq<char>> {
    match envelope {
        Ok(Envelope::TopicResponse(r)) => if r.fields.discriminant == 0 {
            spec_views(spec_names(r.fields.consumer_groups))
        } else {
            Seq::empty()
        },
        Ok(Envelope::ConsumeResponse(c)) => c.messages@.map_values(
            |m: Vec<u8>| spec_stored_message_line(m@),
        ),
        _ => Seq::empty(),
    }
}

/// The response can be written: a topic response is of a known kind, and
/// each message consumed holds an encoded message.
pub open spec fn spec_printable(envelope: Result<Envelope, NotInSchema>) -> bool {
    match envelope {
        Ok(Envelope::TopicResponse(r)) => r.fields.discriminant <= 2,
        Ok(Envelope::ConsumeResponse(c)) => forall|i: int|
            0 <= i < c.messages@.len() ==> spec_decode_message((#[trigger] c.messages@[i])@) is Some,
        _ => true,
    }
}

/// The text of a response, given the quoted forms of the items it lists.
pub open spec fn spec_response_text(
    envelope: Result<Envelope, NotInSchema>,
    quoted: Seq<Seq<char>>,
) -> Seq<char> {
    match envelope {
        Ok(Envelope::TopicResponse(r)) => {
            let name = "Topic Name: "@ + spec_text(r.fields.topic_name) + "\n"@;
            let status = "Status: "@ + spec_bool_text(r.fields.success) + "\n"@;
            if r.fields.discriminant == 1 {
                "Topic Create Response ------------\n"@ + name + status
            } else if r.fields.discriminant == 0 {
                "Topic Describe Response ------------\n"@ + name + status
                    + "Topic max retention bytes: "@ + spec_decimal(
                    r.fields.max_retention_bytes as nat,
                ) + ", max segments bytes: "@ + spec_decimal(r.fields.max_segment_bytes as nat)
                    + ", consumer groups: "@ + spec_list_text(quoted) + "\n"@
            } else {
                "Topic Delete Response ------------\n"@ + name + status
            }
        },
        Ok(Envelope::ProduceResponse(p)) => "Produce Response ------------\n"@ + "Topic Name: "@
            + p.topic_name@ + "\n"@ + "Status: "@ + spec_bool_text(p.success) + "\n"@
            + "Last offset: "@ + spec_decimal(p.offset as nat) + "\n"@,
        Ok(Envelope::ConsumeResponse(c)) => "Consume Response ------------\n"@ + "Topic Name: "@
            + c.topic_name@ + "\n"@ + "Status: "@ + spec_bool_text(c.success) + "\n"@
            + "Messages: "@ + spec_list_text(quoted) + "\n"@,
        Ok(_) => "Invalid request type"@,
        Err(_) => "Unable to parse cap n p message\n"@,
    }
}

/// The decimal text of `n`.
pub fn u64_text(n: u64) -> (s: String)
    ensures
        s@ == spec_decimal(n as nat),
    decreases n,
{
    if n < 10 {
        let mut s = String::new();
        s.append(digit_str(n as u16));
        s
    } else {
        let mut s = u64_text(n / 10);
        s.append(digit_str((n % 10) as u16));
        s
    }
}

/// The decimal text of `n`, with a minus sign when it is negative.
pub fn i64_text(n: i64) -> (s: String)
    ensures
        s@ == spec_signed_decimal(n as int),
{
    if n < 0 {
        let magnitude: u64 = if n == i64::MIN {
            9223372036854775808u64
        } else {
            (-n) as u64
        };
        let mut s = String::new();
        s.append("-");
        let digits = u64_text(magnitude);
        s.append(digits.as_str());
        proof {
            reveal_strlit("-");
        }
        s
    } else {
        u64_text(n as u64)
    }
}

/// The text of a boolean.
pub fn bool_text(b: bool) -> (s: String)
    ensures
        s@ == spec_bool_text(b),
{
    if b {
        crate::text::to_owned_string("true")
    } else {
        crate::text::to_owned_string("false")
    }
}

/// Writes a list of texts between brackets, separated by a comma and a
/// space.
pub fn list_text(items: &Vec<String>) -> (s: String)
    ensures
        s@ == spec_list_text(spec_views(items@)),
{
    let ghost views = spec_views(items@);
    let mut s = String::new();
    s.append("[");
    let mut i: usize = 0;
    while i < items.len()
        invariant
            i <= items@.len(),
            views == spec_views(items@),
            s@ == "["@ + spec_join(views.take(i as int), ", "@),
        decreases items@.len() - i,
    {
        proof {
            assert(views.take(i + 1).drop_last() =~= views.take(i as int));
            assert(views.take(i + 1).last() == items@[i as int]@);
        }
        if i > 0 {
            s.append(", ");
        }
        s.append(items[i].as_str());
        proof {
            if i == 0 {
                assert(views.take(1).len() == 1);
                assert(s@ =~= "["@ + spec_join(views.take(1), ", "@));
            } else {
                assert(s@ =~= "["@ + spec_join(views.take(i + 1), ", "@));
            }
        }
        i = i + 1;
    }
    s.append("]");
    proof {
        assert(views.take(i as int) =~= views);
    }
    s
}

/// Writes some bytes as the list of their decimal values.
pub fn bytes_text(bytes: &[u8]) -> (s: String)
    ensures
        s@ == spec_bytes_text(bytes@),
{
    let mut texts: Vec<String> = Vec::new();
    let mut i: usize = 0;
    while i < bytes.len()
        invariant
            i <= bytes@.len(),
            texts@.len() == i,
            spec_views(texts@) == spec_byte_texts(bytes@).take(i as int),
        decreases bytes@.len() - i,
    {
        let t = u64_text(bytes[i] as u64);
        let ghost before = texts@;
        texts.push(t);
        proof {
            let want = spec_byte_texts(bytes@);
            assert forall|k: int| 0 <= k < i + 1 implies #[trigger] spec_views(texts@)[k] == want.take(
                i + 1,
            )[k] by {
                if k < i {
                    assert(spec_views(before)[k] == want.take(i as int)[k]);
                }
            }
            assert(spec_views(texts@) =~= want.take(i + 1));
        }
        i = i + 1;
    }
    assert(spec_byte_texts(bytes@).take(i as int) =~= spec_byte_texts(bytes@));
    list_text(&texts)
}

/// The line describing a message: its key, its value and its timestamp.
pub fn message_line(key: &[u8], value: &[u8], timestamp: i64) -> (s: String)
    ensures
        s@ == spec_message_line(key@, value@, timestamp),
{
    let mut s = crate::text::to_owned_string("Key: ");
    s.append(bytes_text(key).as_str());
    s.append(",Value: ");
    s.append(bytes_text(value).as_str());
    s.append(", Timestamp: ");
    s.append(i64_text(timestamp).as_str());
    s
}

/// `format!("{:?}", s)`: the Debug text of a string slice, which std
/// writes between double quotes with the characters that need it escaped.
/// The contract names the result and states no more of it.
#[verifier::external_body]
fn debug_text(s: &str) -> (r: String)
    ensures
        r@ == spec_debug_text(s@),
{
    format!("{:?}", s)
}

/// The text of a response, given the quoted forms of the items it lists
/// (the consumer groups of a description, the lines of the messages
/// consumed).
pub fn response_text(envelope: &Result<Envelope, NotInSchema>, quoted: &Vec<String>) -> (s: String)
    requires
        spec_printable(*envelope),
    ensures
        s@ == spec_response_text(*envelope, spec_views(quoted@)),
{
    match envelope {
        Ok(Envelope::TopicResponse(r)) => {
            let mut name = crate::text::to_owned_string("Topic Name: ");
            name.append(r.reborrow().get_topic_name().as_str());
            name.append("\n");
            let mut status = crate::text::to_owned_string("Status: ");
            status.append(bool_text(r.fields.success).as_str());
            status.append("\n");
            let mut s: String;
            if r.fields.discriminant == 1 {
                s = crate::text::to_owned_string("Topic Create Response ------------\n");
                s.append(name.as_str());
                s.append(status.as_str());
            } else if r.fields.discriminant == 0 {
                s = crate::text::to_owned_string("Topic Describe Response ------------\n");
                s.append(name.as_str());
                s.append(status.as_str());
                s.append("Topic max retention bytes: ");
                s.append(u64_text(r.fields.max_retention_bytes).as_str());
                s.append(", max segments bytes: ");
                s.append(u64_text(r.fields.max_segment_bytes).as_str());
                s.append(", consumer groups: ");
                s.append(list_text(quoted).as_str());
                s.append("\n");
            } else {
                s = crate::text::to_owned_string("Topic Delete Response ------------\n");
                s.append(name.as_str());
                s.append(status.as_str());
            }
            s
        },
        Ok(Envelope::ProduceResponse(p)) => {
            let mut s = crate::text::to_owned_string("Produce Response ------------\n");
            s.append("Topic Name: ");
            s.append(p.topic_name.as_str());
            s.append("\n");
            s.append("Status: ");
            s.append(bool_text(p.success).as_str());
            s.append("\n");
            s.append("Last offset: ");
            s.append(u64_text(p.offset).as_str());
            s.append("\n");
            s
        },
        Ok(Envelope::ConsumeResponse(c)) => {
            let mut s = crate::text::to_owned_string("Consume Response ------------\n");
            s.append("Topic Name: ");
            s.append(c.topic_name.as_str());
            s.append("\n");
            s.append("Status: ");
            s.append(bool_text(c.success).as_str());
            s.append("\n");
            s.append("Messages: ");
            s.append(list_text(quoted).as_str());
            s.append("\n");
            s
        },
        Ok(_) => crate::text::to_owned_string("Invalid request type"),
        Err(_) => crate::text::to_owned_string("Unable to parse cap n p message\n"),
    }
}

/// The text a client prints for a response: what it answers, with the
/// topic's name and the outcome, then the details of its kind.
pub fn parse_response(envelope: Result<Envelope, NotInSchema>) -> (s: String)
    requires
        spec_printable(envelope),
    ensures
        s@ == spec_response_text(
            envelope,
            spec_listed_items(envelope).map_values(|t: Seq<char>| spec_debug_text(t)),
        ),
{
    let ghost items = spec_listed_items(envelope);
    let mut quoted: Vec<String> = Vec::new();
    match &envelope {
        Ok(Envelope::TopicResponse(r)) => {
            if r.fields.discriminant == 0 {
                let names = match &r.fields.consumer_groups {
                    Some(v) => crate::text::clone_strings(v),
                    None => Vec::new(),
                };
                let mut i: usize = 0;
                while i < names.len()
                    invariant
                        i <= names@.len(),
                        quoted@.len() == i,
                        items == spec_views(names@),
                        spec_views(quoted@) == items.take(i as int).map_values(
                            |t: Seq<char>| spec_debug_text(t),
                        ),
                    decreases names@.len() - i,
                {
                    let ghost before = quoted@;
                    quoted.push(debug_text(names[i].as_str()));
                    proof {
                        let want = items.take(i + 1).map_values(|t: Seq<char>| spec_debug_text(t));
                        let had = items.take(i as int).map_values(|t: Seq<char>| spec_debug_text(t));
                        assert forall|k: int| 0 <= k < i + 1 implies #[trigger] spec_views(quoted@)[k]
                            == want[k] by {
                            if k < i {
                                assert(spec_views(before)[k] == had[k]);
                            }
                        }
                        assert(spec_views(quoted@) =~= want);
                    }
                    i = i + 1;
                }
                assert(items.take(i as int) =~= items);
            }
        },
        Ok(Envelope::ConsumeResponse(c)) => {
            let mut i: usize = 0;
            while i < c.messages.len()
                invariant
                    i <= c.messages@.len(),
                    quoted@.len() == i,
                    spec_printable(envelope),
                    envelope matches Ok(Envelope::ConsumeResponse(cc)) && cc == *c,
                    items == c.messages@.map_values(|m: Vec<u8>| spec_stored_message_line(m@)),
                    spec_views(quoted@) == items.take(i as int).map_values(
                        |t: Seq<char>| spec_debug_text(t),
                    ),
                decreases c.messages@.len() - i,
            {
                assert(spec_decode_message(c.messages@[i as int]@) is Some);
                let m = Message::deserialize_message(c.messages[i].as_slice());
                let line = message_line(m.key.as_slice(), m.value.as_slice(), m.timestamp);
                let ghost before = quoted@;
                quoted.push(debug_text(line.as_str()));
                proof {
                    let want = items.take(i + 1).map_values(|t: Seq<char>| spec_debug_text(t));
                    let had = items.take(i as int).map_values(|t: Seq<char>| spec_debug_text(t));
                    assert(items[i as int] == spec_stored_message_line(c.messages@[i as int]@));
                    assert forall|k: int| 0 <= k < i + 1 implies #[trigger] spec_views(quoted@)[k]
                        == want[k] by {
                        if k < i {
                            assert(spec_views(before)[k] == had[k]);
                        }
                    }
                    assert(spec_views(quoted@) =~= want);
                }
                i = i + 1;
            }
            assert(items.take(i as int) =~= items);
        },
        _ => {},
    }
    assert(spec_views(quoted@) =~= items.map_values(|t: Seq<char>| spec_debug_text(t)));
    response_text(&envelope, &quoted)
}


/// The first line of the text of a topic response of the kind named by
/// `discriminant`.
pub open spec fn spec_topic_header(discriminant: u16) -> Seq<char> {
    if discriminant == 1 {
        "Topic Create Response ------------\n"@
    } else if discriminant == 0 {
        "Topic Describe Response ------------\n"@
    } else {
        "Topic Delete Response ------------\n"@
    }
}

/// Law: the text of every topic response, whatever its kind, starts with
/// the header of its kind, then the line of the topic's name, then the
/// line "Status: " followed by the text of the response's success flag; a
/// create or delete response holds nothing more.
pub proof fn lemma_topic_response_lines(r: crate::topic_capnp::topic_response::Reader, quoted: Seq<Seq<char>>)
    requires
        r.fields.discriminant <= 2,
    ensures
        ({
            let text = spec_response_text(Ok(Envelope::TopicResponse(r)), quoted);
            let header = spec_topic_header(r.fields.discriminant);
            let lines = "Topic Name: "@ + spec_text(r.fields.topic_name) + "\n"@ + "Status: "@
                + spec_bool_text(r.fields.success) + "\n"@;
            &&& header.len() + lines.len() <= text.len()
            &&& text.subrange(0, (header.len() + lines.len()) as int) == header + lines
            &&& r.fields.discriminant != 0 ==> text == header + lines
        }),
{
    let text = spec_response_text(Ok(Envelope::TopicResponse(r)), quoted);
    let header = spec_topic_header(r.fields.discriminant);
    let lines = "Topic Name: "@ + spec_text(r.fields.topic_name) + "\n"@ + "Status: "@ + spec_bool_text(
        r.fields.success,
    ) + "\n"@;
    let name = "Topic Name: "@ + spec_text(r.fields.topic_name) + "\n"@;
    let status = "Status: "@ + spec_bool_text(r.fields.success) + "\n"@;
    assert(lines =~= name + status);
    if r.fields.discriminant == 0 {
        let rest = text.subrange((header.len() + lines.len()) as int, text.len() as int);
        assert(text =~= header + lines + rest);
        assert(text.subrange(0, (header.len() + lines.len()) as int) =~= header + lines);
    } else {
        assert(text =~= header + lines);
        assert(text.subrange(0, (header.len() + lines.len()) as int) =~= header + lines);
    }
}

/// Law: a delete response reads as the create response of the same topic
/// name and success flag, with the header changed.
pub proof fn lemma_delete_text_is_create_text(
    created: crate::topic_capnp::topic_response::Reader,
    deleted: crate::topic_capnp::topic_response::Reader,
    quoted: Seq<Seq<char>>,
)
    requires
        created.fields.discriminant == 1,
        deleted.fields.discriminant == 2,
        created.fields.topic_name == deleted.fields.topic_name,
        created.fields.success == deleted.fields.success,
    ensures
        spec_response_text(Ok(Envelope::TopicResponse(deleted)), quoted) == "Topic Delete Response ------------\n"@
            + spec_response_text(Ok(Envelope::TopicResponse(created)), quoted).subrange(
            "Topic Create Response ------------\n"@.len() as int,
            spec_response_text(Ok(Envelope::TopicResponse(created)), quoted).len() as int,
        ),
{
    lemma_topic_response_lines(created, quoted);
    lemma_topic_response_lines(deleted, quoted);
    let c = spec_response_text(Ok(Envelope::TopicResponse(created)), quoted);
    let h = "Topic Create Response ------------\n"@;
    let lines = "Topic Name: "@ + spec_text(created.fields.topic_name) + "\n"@ + "Status: "@ + spec_bool_text(
        created.fields.success,
    ) + "\n"@;
    assert(c.subrange(h.len() as int, c.len() as int) =~= lines);
}


/// Law: the text of a produce response is its header, the line of the
/// topic's name, the line "Status: " with the text of its success flag, and
/// the line of the last offset written, in decimal.
pub proof fn lemma_produce_response_lines(p: crate::cap_n_proto_helper::ProduceResponse, quoted: Seq<Seq<char>>)
    ensures
        spec_response_text(Ok(Envelope::ProduceResponse(p)), quoted) == "Produce Response ------------\n"@
            + ("Topic Name: "@ + p.topic_name@ + "\n"@) + ("Status: "@ + spec_bool_text(p.success) + "\n"@)
            + ("Last offset: "@ + spec_decimal(p.offset as nat) + "\n"@),
{
    let t = spec_response_text(Ok(Envelope::ProduceResponse(p)), quoted);
    assert(t =~= "Produce Response ------------\n"@ + ("Topic Name: "@ + p.topic_name@ + "\n"@) + (
    "Status: "@ + spec_bool_text(p.success) + "\n"@) + ("Last offset: "@ + spec_decimal(p.offset as nat)
        + "\n"@));
}

/// Law: the text of a consume response is its header, the line of the
/// topic's name, the line "Status: " with the text of its success flag, and
/// the line listing the messages, one item per message, in order.
pub proof fn lemma_consume_response_lines(c: crate::cap_n_proto_helper::ConsumeResponse, quoted: Seq<Seq<char>>)
    ensures
        spec_response_text(Ok(Envelope::ConsumeResponse(c)), quoted) == "Consume Response ------------\n"@
            + ("Topic Name: "@ + c.topic_name@ + "\n"@) + ("Status: "@ + spec_bool_text(c.success) + "\n"@)
            + ("Messages: "@ + spec_list_text(quoted) + "\n"@),
{
    let t = spec_response_text(Ok(Envelope::ConsumeResponse(c)), quoted);
    assert(t =~= "Consume Response ------------\n"@ + ("Topic Name: "@ + c.topic_name@ + "\n"@) + (
    "Status: "@ + spec_bool_text(c.success) + "\n"@) + ("Messages: "@ + spec_list_text(quoted) + "\n"@));
}

/// Law: the text of a boolean is "true" exactly for `true`, so a status
/// line tells the two outcomes apart.
pub proof fn lemma_bool_text_distinct(a: bool, b: bool)
    ensures
        spec_bool_text(a) == spec_bool_text(b) <==> a == b,
        spec_bool_text(true) == "true"@,
        spec_bool_text(false) == "false"@,
{
    reveal_strlit("true");
    reveal_strlit("false");
    assert("true"@.len() != "false"@.len());
}

} // verus!

//! The broker: holds the topics and answers the requests on them.
use vstd::prelude::*;
use crate::cap_n_proto_helper::{
    ConsumeRequest, ProduceRequest, Response, TopicRequest, TopicRequestWhich,
    spec_topic_request_which, new_consume_response, new_invalid_response,
    new_produce_response, new_topic_response_all, new_topic_response_create,
    new_topic_response_delete, new_topic_response_describe, spec_topic_answer,
};
use crate::commitlog::{Commitlog, spec_append_chain, lemma_chain_prefix};
use crate::consumer::{spec_run, lemma_run_len_bound};
use crate::lucidmq_errors::BrokerError;
use crate::random::spec_is_alphanumeric;
use crate::text::{spec_join_path, str_equal, to_owned_string};
use crate::topic::{
    SimpleTopic, Topic, spec_find_name, spec_group_names, spec_name_index,
};
use crate::topic_capnp::topic_request::spec_text;
use crate::topic_capnp::topic_response::FieldsView;
use crate::types::Command;

verus! {

/// The names of a list of topics, in order.
pub open spec fn spec_topic_names(topics: Seq<Topic>) -> Seq<Seq<char>> {
    topics.map_values(|t: Topic| t.name@)
}

/// The position of the first topic named `name`, or -1.
pub open spec fn spec_find_topic(topics: Seq<Topic>, name: Seq<char>) -> int {
    spec_find_name(spec_topic_names(topics), name)
}

/// The largest size of a segment of a topic the broker creates.
pub const NEW_TOPIC_MAX_SEGMENT_SIZE: u64 = 100000;

/// The retention of a topic the broker creates.
pub const NEW_TOPIC_MAX_TOPIC_SIZE: u64 = 1000000;

/// Law: messages produced one after the other are read back, in order, by
/// a consumer group reading from the offset the first of them got, as long
/// as the cleaner removed none of them.
pub proof fn lemma_produced_messages_read_back(logs: Seq<Commitlog>, msgs: Seq<Seq<u8>>)
    requires
        spec_append_chain(logs, msgs),
        logs[0].sound(),
        msgs.len() > 0 ==> logs[msgs.len() as int].spec_segments()[0].spec_starting_offset()
            <= logs[0].spec_next_offset(),
    ensures
        spec_run(logs[msgs.len() as int], logs[0].spec_next_offset()) == msgs,
{
    let n = msgs.len() as int;
    let o = logs[0].spec_next_offset();
    lemma_chain_prefix(logs, msgs, n);
    let last = logs[n];
    assert forall|j: int| 0 <= j < msgs.len() implies #[trigger] last.spec_read(o + j) == Ok::<
        Seq<u8>,
        Seq<char>,
    >(msgs[j]) by {}
    crate::commitlog::lemma_read_past_end(last, o + n);
    crate::consumer::lemma_run_is(last, o, msgs);
}

/// The bytes of each of a list of messages.
pub open spec fn spec_byte_views(ms: Seq<Vec<u8>>) -> Seq<Seq<u8>> {
    ms.map_values(|m: Vec<u8>| m@)
}

/// The answer to a consume request carries messages: it is a successful
/// consume response.
pub open spec fn spec_got_messages(answer: Command) -> bool {
    answer matches Command::Response { capmessagedata: Response::Consume(c), .. } && c.success
}

/// Whether a consumer that waits for messages stops asking: once the answer
/// to its request carries messages, or once it has waited as long as its
/// timeout.
pub fn consume_finished(answer: &Command, waited_millis: u64, timeout_millis: u64) -> (done: bool)
    ensures
        done == (spec_got_messages(*answer) || waited_millis >= timeout_millis),
{
    let got_messages = match answer {
        Command::Response { capmessagedata: Response::Consume(c), .. } => c.success,
        _ => false,
    };
    got_messages || waited_millis >= timeout_millis
}

/// The broker.
pub struct Broker {
    pub base_directory: String,
    pub topics: Vec<Topic>,
}

impl Broker {
    /// The commit log of every topic is consistent.
    pub open spec fn wf(&self) -> bool {
        forall|i: int| 0 <= i < self.topics@.len() ==> #[trigger] self.topics@[i].commitlog.wf()
    }

    /// The topic named `name`, if there is one, has few enough consumer
    /// groups to describe them.
    pub open spec fn spec_describable(&self, name: Seq<char>) -> bool {
        let i = spec_find_topic(self.topics@, name);
        i >= 0 ==> self.topics@[i].consumer_groups@.len() <= u32::MAX
    }

    /// A topic request can be answered: a description names a describable
    /// topic.
    pub open spec fn spec_answerable(&self, req: TopicRequest) -> bool {
        spec_topic_request_which(req.discriminant) matches Ok(TopicRequestWhich::Describe(_)) ==> self.spec_describable(
            spec_text(req.topic_name),
        )
    }

    /// Creating the topic `name` turned `old` into `new` and answered `r`:
    /// a topic of that name is left as it is and the answer is
    /// unsuccessful; otherwise a new topic, in a new directory of five
    /// random letters or digits under the base directory, is added.
    pub open spec fn spec_created(
        old: Broker,
        name: Seq<char>,
        new: Broker,
        r: Result<Response, BrokerError>,
    ) -> bool {
        let found = spec_find_topic(old.topics@, name) >= 0;
        &&& new.base_directory == old.base_directory
        &&& r matches Ok(Response::Topic(b)) && b.fields@ == spec_topic_answer(name, !found, 1)
        &&& if found {
            new.topics@ == old.topics@
        } else {
            &&& new.topics@.len() == old.topics@.len() + 1
            &&& forall|i: int| 0 <= i < old.topics@.len() ==> #[trigger] new.topics@[i] == old.topics@[i]
            &&& exists|d: Seq<char>|
                d.len() == 5 && (forall|i: int| 0 <= i < 5 ==> spec_is_alphanumeric(#[trigger] d[i]))
                    && new.topics@.last().spec_is_new(
                    name,
                    spec_join_path(old.base_directory@, d),
                    NEW_TOPIC_MAX_SEGMENT_SIZE,
                    NEW_TOPIC_MAX_TOPIC_SIZE,
                )
        }
    }

    /// Deleting the topic `name` turned `old` into `new` and answered `r`:
    /// the first topic of that name is removed, and the answer tells
    /// whether there was one.
    pub open spec fn spec_deleted(
        old: Broker,
        name: Seq<char>,
        new: Broker,
        r: Result<Response, BrokerError>,
    ) -> bool {
        let i = spec_find_topic(old.topics@, name);
        &&& new.base_directory == old.base_directory
        &&& r matches Ok(Response::Topic(b)) && b.fields@ == spec_topic_answer(name, i >= 0, 2)
        &&& new.topics@ == if i >= 0 {
            old.topics@.remove(i)
        } else {
            old.topics@
        }
    }

    /// The description of the topic `name` in `b`: its limits and its
    /// consumer groups, or an unsuccessful answer with none when there is
    /// no such topic.
    pub open spec fn spec_description(topics: Seq<Topic>, name: Seq<char>) -> FieldsView {
        let i = spec_find_topic(topics, name);
        if i >= 0 {
            FieldsView {
                topic_name: Some(name),
                success: true,
                discriminant: 0,
                max_segment_bytes: topics[i].max_segment_size,
                max_retention_bytes: topics[i].max_topic_size,
                consumer_groups: Some(spec_group_names(topics[i].consumer_groups@)),
            }
        } else {
            FieldsView {
                topic_name: Some(name),
                success: false,
                discriminant: 0,
                max_segment_bytes: 0,
                max_retention_bytes: 0,
                consumer_groups: Some(Seq::empty()),
            }
        }
    }

    /// The answer `r` lists every topic with its consumer groups; a broker
    /// without topics answers with an error.
    pub open spec fn spec_all_listed(topics: Seq<Topic>, r: Result<Response, BrokerError>) -> bool {
        &&& topics.len() == 0 ==> (r matches Err(e) && e@ == "Unable to get topic name from consume request"@)
        &&& topics.len() > 0 ==> (r matches Ok(Response::TopicAll(a)) && a.success && a.topics@.len()
            == topics.len() && forall|i: int|
            0 <= i < topics.len() ==> (#[trigger] a.topics@[i]).topic_name@ == topics[i].name@
                && a.topics@[i].consumer_groups@.map_values(|s: String| s@) == spec_group_names(
                topics[i].consumer_groups@,
            ))
    }

    /// Handling the topic request `req` turned `old` into `new` and
    /// answered `r`.
    pub open spec fn spec_topic_handled(
        old: Broker,
        req: TopicRequest,
        new: Broker,
        r: Result<Response, BrokerError>,
    ) -> bool {
        let name = spec_text(req.topic_name);
        match spec_topic_request_which(req.discriminant) {
            Ok(TopicRequestWhich::Create(_)) => Broker::spec_created(old, name, new, r),
            Ok(TopicRequestWhich::Delete(_)) => Broker::spec_deleted(old, name, new, r),
            Ok(TopicRequestWhich::Describe(_)) => {
                &&& new == old
                &&& r matches Ok(Response::Topic(b)) && b.fields@ == Broker::spec_description(
                    old.topics@,
                    name,
                )
            },
            Ok(TopicRequestWhich::All(_)) => new == old && Broker::spec_all_listed(old.topics@, r),
            Err(_) => new == old && (r matches Err(e) && e@ == "Unknown topic request type"@),
        }
    }

    /// Handling the produce request `req` turned `old` into `new` and
    /// answered `r`: the messages were appended one after the other to the
    /// commit log of the topic, until one did not fit; the answer gives
    /// the offset of the last one, or the error.
    pub open spec fn spec_produced(
        old: Broker,
        req: ProduceRequest,
        new: Broker,
        r: Result<Response, BrokerError>,
    ) -> bool {
        let name = req.topic_name@;
        let i = spec_find_topic(old.topics@, name);
        let msgs = spec_byte_views(req.messages@);
        &&& new.base_directory == old.base_directory
        &&& if i < 0 {
            &&& new.topics@ == old.topics@
            &&& r matches Ok(Response::Produce(p)) && p.topic_name@ == name && p.offset == 0
                && !p.success
        } else {
            let ot = old.topics@[i];
            let nt = new.topics@[i];
            &&& new.topics@.len() == old.topics@.len()
            &&& forall|k: int|
                0 <= k < old.topics@.len() && k != i ==> #[trigger] new.topics@[k] == old.topics@[k]
            &&& nt.name == ot.name
            &&& nt.directory == ot.directory
            &&& nt.consumer_groups == ot.consumer_groups
            &&& nt.max_segment_size == ot.max_segment_size
            &&& nt.max_topic_size == ot.max_topic_size
            &&& exists|logs: Seq<Commitlog>, n: int|
                #![trigger spec_append_chain(logs, msgs.take(n))]
                0 <= n <= msgs.len() && logs[0] == ot.commitlog && logs[n] == nt.commitlog
                    && spec_append_chain(logs, msgs.take(n)) && if n == msgs.len() {
                    r matches Ok(Response::Produce(p)) && p.topic_name@ == name && p.success
                        && p.offset == if n == 0 {
                        0
                    } else {
                        logs[n - 1].spec_next_offset()
                    }
                } else {
                    &&& !logs[n].spec_can_append(msgs[n].len() as int)
                    &&& r matches Err(e) && e@ == "Unable to produce message to commitlog"@
                }
        }
    }

    /// Handling the consume request `req` turned `old` into `new` and
    /// answered `r`: the consumer group was loaded in the topic and moved
    /// past the messages available to it, which the answer gives.
    pub open spec fn spec_consumed(
        old: Broker,
        req: ConsumeRequest,
        new: Broker,
        r: Result<Response, BrokerError>,
    ) -> bool {
        let name = req.topic_name@;
        let i = spec_find_topic(old.topics@, name);
        &&& new.base_directory == old.base_directory
        &&& if i < 0 {
            &&& new.topics@ == old.topics@
            &&& r matches Ok(Response::Consume(c)) && c.topic_name@ == name && !c.success
                && c.messages@.len() == 0
        } else if !old.topics@[i].commitlog.readable() {
            &&& new.topics@ == old.topics@
            &&& r matches Err(e) && e@ == "Unable to poll consumers commitlog"@
        } else {
            let ot = old.topics@[i];
            let run = spec_run(
                ot.commitlog,
                Topic::spec_group_start(ot.consumer_groups@, req.consumer_group@) as int,
            );
            &&& new.topics@.len() == old.topics@.len()
            &&& forall|k: int|
                0 <= k < old.topics@.len() && k != i ==> #[trigger] new.topics@[k] == old.topics@[k]
            &&& Topic::spec_polled(ot, req.consumer_group@, new.topics@[i])
            &&& r matches Ok(Response::Consume(c)) && c.topic_name@ == name && c.success == (run.len()
                > 0) && c.messages@.map_values(|m: Vec<u8>| m@) == if run.len() > 0 {
                run
            } else {
                Seq::empty()
            }
        }
    }

    /// A broker with no topics, kept in `directory`.
    pub fn new(directory: String) -> (b: Broker)
        ensures
            b.base_directory == directory,
            b.topics@.len() == 0,
            b.wf(),
    {
        Broker { base_directory: directory, topics: Vec::new() }
    }

    /// A broker kept in `base_directory` with the given topics.
    pub fn from(base_directory: String, topics: Vec<Topic>) -> (b: Broker)
        ensures
            b.base_directory == base_directory,
            b.topics == topics,
    {
        Broker { base_directory, topics }
    }

    /// The position of the first topic named `topic_to_find`, if there is
    /// one.
    pub fn check_topics(&self, topic_to_find: &str) -> (r: Option<usize>)
        ensures
            match r {
                Some(i) => i == spec_find_topic(self.topics@, topic_to_find@) && i < self.topics@.len(),
                None => spec_find_topic(self.topics@, topic_to_find@) < 0,
            },
    {
        let ghost names = spec_topic_names(self.topics@);
        let mut i: usize = 0;
        while i < self.topics.len()
            invariant
                i <= self.topics@.len(),
                names == spec_topic_names(self.topics@),
                spec_name_index(names, topic_to_find@, i as int) == -1,
            decreases self.topics@.len() - i,
        {
            if str_equal(self.topics[i].name.as_str(), topic_to_find) {
                proof {
                    assert(names[i as int] == topic_to_find@);
                    assert(spec_name_index(names, topic_to_find@, i + 1) == i);
                    crate::topic::lemma_name_index_prefix_found(
                        names,
                        topic_to_find@,
                        i + 1,
                        names.len() as int,
                    );
                }
                return Some(i);
            }
            i = i + 1;
        }
        None
    }

    /// Creates the topic `topic_name` unless one of that name exists.
    pub fn handle_create_topic(&mut self, topic_name: &str) -> (r: Result<Response, BrokerError>)
        requires
            old(self).wf(),
        ensures
            final(self).wf(),
            Broker::spec_created(*old(self), topic_name@, *final(self), r),
    {
        match self.check_topics(topic_name) {
            Some(_) => Ok(Response::Topic(new_topic_response_create(topic_name, false))),
            None => {
                let created = Topic::new(
                    to_owned_string(topic_name),
                    self.base_directory.clone(),
                    NEW_TOPIC_MAX_SEGMENT_SIZE,
                    NEW_TOPIC_MAX_TOPIC_SIZE,
                );
                match created {
                    Ok(topic) => {
                        self.topics.push(topic);
                        Ok(Response::Topic(new_topic_response_create(topic_name, true)))
                    },
                    Err(_) => Err(BrokerError::new("Unable to create topic directory")),
                }
            },
        }
    }

    /// Describes the topic `topic_name`.
    pub fn handle_describe_topic(&self, topic_name: &str) -> (r: Result<Response, BrokerError>)
        requires
            self.spec_describable(topic_name@),
        ensures
            r matches Ok(Response::Topic(b)) && b.fields@ == Broker::spec_description(
                self.topics@,
                topic_name@,
            ),
            r matches Ok(Response::Topic(b)) && b.fields.success == (exists|i: int|
                0 <= i < self.topics@.len() && #[trigger] self.topics@[i].name@ == topic_name@),
    {
        proof {
            lemma_describe_succeeds_iff_topic_exists(self.topics@, topic_name@);
        }
        match self.check_topics(topic_name) {
            Some(ind) => {
                let topic = &self.topics[ind];
                let cgs = topic.get_consumer_groups();
                assert(cgs@.len() == cgs@.map_values(|s: String| s@).len());
                let b = new_topic_response_describe(
                    topic_name,
                    true,
                    topic.max_topic_size,
                    topic.max_segment_size,
                    cgs,
                );
                proof {
                    if cgs@.len() == 0 {
                        assert(spec_group_names(topic.consumer_groups@) =~= Seq::<Seq<char>>::empty());
                    }
                }
                Ok(Response::Topic(b))
            },
            None => Ok(Response::Topic(new_topic_response_describe(topic_name, false, 0, 0, Vec::new()))),
        }
    }

    /// Deletes the first topic named `topic_name`, if there is one.
    pub fn handle_delete_topic(&mut self, topic_name: &str) -> (r: Result<Response, BrokerError>)
        requires
            old(self).wf(),
        ensures
            final(self).wf(),
            Broker::spec_deleted(*old(self), topic_name@, *final(self), r),
    {
        match self.check_topics(topic_name) {
            Some(ind) => {
                let _removed = self.topics.remove(ind);
                Ok(Response::Topic(new_topic_response_delete(topic_name, true)))
            },
            None => Ok(Response::Topic(new_topic_response_delete(topic_name, false))),
        }
    }

    /// Lists every topic with its consumer groups; a broker without topics
    /// answers with an error.
    pub fn handle_all_topic(&self) -> (r: Result<Response, BrokerError>)
        ensures
            Broker::spec_all_listed(self.topics@, r),
    {
        if self.topics.len() == 0 {
            return Err(BrokerError::new("Unable to get topic name from consume request"));
        }
        let mut simple_topics: Vec<SimpleTopic> = Vec::new();
        let mut i: usize = 0;
        while i < self.topics.len()
            invariant
                i <= self.topics@.len(),
                simple_topics@.len() == i,
                forall|k: int|
                    0 <= k < i ==> (#[trigger] simple_topics@[k]).topic_name@ == self.topics@[k].name@
                        && simple_topics@[k].consumer_groups@.map_values(|s: String| s@)
                        == spec_group_names(self.topics@[k].consumer_groups@),
            decreases self.topics@.len() - i,
        {
            let topic = &self.topics[i];
            let st = SimpleTopic {
                topic_name: topic.name.clone(),
                consumer_groups: topic.get_consumer_groups(),
            };
            simple_topics.push(st);
            i = i + 1;
        }
        Ok(Response::TopicAll(new_topic_response_all(true, simple_topics)))
    }

    /// Answers a topic request: creates, deletes or describes the topic it
    /// names.
    pub fn handle_topic(&mut self, topic_request_message: TopicRequest) -> (r: Result<
        Response,
        BrokerError,
    >)
        requires
            old(self).wf(),
            old(self).spec_answerable(topic_request_message),
        ensures
            final(self).wf(),
            Broker::spec_topic_handled(*old(self), topic_request_message, *final(self), r),
    {
        let topic_name = topic_request_message.get_topic_name();
        match topic_request_message.which() {
            Ok(TopicRequestWhich::Create(_)) => self.handle_create_topic(topic_name.as_str()),
            Ok(TopicRequestWhich::Delete(_)) => self.handle_delete_topic(topic_name.as_str()),
            Ok(TopicRequestWhich::Describe(_)) => self.handle_describe_topic(topic_name.as_str()),
            Ok(TopicRequestWhich::All(_)) => self.handle_all_topic(),
            Err(_) => Err(BrokerError::new("Unknown topic request type")),
        }
    }

    /// Answers a produce request: appends its messages to the commit log
    /// of the topic it names.
    pub fn handle_producer(&mut self, produce_request: ProduceRequest) -> (r: Result<
        Response,
        BrokerError,
    >)
        requires
            old(self).wf(),
        ensures
            final(self).wf(),
            Broker::spec_produced(*old(self), produce_request, *final(self), r),
    {
        let topic_name = produce_request.topic_name.as_str();
        let ghost msgs = spec_byte_views(produce_request.messages@);
        match self.check_topics(topic_name) {
            None => Ok(Response::Produce(new_produce_response(topic_name, 0, false))),
            Some(x) => {
                let ghost old_topics = self.topics@;
                let mut topic = self.topics.remove(x);
                assert(topic == old_topics[x as int]);
                assert(topic.commitlog.wf());
                let ghost mut logs: Seq<Commitlog> = seq![topic.commitlog];
                let mut last_offset: u16 = 0;
                let mut i: usize = 0;
                let n = produce_request.messages.len();
                while i < n
                    invariant
                        x < old_topics.len(),
                        x == spec_find_topic(old_topics, produce_request.topic_name@),
                        self.topics@ == old_topics.remove(x as int),
                        self.base_directory == old(self).base_directory,
                        old_topics == old(self).topics@,
                        forall|k: int| 0 <= k < old_topics.len() ==> #[trigger] old_topics[k].commitlog.wf(),
                        n == msgs.len(),
                        msgs == spec_byte_views(produce_request.messages@),
                        i <= n,
                        topic.commitlog.wf(),
                        topic.name == old_topics[x as int].name,
                        topic.directory == old_topics[x as int].directory,
                        topic.consumer_groups == old_topics[x as int].consumer_groups,
                        topic.max_segment_size == old_topics[x as int].max_segment_size,
                        topic.max_topic_size == old_topics[x as int].max_topic_size,
                        logs.len() == i + 1,
                        logs[0] == old_topics[x as int].commitlog,
                        logs[i as int] == topic.commitlog,
                        spec_append_chain(logs, msgs.take(i as int)),
                        last_offset == if i == 0 {
                            0
                        } else {
                            logs[i - 1].spec_next_offset()
                        },
                    decreases n - i,
                {
                    let msg = produce_request.messages[i].as_slice();
                    if !topic.commitlog.can_append(msg.len()) {
                        self.topics.insert(x, topic);
                        proof {
                            assert(msgs[i as int] == msg@);
                            assert(self.topics@[x as int] == topic);
                            assert forall|k: int|
                                0 <= k < old_topics.len() && k != x implies #[trigger] self.topics@[k]
                                == old_topics[k] by {}
                            assert(spec_append_chain(logs, msgs.take(i as int)));
                            assert(logs[0] == old_topics[x as int].commitlog);
                            assert(logs[i as int] == self.topics@[x as int].commitlog);
                            assert(!logs[i as int].spec_can_append(msgs[i as int].len() as int));
                            assert(0 <= i < msgs.len());
                        }
                        let e = BrokerError::new("Unable to produce message to commitlog");
                        return Err(e);
                    }
                    let ghost before = topic.commitlog;
                    last_offset = topic.commitlog.append(msg);
                    proof {
                        let logs2 = logs.push(topic.commitlog);
                        assert(msgs.take(i + 1) =~= msgs.take(i as int).push(msg@));
                        assert forall|j: int| 0 <= j < i + 1 implies #[trigger] logs2[j + 1].wf()
                            && Commitlog::spec_appended(logs2[j], msgs.take(i + 1)[j], logs2[j + 1])
                            && logs2[j].spec_can_append(msgs.take(i + 1)[j].len() as int) && (
                            logs2[j].sound() ==> logs2[j + 1].sound()) by {
                            if j < i {
                                assert(logs2[j] == logs[j] && logs2[j + 1] == logs[j + 1]);
                                assert(msgs.take(i + 1)[j] == msgs.take(i as int)[j]);
                                assert(logs[j + 1].wf() && Commitlog::spec_appended(
                                    logs[j],
                                    msgs.take(i as int)[j],
                                    logs[j + 1],
                                ) && logs[j].spec_can_append(msgs.take(i as int)[j].len() as int)
                                    && (logs[j].sound() ==> logs[j + 1].sound()));
                            } else {
                                assert(logs2[j] == before && logs2[j + 1] == topic.commitlog);
                                assert(msgs.take(i + 1)[j] == msg@);
                            }
                        }
                        logs = logs2;
                    }
                    i = i + 1;
                }
                self.topics.insert(x, topic);
                proof {
                    assert(msgs.take(n as int) =~= msgs);
                    assert forall|k: int|
                        0 <= k < old_topics.len() && k != x implies #[trigger] self.topics@[k]
                        == old_topics[k] by {}
                }
                Ok(Response::Produce(new_produce_response(topic_name, last_offset as u64, true)))
            },
        }
    }

    /// Answers a consume request: reads the messages available to the
    /// consumer group it names in the topic it names, and moves the group
    /// past them.
    pub fn handle_consumer(&mut self, consume_request: ConsumeRequest) -> (r: Result<
        Response,
        BrokerError,
    >)
        requires
            old(self).wf(),
        ensures
            final(self).wf(),
            Broker::spec_consumed(*old(self), consume_request, *final(self), r),
    {
        let topic_name = consume_request.topic_name.as_str();
        match self.check_topics(topic_name) {
            None => Ok(Response::Consume(new_consume_response(topic_name, false, Vec::new()))),
            Some(x) => {
                if !self.topics[x].commitlog.is_readable() {
                    return Err(BrokerError::new("Unable to poll consumers commitlog"));
                }
                let ghost old_topics = self.topics@;
                let mut topic = self.topics.remove(x);
                let ghost ot = topic;
                let records = topic.poll_consumer_group(consume_request.consumer_group.as_str());
                proof {
                    let start = Topic::spec_group_start(ot.consumer_groups@, consume_request.consumer_group@);
                    lemma_run_len_bound(ot.commitlog, start as int);
                    assert(records@.len() == records@.map_values(|m: Vec<u8>| m@).len());
                    assert(ot.commitlog.spec_next_offset() <= u16::MAX) by {
                        if ot.commitlog.spec_segments().len() > 0 {
                            assert(ot.commitlog.spec_segments().last().spec_next_offset() <= u16::MAX);
                        }
                    }
                }
                self.topics.insert(x, topic);
                let resp = new_consume_response(topic_name, true, records);
                proof {
                    assert forall|k: int|
                        0 <= k < old_topics.len() && k != x implies #[trigger] self.topics@[k]
                        == old_topics[k] by {}
                    if records@.len() == 0 {
                        assert(resp.messages@.map_values(|m: Vec<u8>| m@) =~= Seq::<Seq<u8>>::empty());
                    }
                }
                Ok(Response::Consume(resp))
            },
        }
    }

    /// The command that answers a request received on `conn_id`, given the
    /// outcome of handling it: its response, or the error.
    pub open spec fn spec_answer(
        conn_id: String,
        inner: Result<Response, BrokerError>,
        r: Result<Command, BrokerError>,
    ) -> bool {
        match inner {
            Ok(d) => r == Ok::<Command, BrokerError>(Command::Response { conn_id, capmessagedata: d }),
            Err(e) => r == Err::<Command, BrokerError>(e),
        }
    }

    /// Handles one command: a request is answered on its connection, and
    /// anything else is answered as invalid.
    pub fn handle_command(&mut self, command: Command) -> (r: Result<Command, BrokerError>)
        requires
            old(self).wf(),
            command matches Command::TopicRequest { capmessage, .. } ==> old(self).spec_answerable(
                capmessage,
            ),
        ensures
            final(self).wf(),
            match command {
                Command::TopicRequest { conn_id, capmessage } => exists|inner: Result<Response, BrokerError>|
                    #[trigger] Broker::spec_topic_handled(*old(self), capmessage, *final(self), inner)
                        && Broker::spec_answer(conn_id, inner, r),
                Command::ProduceRequest { conn_id, capmessage } => exists|inner: Result<Response, BrokerError>|
                    #[trigger] Broker::spec_produced(*old(self), capmessage, *final(self), inner)
                        && Broker::spec_answer(conn_id, inner, r),
                Command::ConsumeRequest { conn_id, capmessage } => exists|inner: Result<Response, BrokerError>|
                    #[trigger] Broker::spec_consumed(*old(self), capmessage, *final(self), inner)
                        && Broker::spec_answer(conn_id, inner, r),
                Command::Invalid { conn_id, error_message, .. } => {
                    &&& *final(self) == *old(self)
                    &&& r matches Ok(
                        Command::Invalid { conn_id: c, error_message: m, capmessage_data: Response::Invalid(i) },
                    ) && c == conn_id && m == error_message && i.message@ == error_message@
                },
                Command::Response { conn_id, .. } => {
                    &&& *final(self) == *old(self)
                    &&& r matches Ok(
                        Command::Invalid { conn_id: c, error_message: m, capmessage_data: Response::Invalid(i) },
                    ) && c == conn_id && m@ == "Response message is invalid"@ && i.message@ == m@
                },
            },
    {
        match command {
            Command::TopicRequest { conn_id, capmessage } => {
                let inner = self.handle_topic(capmessage);
                let r = match inner {
                    Ok(data) => Ok(Command::Response { conn_id, capmessagedata: data }),
                    Err(e) => Err(e),
                };
                assert(Broker::spec_answer(conn_id, inner, r));
                r
            },
            Command::ProduceRequest { conn_id, capmessage } => {
                let inner = self.handle_producer(capmessage);
                let r = match inner {
                    Ok(data) => Ok(Command::Response { conn_id, capmessagedata: data }),
                    Err(e) => Err(e),
                };
                assert(Broker::spec_answer(conn_id, inner, r));
                r
            },
            Command::ConsumeRequest { conn_id, capmessage } => {
                let inner = self.handle_consumer(capmessage);
                let r = match inner {
                    Ok(data) => Ok(Command::Response { conn_id, capmessagedata: data }),
                    Err(e) => Err(e),
                };
                assert(Broker::spec_answer(conn_id, inner, r));
                r
            },
            Command::Invalid { conn_id, error_message, capmessage_data: _ } => {
                let data = self.handle_invalid_message(error_message.as_str());
                Ok(Command::Invalid { conn_id, error_message, capmessage_data: data })
            },
            Command::Response { conn_id, capmessagedata: _ } => {
                let message = to_owned_string("Response message is invalid");
                let data = self.handle_invalid_message(message.as_str());
                Ok(Command::Invalid { conn_id, error_message: message, capmessage_data: data })
            },
        }
    }

    /// The answer to a message that could not be understood.
    pub fn handle_invalid_message(&self, message_text: &str) -> (r: Response)
        ensures
            r matches Response::Invalid(i) && i.message@ == message_text@,
    {
        Response::Invalid(new_invalid_response(message_text))
    }
}

/// Law: a consume request answers with the messages that a produce request
/// appended to the topic, in order, when its consumer group reads from the
/// offset the first of them got and the cleaner removed none of them.
pub proof fn lemma_broker_consumes_what_was_produced(
    b0: Broker,
    produce_request: ProduceRequest,
    b1: Broker,
    r1: Result<Response, BrokerError>,
    consume_request: ConsumeRequest,
    b2: Broker,
    r2: Result<Response, BrokerError>,
)
    requires
        Broker::spec_produced(b0, produce_request, b1, r1),
        r1 is Ok,
        Broker::spec_consumed(b1, consume_request, b2, r2),
        consume_request.topic_name@ == produce_request.topic_name@,
        spec_find_topic(b0.topics@, produce_request.topic_name@) >= 0,
        b0.topics@[spec_find_topic(b0.topics@, produce_request.topic_name@)].commitlog.sound(),
        Topic::spec_group_start(
            b1.topics@[spec_find_topic(b0.topics@, produce_request.topic_name@)].consumer_groups@,
            consume_request.consumer_group@,
        ) == b0.topics@[spec_find_topic(
            b0.topics@,
            produce_request.topic_name@,
        )].commitlog.spec_next_offset(),
        produce_request.messages@.len() > 0 ==> b1.topics@[spec_find_topic(
            b0.topics@,
            produce_request.topic_name@,
        )].commitlog.spec_segments()[0].spec_starting_offset() <= b0.topics@[spec_find_topic(
            b0.topics@,
            produce_request.topic_name@,
        )].commitlog.spec_next_offset(),
    ensures
        r2 matches Ok(Response::Consume(c)) && c.messages@.map_values(|m: Vec<u8>| m@)
            == spec_byte_views(produce_request.messages@),
{
    let name = produce_request.topic_name@;
    let i = spec_find_topic(b0.topics@, name);
    let msgs = spec_byte_views(produce_request.messages@);
    let ot = b0.topics@[i];
    let nt = b1.topics@[i];
    let (logs, n) = choose|logs: Seq<Commitlog>, n: int|
        #![trigger spec_append_chain(logs, msgs.take(n))]
        0 <= n <= msgs.len() && logs[0] == ot.commitlog && logs[n] == nt.commitlog
            && spec_append_chain(logs, msgs.take(n)) && if n == msgs.len() {
            r1 matches Ok(Response::Produce(p)) && p.topic_name@ == name && p.success
                && p.offset == if n == 0 {
                0
            } else {
                logs[n - 1].spec_next_offset()
            }
        } else {
            &&& !logs[n].spec_can_append(msgs[n].len() as int)
            &&& r1 matches Err(e) && e@ == "Unable to produce message to commitlog"@
        };
    assert(n == msgs.len());
    assert(msgs.take(n) =~= msgs);
    lemma_chain_prefix(logs, msgs, n);
    assert(spec_topic_names(b1.topics@) =~= spec_topic_names(b0.topics@)) by {
        assert forall|k: int| 0 <= k < b0.topics@.len() implies #[trigger] spec_topic_names(
            b1.topics@,
        )[k] == spec_topic_names(b0.topics@)[k] by {
            if k != i {
                assert(b1.topics@[k] == b0.topics@[k]);
            }
        }
    }
    crate::commitlog::lemma_sound_is_readable(logs[n]);
    lemma_produced_messages_read_back(logs, msgs);
}


/// Law: describing a topic succeeds exactly when the broker holds a topic
/// of that name, however many consumer groups it has; the answer names the
/// topic, and on success gives that topic's limits and the names of its
/// consumer groups.
pub proof fn lemma_describe_succeeds_iff_topic_exists(topics: Seq<Topic>, name: Seq<char>)
    ensures
        Broker::spec_description(topics, name).success == (exists|i: int|
            0 <= i < topics.len() && #[trigger] topics[i].name@ == name),
        Broker::spec_description(topics, name).topic_name == Some(name),
        Broker::spec_description(topics, name).discriminant == 0,
        forall|i: int|
            0 <= i < topics.len() && #[trigger] topics[i].name@ == name && (forall|q: int|
                0 <= q < i ==> topics[q].name@ != name) ==> {
                let d = Broker::spec_description(topics, name);
                &&& d.max_segment_bytes == topics[i].max_segment_size
                &&& d.max_retention_bytes == topics[i].max_topic_size
                &&& d.consumer_groups == Some(spec_group_names(topics[i].consumer_groups@))
            },
{
    let names = spec_topic_names(topics);
    crate::topic::lemma_name_index_bounds(names, name, names.len() as int);
    let p = spec_find_topic(topics, name);
    if p >= 0 {
        assert(names[p] == name);
        assert(topics[p].name@ == name);
    } else {
        assert forall|i: int| 0 <= i < topics.len() implies #[trigger] topics[i].name@ != name by {
            assert(names[i] != name);
        }
    }
    assert forall|i: int|
        0 <= i < topics.len() && #[trigger] topics[i].name@ == name && (forall|q: int|
            0 <= q < i ==> topics[q].name@ != name) implies p == i by {
        assert(names[i] == name);
        crate::topic::lemma_name_index_bounds(names, name, i);
        if spec_name_index(names, name, i) >= 0 {
            let q = spec_name_index(names, name, i);
            assert(names[q] == name);
            assert(topics[q].name@ != name);
        }
        assert(spec_name_index(names, name, i + 1) == i);
        crate::topic::lemma_name_index_prefix_found(names, name, i + 1, names.len() as int);
    }
}

/// Law: once a topic is created (or was already there), describing it
/// succeeds.
pub proof fn lemma_describe_after_create(
    old: Broker,
    name: Seq<char>,
    new: Broker,
    r: Result<Response, BrokerError>,
)
    requires
        Broker::spec_created(old, name, new, r),
    ensures
        Broker::spec_description(new.topics@, name).success,
{
    lemma_describe_succeeds_iff_topic_exists(old.topics@, name);
    lemma_describe_succeeds_iff_topic_exists(new.topics@, name);
    if spec_find_topic(old.topics@, name) >= 0 {
        let i = spec_find_topic(old.topics@, name);
        let names = spec_topic_names(old.topics@);
        crate::topic::lemma_name_index_bounds(names, name, names.len() as int);
        assert(names[i] == name);
        assert(new.topics@[i].name@ == name);
    } else {
        let k = new.topics@.len() - 1;
        assert(new.topics@[k].name@ == name);
    }
}

} // verus!

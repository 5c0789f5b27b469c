//! A LucidMQ instance kept in one process: its topics, and the merge of
//! the state another process saved into them.
use vstd::prelude::*;
use crate::broker::spec_topic_names;
use crate::commitlog::Commitlog;
use crate::consumer::Consumer;
use crate::producer::Producer;
use crate::random::spec_is_alphanumeric;
use crate::text::{spec_join_path, str_equal};
use crate::topic::{
    ConsumerGroup, Topic, find_group, spec_find_group, spec_find_name, spec_group_names,
    spec_name_index,
};

verus! {

/// What a merge reads and changes of a topic: its name, its directory and
/// its consumer groups.
pub struct TopicMeta {
    pub name: Seq<char>,
    pub directory: Seq<char>,
    pub groups: Seq<ConsumerGroup>,
}

/// The name, directory and consumer groups of a topic.
pub open spec fn spec_meta(t: Topic) -> TopicMeta {
    TopicMeta { name: t.name@, directory: t.directory@, groups: t.consumer_groups@ }
}

/// The name, directory and consumer groups of each of a list of topics.
pub open spec fn spec_metas(ts: Seq<Topic>) -> Seq<TopicMeta> {
    ts.map_values(|t: Topic| spec_meta(t))
}

/// The names of a list of topic descriptions.
pub open spec fn spec_meta_names(ms: Seq<TopicMeta>) -> Seq<Seq<char>> {
    ms.map_values(|m: TopicMeta| m.name)
}

/// The consumer groups after merging the saved group `g`: a group of that
/// name takes its offset, unless it is the group in use; a group of a new
/// name is added.
pub open spec fn spec_merge_group(
    groups: Seq<ConsumerGroup>,
    g: ConsumerGroup,
    in_use: Seq<char>,
) -> Seq<ConsumerGroup> {
    let i = spec_find_group(groups, g.name@);
    if i < 0 {
        groups.push(g)
    } else if g.name@ == in_use {
        groups
    } else {
        groups.update(i, ConsumerGroup { name: groups[i].name, offset: g.offset })
    }
}

/// The consumer groups after merging the saved groups one after the other.
pub open spec fn spec_merge_groups(
    groups: Seq<ConsumerGroup>,
    saved: Seq<ConsumerGroup>,
    in_use: Seq<char>,
) -> Seq<ConsumerGroup>
    decreases saved.len(),
{
    if saved.len() == 0 {
        groups
    } else {
        spec_merge_group(spec_merge_groups(groups, saved.drop_last(), in_use), saved.last(), in_use)
    }
}

/// The topics after merging the saved topic `t`: the groups of a topic of
/// that name are merged with its groups; a topic of a new name is added.
pub open spec fn spec_merge_topic(ms: Seq<TopicMeta>, t: TopicMeta, in_use: Seq<char>) -> Seq<
    TopicMeta,
> {
    let i = spec_find_name(spec_meta_names(ms), t.name);
    if i < 0 {
        ms.push(t)
    } else {
        ms.update(
            i,
            TopicMeta {
                name: ms[i].name,
                directory: ms[i].directory,
                groups: spec_merge_groups(ms[i].groups, t.groups, in_use),
            },
        )
    }
}

/// The topics after merging the saved topics one after the other.
pub open spec fn spec_merge_topics(ms: Seq<TopicMeta>, saved: Seq<TopicMeta>, in_use: Seq<char>) -> Seq<
    TopicMeta,
>
    decreases saved.len(),
{
    if saved.len() == 0 {
        ms
    } else {
        spec_merge_topic(spec_merge_topics(ms, saved.drop_last(), in_use), saved.last(), in_use)
    }
}

/// `b` keeps the groups of `a`: each keeps its place and its name, and the
/// group in use keeps its offset too.
pub open spec fn spec_groups_kept(a: Seq<ConsumerGroup>, b: Seq<ConsumerGroup>, in_use: Seq<char>) -> bool {
    &&& b.len() >= a.len()
    &&& forall|j: int|
        0 <= j < a.len() ==> #[trigger] b[j].name == a[j].name && (a[j].name@ == in_use ==> b[j]
            == a[j])
}

/// `r` keeps the topics of `ms`: each keeps its place, its name and its
/// directory, and its groups are kept.
pub open spec fn spec_topics_kept(ms: Seq<TopicMeta>, r: Seq<TopicMeta>, in_use: Seq<char>) -> bool {
    &&& r.len() >= ms.len()
    &&& forall|i: int|
        0 <= i < ms.len() ==> #[trigger] r[i].name == ms[i].name && r[i].directory == ms[i].directory
            && spec_groups_kept(ms[i].groups, r[i].groups, in_use)
}

proof fn lemma_groups_kept_trans(
    a: Seq<ConsumerGroup>,
    b: Seq<ConsumerGroup>,
    c: Seq<ConsumerGroup>,
    in_use: Seq<char>,
)
    requires
        spec_groups_kept(a, b, in_use),
        spec_groups_kept(b, c, in_use),
    ensures
        spec_groups_kept(a, c, in_use),
{
    assert forall|j: int| 0 <= j < a.len() implies #[trigger] c[j].name == a[j].name && (a[j].name@
        == in_use ==> c[j] == a[j]) by {
        assert(b[j].name == a[j].name);
        assert(c[j].name == b[j].name);
    }
}

/// A name found among a list of names is still found, at the same place,
/// once each name kept its place and more names were added.
proof fn lemma_find_kept(a: Seq<Seq<char>>, b: Seq<Seq<char>>, name: Seq<char>)
    requires
        b.len() >= a.len(),
        forall|j: int| 0 <= j < a.len() ==> #[trigger] b[j] == a[j],
        spec_find_name(a, name) >= 0,
    ensures
        spec_find_name(b, name) == spec_find_name(a, name),
{
    crate::topic::lemma_name_index_bounds(a, name, a.len() as int);
    crate::topic::lemma_name_index_same_prefix(a, b, name, a.len() as int);
    crate::topic::lemma_name_index_prefix_found(b, name, a.len() as int, b.len() as int);
}

/// Merging one saved group keeps the groups, and a group of its name is
/// then found.
proof fn lemma_merge_group_keeps(groups: Seq<ConsumerGroup>, g: ConsumerGroup, in_use: Seq<char>)
    ensures
        spec_groups_kept(groups, spec_merge_group(groups, g, in_use), in_use),
        spec_find_group(spec_merge_group(groups, g, in_use), g.name@) >= 0,
        spec_group_names(spec_merge_group(groups, g, in_use)).take(groups.len() as int)
            == spec_group_names(groups),
{
    let r = spec_merge_group(groups, g, in_use);
    let names = spec_group_names(groups);
    crate::topic::lemma_name_index_bounds(names, g.name@, names.len() as int);
    let i = spec_find_group(groups, g.name@);
    if i < 0 {
        crate::topic::lemma_name_index_push(names, g.name@, g.name@);
        assert(spec_group_names(r) =~= names.push(g.name@));
    } else {
        assert(names[i] == g.name@);
        assert(spec_group_names(r) =~= names);
    }
    assert(spec_group_names(r).take(groups.len() as int) =~= names);
}

/// Law: merging saved consumer groups never removes a group nor moves
/// one, never changes the offset of the group in use, and leaves a group
/// of each saved name.
pub proof fn lemma_merge_groups_keeps(groups: Seq<ConsumerGroup>, saved: Seq<ConsumerGroup>, in_use: Seq<char>)
    ensures
        spec_groups_kept(groups, spec_merge_groups(groups, saved, in_use), in_use),
        forall|k: int|
            0 <= k < saved.len() ==> spec_find_group(
                spec_merge_groups(groups, saved, in_use),
                (#[trigger] saved[k]).name@,
            ) >= 0,
    decreases saved.len(),
{
    if saved.len() > 0 {
        let prev = spec_merge_groups(groups, saved.drop_last(), in_use);
        let r = spec_merge_groups(groups, saved, in_use);
        lemma_merge_groups_keeps(groups, saved.drop_last(), in_use);
        lemma_merge_group_keeps(prev, saved.last(), in_use);
        lemma_groups_kept_trans(groups, prev, r, in_use);
        assert forall|k: int| 0 <= k < saved.len() implies spec_find_group(
            r,
            (#[trigger] saved[k]).name@,
        ) >= 0 by {
            if k < saved.len() - 1 {
                assert(saved.drop_last()[k] == saved[k]);
                let pn = spec_group_names(prev);
                let rn = spec_group_names(r);
                assert forall|j: int| 0 <= j < pn.len() implies #[trigger] rn[j] == pn[j] by {
                    assert(rn.take(prev.len() as int)[j] == rn[j]);
                }
                lemma_find_kept(pn, rn, saved[k].name@);
            }
        }
    }
}

proof fn lemma_topics_kept_trans(
    a: Seq<TopicMeta>,
    b: Seq<TopicMeta>,
    c: Seq<TopicMeta>,
    in_use: Seq<char>,
)
    requires
        spec_topics_kept(a, b, in_use),
        spec_topics_kept(b, c, in_use),
    ensures
        spec_topics_kept(a, c, in_use),
{
    assert forall|i: int| 0 <= i < a.len() implies #[trigger] c[i].name == a[i].name && c[i].directory
        == a[i].directory && spec_groups_kept(a[i].groups, c[i].groups, in_use) by {
        assert(b[i].name == a[i].name);
        assert(c[i].name == b[i].name);
        lemma_groups_kept_trans(a[i].groups, b[i].groups, c[i].groups, in_use);
    }
}

/// Merging one saved topic keeps the topics, and a topic of its name is
/// then found.
proof fn lemma_merge_topic_keeps(ms: Seq<TopicMeta>, t: TopicMeta, in_use: Seq<char>)
    ensures
        spec_topics_kept(ms, spec_merge_topic(ms, t, in_use), in_use),
        spec_find_name(spec_meta_names(spec_merge_topic(ms, t, in_use)), t.name) >= 0,
        spec_meta_names(spec_merge_topic(ms, t, in_use)).take(ms.len() as int) == spec_meta_names(ms),
{
    let r = spec_merge_topic(ms, t, in_use);
    let names = spec_meta_names(ms);
    crate::topic::lemma_name_index_bounds(names, t.name, names.len() as int);
    let i = spec_find_name(names, t.name);
    if i < 0 {
        crate::topic::lemma_name_index_push(names, t.name, t.name);
        assert(spec_meta_names(r) =~= names.push(t.name));
        assert forall|k: int| 0 <= k < ms.len() implies #[trigger] r[k].name == ms[k].name
            && r[k].directory == ms[k].directory && spec_groups_kept(ms[k].groups, r[k].groups, in_use) by {
            assert(r[k] == ms[k]);
        }
    } else {
        assert(names[i] == t.name);
        assert(spec_meta_names(r) =~= names);
        lemma_merge_groups_keeps(ms[i].groups, t.groups, in_use);
        assert forall|k: int| 0 <= k < ms.len() implies #[trigger] r[k].name == ms[k].name
            && r[k].directory == ms[k].directory && spec_groups_kept(ms[k].groups, r[k].groups, in_use) by {
            if k != i {
                assert(r[k] == ms[k]);
            }
        }
    }
    assert(spec_meta_names(r).take(ms.len() as int) =~= names);
}

/// Law: merging saved state never removes a topic or moves one, keeps the
/// name and directory of each topic, keeps its consumer groups (the group
/// in use with its offset), and leaves a topic of each saved name.
pub proof fn lemma_merge_topics_keeps(ms: Seq<TopicMeta>, saved: Seq<TopicMeta>, in_use: Seq<char>)
    ensures
        spec_topics_kept(ms, spec_merge_topics(ms, saved, in_use), in_use),
        forall|k: int|
            0 <= k < saved.len() ==> spec_find_name(
                spec_meta_names(spec_merge_topics(ms, saved, in_use)),
                (#[trigger] saved[k]).name,
            ) >= 0,
    decreases saved.len(),
{
    if saved.len() > 0 {
        let prev = spec_merge_topics(ms, saved.drop_last(), in_use);
        let r = spec_merge_topics(ms, saved, in_use);
        lemma_merge_topics_keeps(ms, saved.drop_last(), in_use);
        lemma_merge_topic_keeps(prev, saved.last(), in_use);
        lemma_topics_kept_trans(ms, prev, r, in_use);
        assert forall|k: int| 0 <= k < saved.len() implies spec_find_name(
            spec_meta_names(r),
            (#[trigger] saved[k]).name,
        ) >= 0 by {
            if k < saved.len() - 1 {
                assert(saved.drop_last()[k] == saved[k]);
                let pn = spec_meta_names(prev);
                let rn = spec_meta_names(r);
                assert forall|j: int| 0 <= j < pn.len() implies #[trigger] rn[j] == pn[j] by {
                    assert(rn.take(prev.len() as int)[j] == rn[j]);
                }
                lemma_find_kept(pn, rn, saved[k].name);
            }
        }
    }
}

/// Merges the saved consumer groups into `groups`, one after the other.
pub fn merge_consumer_groups(
    groups: &mut Vec<ConsumerGroup>,
    saved: &Vec<ConsumerGroup>,
    consumer_group_in_use: &str,
)
    ensures
        final(groups)@ == spec_merge_groups(old(groups)@, saved@, consumer_group_in_use@),
{
    let mut k: usize = 0;
    while k < saved.len()
        invariant
            k <= saved@.len(),
            groups@ == spec_merge_groups(old(groups)@, saved@.take(k as int), consumer_group_in_use@),
        decreases saved@.len() - k,
    {
        let cg = &saved[k];
        proof {
            assert(saved@.take(k + 1).drop_last() =~= saved@.take(k as int));
            assert(saved@.take(k + 1).last() == saved@[k as int]);
        }
        match find_group(groups, cg.name.as_str()) {
            None => {
                groups.push(cg.copy());
            },
            Some(j) => {
                if !str_equal(cg.name.as_str(), consumer_group_in_use) {
                    let mut g = groups.remove(j);
                    let ghost before = g;
                    g.offset = cg.offset;
                    groups.insert(j, g);
                    proof {
                        let prev = spec_merge_groups(old(groups)@, saved@.take(k as int), consumer_group_in_use@);
                        assert(g == ConsumerGroup { name: prev[j as int].name, offset: cg.offset });
                        assert(groups@ =~= prev.update(j as int, g));
                    }
                }
            },
        }
        k = k + 1;
    }
    assert(saved@.take(k as int) =~= saved@);
}

/// `b` has the commit log and the limits of `a`.
pub open spec fn spec_log_kept(b: Topic, a: Topic) -> bool {
    &&& b.commitlog == a.commitlog
    &&& b.max_segment_size == a.max_segment_size
    &&& b.max_topic_size == a.max_topic_size
}

/// A LucidMQ instance: its base directory, the limits of its topics and
/// the topics.
pub struct LucidMQ {
    pub base_directory: String,
    pub max_segment_bytes: u64,
    pub max_topic_size: u64,
    pub topics: Vec<Topic>,
}

impl LucidMQ {
    /// An instance with no topics, kept in `directory`.
    pub fn new(directory: String, max_segment_size_bytes: u64, max_topic_size_bytes: u64) -> (l:
        LucidMQ)
        ensures
            l.base_directory == directory,
            l.max_segment_bytes == max_segment_size_bytes,
            l.max_topic_size == max_topic_size_bytes,
            l.topics@.len() == 0,
    {
        LucidMQ {
            base_directory: directory,
            max_segment_bytes: max_segment_size_bytes,
            max_topic_size: max_topic_size_bytes,
            topics: Vec::new(),
        }
    }

    /// The position of the first topic named `topic_to_find`, if there is
    /// one.
    pub fn check_topics(&self, topic_to_find: &str) -> (r: Option<usize>)
        ensures
            match r {
                Some(i) => i == spec_find_name(spec_topic_names(self.topics@), topic_to_find@) && i
                    < self.topics@.len(),
                None => spec_find_name(spec_topic_names(self.topics@), topic_to_find@) < 0,
            },
    {
        let ghost names = spec_topic_names(self.topics@);
        let mut i: usize = 0;
        while i < self.topics.len()
            invariant
                i <= self.topics@.len(),
                names == spec_topic_names(self.topics@),
                spec_name_index(names, topic_to_find@, i as int) == -1,
            decreases self.topics@.len() - i,
        {
            if str_equal(self.topics[i].name.as_str(), topic_to_find) {
                proof {
                    assert(names[i as int] == topic_to_find@);
                    assert(spec_name_index(names, topic_to_find@, i + 1) == i);
                    crate::topic::lemma_name_index_prefix_found(
                        names,
                        topic_to_find@,
                        i + 1,
                        names.len() as int,
                    );
                }
                return Some(i);
            }
            i = i + 1;
        }
        None
    }

    /// Adds a new topic named `topic_name` in a new directory of random
    /// name under the base directory, and gives that directory.
    pub fn new_topic(&mut self, topic_name: String) -> (directory: String)
        ensures
            final(self).base_directory == old(self).base_directory,
            final(self).max_segment_bytes == old(self).max_segment_bytes,
            final(self).max_topic_size == old(self).max_topic_size,
            final(self).topics@.len() == old(self).topics@.len() + 1,
            final(self).topics@.drop_last() == old(self).topics@,
            exists|d: Seq<char>|
                d.len() == 5 && (forall|i: int| 0 <= i < 5 ==> spec_is_alphanumeric(#[trigger] d[i]))
                    && directory@ == spec_join_path(old(self).base_directory@, d)
                    && final(self).topics@.last().spec_is_new(topic_name@, directory@, 1000, 100),
    {
        match Topic::new(topic_name, self.base_directory.clone(), 1000, 100) {
            Ok(topic) => {
                let td = topic.directory.clone();
                self.topics.push(topic);
                proof {
                    assert(self.topics@.drop_last() =~= old(self).topics@);
                }
                td
            },
            Err(_) => String::new(),
        }
    }

    /// A producer of the topic named `topic`. For a topic of that name, the
    /// producer appends to `commitlog`, the topic's log as loaded from its
    /// directory; otherwise the topic is added first and the producer gets a
    /// new, empty log on the new topic's directory.
    pub fn new_producer(&mut self, topic: String, commitlog: Commitlog) -> (p: Producer)
        ensures
            final(self).base_directory == old(self).base_directory,
            final(self).max_segment_bytes == old(self).max_segment_bytes,
            final(self).max_topic_size == old(self).max_topic_size,
            p.topic@ == topic@,
            ({
                let i = spec_find_name(spec_topic_names(old(self).topics@), topic@);
                if i >= 0 {
                    &&& final(self).topics@ == old(self).topics@
                    &&& p.commitlog == commitlog
                } else {
                    &&& final(self).topics@.len() == old(self).topics@.len() + 1
                    &&& final(self).topics@.drop_last() == old(self).topics@
                    &&& p.commitlog.wf()
                    &&& p.commitlog.sound()
                    &&& p.commitlog.spec_segments().len() == 0
                    &&& p.commitlog.spec_max_segment_size() == old(self).max_segment_bytes
                    &&& p.commitlog.spec_retention() == old(self).max_topic_size
                    &&& p.commitlog.spec_directory() == final(self).topics@.last().directory@
                    &&& exists|d: Seq<char>|
                        d.len() == 5 && (forall|i: int|
                            0 <= i < 5 ==> spec_is_alphanumeric(#[trigger] d[i]))
                            && final(self).topics@.last().spec_is_new(
                            topic@,
                            spec_join_path(old(self).base_directory@, d),
                            1000,
                            100,
                        )
                }
            }),
    {
        match self.check_topics(topic.as_str()) {
            Some(i) => {
                proof {
                    crate::topic::lemma_name_index_bounds(
                        spec_topic_names(self.topics@),
                        topic@,
                        self.topics@.len() as int,
                    );
                    assert(spec_topic_names(self.topics@)[i as int] == self.topics@[i as int].name@);
                }
                Producer { topic: self.topics[i].name.clone(), commitlog }
            },
            None => {
                let directory = self.new_topic(topic.clone());
                Producer::new(directory, topic, self.max_segment_bytes, self.max_topic_size)
            },
        }
    }

    /// A consumer of the topic named `topic` for the consumer group named
    /// `consumer_group_name`, reading `commitlog` (the topic's log, which
    /// must hold a segment). The group is loaded in the topic; the topic,
    /// with that group, is added first when there is none of that name.
    pub fn new_consumer(&mut self, topic: String, consumer_group_name: String, commitlog: Commitlog) -> (c:
        Consumer)
        requires
            commitlog.spec_segments().len() > 0,
        ensures
            final(self).base_directory == old(self).base_directory,
            final(self).max_segment_bytes == old(self).max_segment_bytes,
            final(self).max_topic_size == old(self).max_topic_size,
            c.topic@ == topic@,
            c.commitlog == commitlog,
            c.consumer_offset == commitlog.spec_segments()[0].spec_starting_offset(),
            c.consumer_group.name@ == consumer_group_name@,
            ({
                let i = spec_find_name(spec_topic_names(old(self).topics@), topic@);
                if i >= 0 {
                    let ot = old(self).topics@[i];
                    let nt = final(self).topics@[i];
                    &&& final(self).topics@.len() == old(self).topics@.len()
                    &&& forall|k: int|
                        0 <= k < old(self).topics@.len() && k != i ==> #[trigger] final(self).topics@[k]
                            == old(self).topics@[k]
                    &&& nt.name == ot.name
                    &&& nt.directory == ot.directory
                    &&& nt.commitlog == ot.commitlog
                    &&& spec_group_names(nt.consumer_groups@) == crate::topic::spec_names_after_load(
                        spec_group_names(ot.consumer_groups@),
                        consumer_group_name@,
                    )
                    &&& forall|k: int|
                        0 <= k < ot.consumer_groups@.len() ==> #[trigger] nt.consumer_groups@[k]
                            == ot.consumer_groups@[k]
                    &&& c.consumer_group == nt.consumer_groups@[spec_find_group(
                        nt.consumer_groups@,
                        consumer_group_name@,
                    )]
                } else {
                    let nt = final(self).topics@.last();
                    &&& final(self).topics@.len() == old(self).topics@.len() + 1
                    &&& final(self).topics@.drop_last() == old(self).topics@
                    &&& nt.name@ == topic@
                    &&& nt.consumer_groups@.len() == 1
                    &&& nt.consumer_groups@[0] == c.consumer_group
                    &&& c.consumer_group.offset == 0
                    &&& exists|d: Seq<char>|
                        d.len() == 5 && (forall|i: int|
                            0 <= i < 5 ==> spec_is_alphanumeric(#[trigger] d[i]))
                            && nt.directory@ == spec_join_path(old(self).base_directory@, d)
                }
            }),
    {
        match self.check_topics(topic.as_str()) {
            Some(i) => {
                let mut found = self.topics.remove(i);
                let consumer_cg = found.load_consumer_group(consumer_group_name.as_str());
                proof {
                    crate::topic::lemma_name_index_bounds(
                        spec_group_names(found.consumer_groups@),
                        consumer_group_name@,
                        found.consumer_groups@.len() as int,
                    );
                }
                self.topics.insert(i, found);
                proof {
                    assert forall|k: int|
                        0 <= k < old(self).topics@.len() && k != i implies #[trigger] self.topics@[k]
                        == old(self).topics@[k] by {}
                }
                Consumer::new(commitlog, topic, consumer_cg)
            },
            None => {
                let user_cg = ConsumerGroup::new(consumer_group_name.as_str());
                let cg_copy = user_cg.copy();
                match Topic::new(topic.clone(), self.base_directory.clone(), 1000, 100) {
                    Ok(new_topic) => {
                        let mut new_topic = new_topic;
                        new_topic.consumer_groups.push(user_cg);
                        self.topics.push(new_topic);
                        proof {
                            assert(self.topics@.drop_last() =~= old(self).topics@);
                        }
                        Consumer::new(commitlog, topic, cg_copy)
                    },
                    Err(_) => Consumer::new(commitlog, topic, cg_copy),
                }
            },
        }
    }

    /// Writes back to its topic the offset a consumer's group has reached:
    /// the group of that name in the topic of the consumer's topic name
    /// takes the consumer group's offset. Tells whether there was such a
    /// topic and group; when there was not, nothing changes.
    pub fn commit_consumer(&mut self, consumer: &Consumer) -> (committed: bool)
        ensures
            final(self).base_directory == old(self).base_directory,
            final(self).max_segment_bytes == old(self).max_segment_bytes,
            final(self).max_topic_size == old(self).max_topic_size,
            final(self).topics@.len() == old(self).topics@.len(),
            ({
                let i = spec_find_name(spec_topic_names(old(self).topics@), consumer.topic@);
                let name = consumer.consumer_group.name@;
                &&& committed == (i >= 0 && spec_find_group(old(self).topics@[i].consumer_groups@, name) >= 0)
                &&& forall|k: int|
                    0 <= k < old(self).topics@.len() && k != i ==> #[trigger] final(self).topics@[k]
                        == old(self).topics@[k]
                &&& i >= 0 ==> {
                    let ot = old(self).topics@[i];
                    let nt = final(self).topics@[i];
                    let j = spec_find_group(ot.consumer_groups@, name);
                    &&& nt.name == ot.name
                    &&& nt.directory == ot.directory
                    &&& nt.max_segment_size == ot.max_segment_size
                    &&& nt.max_topic_size == ot.max_topic_size
                    &&& nt.commitlog == ot.commitlog
                    &&& nt.consumer_groups@ == if j >= 0 {
                        ot.consumer_groups@.update(
                            j,
                            ConsumerGroup { name: ot.consumer_groups@[j].name, offset: consumer.consumer_group.offset },
                        )
                    } else {
                        ot.consumer_groups@
                    }
                }
            }),
    {
        match self.check_topics(consumer.topic.as_str()) {
            Some(i) => {
                proof {
                    crate::topic::lemma_name_index_bounds(
                        spec_topic_names(self.topics@),
                        consumer.topic@,
                        self.topics@.len() as int,
                    );
                }
                let mut found = self.topics.remove(i);
                let committed = found.set_consumer_group_offset(
                    consumer.consumer_group.name.as_str(),
                    consumer.consumer_group.offset,
                );
                self.topics.insert(i, found);
                proof {
                    assert forall|k: int|
                        0 <= k < old(self).topics@.len() && k != i implies #[trigger] self.topics@[k]
                        == old(self).topics@[k] by {}
                }
                committed
            },
            None => false,
        }
    }

    /// Merges the state that was saved (`saved`, its topics) into this
    /// instance: a saved topic of a new name is added with a commit log of
    /// its own; the consumer groups of a saved topic are merged into the
    /// topic of that name, where each group takes the saved offset, but
    /// for the group in use, which keeps its own.
    pub fn sync(&mut self, saved: &Vec<Topic>, consumer_group_in_use: &str)
        ensures
            final(self).base_directory == old(self).base_directory,
            final(self).max_segment_bytes == old(self).max_segment_bytes,
            final(self).max_topic_size == old(self).max_topic_size,
            spec_metas(final(self).topics@) == spec_merge_topics(
                spec_metas(old(self).topics@),
                spec_metas(saved@),
                consumer_group_in_use@,
            ),
            final(self).topics@.len() >= old(self).topics@.len(),
            forall|i: int|
                0 <= i < old(self).topics@.len() ==> {
                    &&& #[trigger] final(self).topics@[i].commitlog == old(self).topics@[i].commitlog
                    &&& final(self).topics@[i].max_segment_size == old(self).topics@[i].max_segment_size
                    &&& final(self).topics@[i].max_topic_size == old(self).topics@[i].max_topic_size
                },
            forall|i: int|
                old(self).topics@.len() <= i < final(self).topics@.len() ==> {
                    let t = #[trigger] final(self).topics@[i];
                    &&& t.commitlog.wf()
                    &&& t.commitlog.sound()
                    &&& t.commitlog.spec_segments().len() == 0
                    &&& t.commitlog.spec_directory() == t.directory@
                    &&& t.max_segment_size == 1000
                    &&& t.max_topic_size == 100
                },
    {
        let ghost old_topics = self.topics@;
        let ghost old_metas = spec_metas(self.topics@);
        let ghost saved_metas = spec_metas(saved@);
        let mut t: usize = 0;
        while t < saved.len()
            invariant
                t <= saved@.len(),
                saved_metas == spec_metas(saved@),
                self.base_directory == old(self).base_directory,
                self.max_segment_bytes == old(self).max_segment_bytes,
                self.max_topic_size == old(self).max_topic_size,
                old_topics == old(self).topics@,
                spec_metas(self.topics@) == spec_merge_topics(
                    old_metas,
                    saved_metas.take(t as int),
                    consumer_group_in_use@,
                ),
                self.topics@.len() >= old_topics.len(),
                forall|i: int|
                    0 <= i < old_topics.len() ==> spec_log_kept(#[trigger] self.topics@[i], old_topics[i]),
                forall|i: int|
                    old_topics.len() <= i < self.topics@.len() ==> {
                        let t = #[trigger] self.topics@[i];
                        &&& t.commitlog.wf()
                        &&& t.commitlog.sound()
                        &&& t.commitlog.spec_segments().len() == 0
                        &&& t.commitlog.spec_directory() == t.directory@
                        &&& t.max_segment_size == 1000
                        &&& t.max_topic_size == 100
                    },
            decreases saved@.len() - t,
        {
            let saved_topic = &saved[t];
            let ghost prev = spec_metas(self.topics@);
            let ghost prev_topics = self.topics@;
            proof {
                assert(saved_metas.take(t + 1).drop_last() =~= saved_metas.take(t as int));
                assert(saved_metas.take(t + 1).last() == spec_meta(saved@[t as int]));
                assert(spec_meta_names(prev) =~= spec_topic_names(self.topics@));
            }
            match self.check_topics(saved_topic.name.as_str()) {
                None => {
                    let added = Topic::new_topic_from_ref(saved_topic);
                    self.topics.push(added);
                    proof {
                        assert(spec_metas(self.topics@) =~= prev.push(spec_meta(saved@[t as int])));
                        assert forall|i: int| 0 <= i < old_topics.len() implies spec_log_kept(#[trigger] self.topics@[i], old_topics[i]) by {
                            assert(self.topics@[i] == prev_topics[i]);
                        }
                    }
                },
                Some(index) => {
                    let mut topic = self.topics.remove(index);
                    let ghost before = topic;
                    assert(before == prev_topics[index as int]);
                    merge_consumer_groups(
                        &mut topic.consumer_groups,
                        &saved_topic.consumer_groups,
                        consumer_group_in_use,
                    );
                    self.topics.insert(index, topic);
                    proof {
                        assert(topic.commitlog == before.commitlog);
                        assert(topic.max_segment_size == before.max_segment_size);
                        assert(topic.max_topic_size == before.max_topic_size);
                        assert(self.topics@ =~= prev_topics.update(index as int, topic));
                        assert forall|i: int| 0 <= i < self.topics@.len() && i != index implies #[trigger] self.topics@[i]
                            == prev_topics[i] by {}
                        assert forall|i: int| 0 <= i < old_topics.len() implies spec_log_kept(#[trigger] self.topics@[i], old_topics[i]) by {
                            if i != index {
                                assert(self.topics@[i] == prev_topics[i]);
                            }
                        }
                        assert(spec_metas(self.topics@) =~= prev.update(
                            index as int,
                            TopicMeta {
                                name: prev[index as int].name,
                                directory: prev[index as int].directory,
                                groups: spec_merge_groups(
                                    prev[index as int].groups,
                                    saved_topic.consumer_groups@,
                                    consumer_group_in_use@,
                                ),
                            },
                        ));
                    }
                },
            }
            t = t + 1;
        }
        proof {
            assert(saved_metas.take(t as int) =~= saved_metas);
            assert forall|i: int| 0 <= i < old_topics.len() implies {
                &&& #[trigger] self.topics@[i].commitlog == old_topics[i].commitlog
                &&& self.topics@[i].max_segment_size == old_topics[i].max_segment_size
                &&& self.topics@[i].max_topic_size == old_topics[i].max_topic_size
            } by {
                assert(spec_log_kept(self.topics@[i], old_topics[i]));
            }
        }
    }
}

} // verus!

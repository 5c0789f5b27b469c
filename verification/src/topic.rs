//! Topics: named commit logs with the consumer groups reading them.
use vstd::prelude::*;
use crate::commitlog::Commitlog;
use crate::consumer::{read_records, spec_run, spec_run_len};
use crate::lucidmq_errors::TopicError;
use crate::random::{random_alphanumeric, spec_is_alphanumeric};
use crate::text::{join_path, spec_join_path, str_equal, to_owned_string};

verus! {

/// Consumer groups are used by consumers as a way to denote what the last
/// read message offset is in the underlying commitlog. This allows for
/// multiple consumers to read from the same topic, but consume messages at
/// their own pace.
#[derive(Debug, PartialEq, Eq)]
pub struct ConsumerGroup {
    pub name: String,
    pub offset: u32,
}

impl ConsumerGroup {
    /// Initializes a new consumer group with just a name, at offset 0.
    pub fn new(consumer_group_name: &str) -> (cg: ConsumerGroup)
        ensures
            cg.name@ == consumer_group_name@,
            cg.offset == 0,
    {
        ConsumerGroup { name: to_owned_string(consumer_group_name), offset: 0 }
    }

    /// Initializes a consumer group with a name and an offset.
    pub fn new_cg(consumer_group_name: &str, offset_in: u32) -> (cg: ConsumerGroup)
        ensures
            cg.name@ == consumer_group_name@,
            cg.offset == offset_in,
    {
        ConsumerGroup { name: to_owned_string(consumer_group_name), offset: offset_in }
    }

    /// A copy of the consumer group.
    pub fn copy(&self) -> (cg: ConsumerGroup)
        ensures
            cg == *self,
    {
        ConsumerGroup { name: self.name.clone(), offset: self.offset }
    }
}

/// The position of the first name equal to `name` among the first `n`
/// names, or -1.
pub open spec fn spec_name_index(names: Seq<Seq<char>>, name: Seq<char>, n: int) -> int
    decreases n,
{
    if n <= 0 {
        -1
    } else {
        let p = spec_name_index(names, name, n - 1);
        if p >= 0 {
            p
        } else if names[n - 1] == name {
            n - 1
        } else {
            -1
        }
    }
}

/// The position of the first name equal to `name`, or -1.
pub open spec fn spec_find_name(names: Seq<Seq<char>>, name: Seq<char>) -> int {
    spec_name_index(names, name, names.len() as int)
}

/// The names of a list of consumer groups, in order.
pub open spec fn spec_group_names(groups: Seq<ConsumerGroup>) -> Seq<Seq<char>> {
    groups.map_values(|g: ConsumerGroup| g.name@)
}

/// The position of the first consumer group named `name`, or -1.
pub open spec fn spec_find_group(groups: Seq<ConsumerGroup>, name: Seq<char>) -> int {
    spec_find_name(spec_group_names(groups), name)
}

/// The names of the consumer groups after loading the group named `name`:
/// unchanged when one has that name, else with that name added.
pub open spec fn spec_names_after_load(names: Seq<Seq<char>>, name: Seq<char>) -> Seq<Seq<char>> {
    if spec_find_name(names, name) >= 0 {
        names
    } else {
        names.push(name)
    }
}

pub proof fn lemma_name_index_bounds(names: Seq<Seq<char>>, name: Seq<char>, n: int)
    requires
        0 <= n <= names.len(),
    ensures
        -1 <= spec_name_index(names, name, n) < n,
        spec_name_index(names, name, n) >= 0 ==> names[spec_name_index(names, name, n)] == name,
        spec_name_index(names, name, n) < 0 ==> forall|i: int|
            0 <= i < n ==> #[trigger] names[i] != name,
    decreases n,
{
    if n > 0 {
        lemma_name_index_bounds(names, name, n - 1);
    }
}

pub proof fn lemma_name_index_same_prefix(a: Seq<Seq<char>>, b: Seq<Seq<char>>, name: Seq<char>, n: int)
    requires
        0 <= n <= a.len(),
        n <= b.len(),
        forall|i: int| 0 <= i < n ==> #[trigger] a[i] == b[i],
    ensures
        spec_name_index(a, name, n) == spec_name_index(b, name, n),
    decreases n,
{
    if n > 0 {
        lemma_name_index_same_prefix(a, b, name, n - 1);
    }
}

/// A search among a list with one more name finds what the search among
/// the list found, else the added name when it matches.
pub proof fn lemma_name_index_push(names: Seq<Seq<char>>, x: Seq<char>, name: Seq<char>)
    ensures
        spec_find_name(names.push(x), name) == if spec_find_name(names, name) >= 0 {
            spec_find_name(names, name)
        } else if x == name {
            names.len() as int
        } else {
            -1
        },
{
    let p = names.push(x);
    lemma_name_index_same_prefix(p, names, name, names.len() as int);
}

/// A search that finds a name within a prefix finds it in the whole list.
pub proof fn lemma_name_index_prefix_found(names: Seq<Seq<char>>, name: Seq<char>, m: int, n: int)
    requires
        0 <= m <= n <= names.len(),
        spec_name_index(names, name, m) >= 0,
    ensures
        spec_name_index(names, name, n) == spec_name_index(names, name, m),
    decreases n - m,
{
    if n > m {
        lemma_name_index_prefix_found(names, name, m, n - 1);
    }
}

/// Law: loading a consumer group twice under one name adds at most one
/// group: after the first load a group has that name, and the second load
/// leaves the groups as they are.
pub proof fn lemma_load_consumer_group_idempotent(names: Seq<Seq<char>>, name: Seq<char>)
    ensures
        spec_find_name(spec_names_after_load(names, name), name) >= 0,
        spec_names_after_load(spec_names_after_load(names, name), name) == spec_names_after_load(
            names,
            name,
        ),
{
    if spec_find_name(names, name) < 0 {
        lemma_name_index_push(names, name, name);
    }
}

/// The position of the consumer group named `name` among `groups`, if
/// there is one.
pub fn find_group(groups: &Vec<ConsumerGroup>, name: &str) -> (r: Option<usize>)
    ensures
        match r {
            Some(i) => i == spec_find_group(groups@, name@) && i < groups@.len(),
            None => spec_find_group(groups@, name@) < 0,
        },
{
    let ghost names = spec_group_names(groups@);
    let mut i: usize = 0;
    while i < groups.len()
        invariant
            i <= groups@.len(),
            names == spec_group_names(groups@),
            spec_name_index(names, name@, i as int) == -1,
        decreases groups@.len() - i,
    {
        if str_equal(groups[i].name.as_str(), name) {
            proof {
                assert(names[i as int] == name@);
                assert(spec_name_index(names, name@, i + 1) == i);
                lemma_name_index_prefix_found(names, name@, i + 1, names.len() as int);
            }
            return Some(i);
        }
        i = i + 1;
    }
    None
}

/// An abstraction layer built on top of the commitlog. Each topic has meta
/// data to rebuild the commitlog on startup and also stores the consumer
/// groups associated with the topic.
pub struct Topic {
    pub name: String,
    pub directory: String,
    pub consumer_groups: Vec<ConsumerGroup>,
    pub max_segment_size: u64,
    pub max_topic_size: u64,
    pub commitlog: Commitlog,
}

/// Struct used for sending a representation of a topic for messages.
#[derive(Debug, PartialEq, Eq)]
pub struct SimpleTopic {
    pub topic_name: String,
    pub consumer_groups: Vec<String>,
}

impl Topic {
    /// Initializes a new topic in a new directory of random name under
    /// `base_directory`, with an empty commit log and no consumer groups.
    pub fn new(
        topic_name: String,
        base_directory: String,
        max_segment_size: u64,
        max_topic_size: u64,
    ) -> (r: Result<Topic, TopicError>)
        ensures
            match r {
                Ok(t) => exists|d: Seq<char>|
                    d.len() == 5 && (forall|i: int| 0 <= i < 5 ==> spec_is_alphanumeric(#[trigger] d[i]))
                        && t.spec_is_new(topic_name@, spec_join_path(base_directory@, d), max_segment_size, max_topic_size),
                Err(_) => false,
            },
    {
        let directory_name = random_alphanumeric(5);
        Ok(Self::new_in_directory(topic_name, base_directory, directory_name, max_segment_size, max_topic_size))
    }

    /// The topic is new: named `name`, with its commit log in `directory`,
    /// empty, and no consumer groups.
    pub open spec fn spec_is_new(
        &self,
        name: Seq<char>,
        directory: Seq<char>,
        max_segment_size: u64,
        max_topic_size: u64,
    ) -> bool {
        &&& self.name@ == name
        &&& self.directory@ == directory
        &&& self.consumer_groups@.len() == 0
        &&& self.max_segment_size == max_segment_size
        &&& self.max_topic_size == max_topic_size
        &&& self.commitlog.wf()
        &&& self.commitlog.sound()
        &&& self.commitlog.spec_segments().len() == 0
        &&& self.commitlog.spec_directory() == directory
        &&& self.commitlog.spec_max_segment_size() == max_segment_size
        &&& self.commitlog.spec_retention() == max_topic_size
    }

    /// Initializes a new topic whose directory is `directory_name` under
    /// `base_directory`.
    pub fn new_in_directory(
        topic_name: String,
        base_directory: String,
        directory_name: String,
        max_segment_size: u64,
        max_topic_size: u64,
    ) -> (t: Topic)
        ensures
            t.spec_is_new(
                topic_name@,
                spec_join_path(base_directory@, directory_name@),
                max_segment_size,
                max_topic_size,
            ),
    {
        let new_path = join_path(base_directory.as_str(), directory_name.as_str());
        let new_commitlog = Commitlog::with_limits(new_path.clone(), max_segment_size, max_topic_size);
        Topic {
            name: topic_name,
            directory: new_path,
            consumer_groups: Vec::new(),
            max_segment_size,
            max_topic_size,
            commitlog: new_commitlog,
        }
    }

    /// Rebuilds a topic from its saved description: its name, directory,
    /// consumer groups and limits, with a commit log on that directory.
    pub fn from_meta(
        name: String,
        directory: String,
        consumer_groups: Vec<ConsumerGroup>,
        max_segment_size: u64,
        max_topic_size: u64,
    ) -> (t: Topic)
        ensures
            t.name == name,
            t.directory == directory,
            t.consumer_groups == consumer_groups,
            t.max_segment_size == max_segment_size,
            t.max_topic_size == max_topic_size,
            t.commitlog.wf(),
            t.commitlog.sound(),
            t.commitlog.spec_segments().len() == 0,
            t.commitlog.spec_directory() == directory@,
            t.commitlog.spec_max_segment_size() == max_segment_size,
            t.commitlog.spec_retention() == max_topic_size,
    {
        let commitlog = Commitlog::with_limits(directory.clone(), max_segment_size, max_topic_size);
        Topic { name, directory, consumer_groups, max_segment_size, max_topic_size, commitlog }
    }

    /// A new topic with the name, directory and consumer groups of
    /// `topic_ref`, and a commit log of its own on that directory, with
    /// segments of 1000 bytes and a retention of 100 bytes.
    pub fn new_topic_from_ref(topic_ref: &Topic) -> (t: Topic)
        ensures
            t.name == topic_ref.name,
            t.directory == topic_ref.directory,
            t.consumer_groups@ == topic_ref.consumer_groups@,
            t.max_segment_size == 1000,
            t.max_topic_size == 100,
            t.commitlog.wf(),
            t.commitlog.sound(),
            t.commitlog.spec_segments().len() == 0,
            t.commitlog.spec_directory() == topic_ref.directory@,
            t.commitlog.spec_max_segment_size() == 1000,
            t.commitlog.spec_retention() == 100,
    {
        let mut new_consumer_groups: Vec<ConsumerGroup> = Vec::new();
        let mut i: usize = 0;
        while i < topic_ref.consumer_groups.len()
            invariant
                i <= topic_ref.consumer_groups@.len(),
                new_consumer_groups@ == topic_ref.consumer_groups@.take(i as int),
            decreases topic_ref.consumer_groups@.len() - i,
        {
            new_consumer_groups.push(topic_ref.consumer_groups[i].copy());
            i = i + 1;
            assert(new_consumer_groups@ =~= topic_ref.consumer_groups@.take(i as int));
        }
        assert(topic_ref.consumer_groups@.take(i as int) =~= topic_ref.consumer_groups@);
        let new_commitlog = Commitlog::with_limits(topic_ref.directory.clone(), 1000, 100);
        Topic {
            name: topic_ref.name.clone(),
            directory: topic_ref.directory.clone(),
            consumer_groups: new_consumer_groups,
            max_segment_size: 1000,
            max_topic_size: 100,
            commitlog: new_commitlog,
        }
    }

    /// Given a consumer group name, returns the matching consumer group from
    /// the consumer groups of the topic. If it is not found, creates a new
    /// consumer group, adds it to the topic's consumer groups and returns it.
    pub fn load_consumer_group(&mut self, consumer_group_name: &str) -> (cg: ConsumerGroup)
        ensures
            final(self).name == old(self).name,
            final(self).directory == old(self).directory,
            final(self).max_segment_size == old(self).max_segment_size,
            final(self).max_topic_size == old(self).max_topic_size,
            final(self).commitlog == old(self).commitlog,
            spec_group_names(final(self).consumer_groups@) == spec_names_after_load(
                spec_group_names(old(self).consumer_groups@),
                consumer_group_name@,
            ),
            forall|i: int|
                0 <= i < old(self).consumer_groups@.len() ==> #[trigger] final(self).consumer_groups@[i]
                    == old(self).consumer_groups@[i],
            spec_find_group(old(self).consumer_groups@, consumer_group_name@) < 0
                ==> final(self).consumer_groups@.last().offset == 0,
            cg == final(self).consumer_groups@[spec_find_group(
                final(self).consumer_groups@,
                consumer_group_name@,
            )],
            spec_find_group(final(self).consumer_groups@, consumer_group_name@) >= 0,
    {
        let ghost groups = self.consumer_groups@;
        let ghost names = spec_group_names(groups);
        let mut i: usize = 0;
        while i < self.consumer_groups.len()
            invariant
                i <= self.consumer_groups@.len(),
                self.consumer_groups@ == groups,
                names == spec_group_names(groups),
                spec_name_index(names, consumer_group_name@, i as int) == -1,
            decreases self.consumer_groups@.len() - i,
        {
            if str_equal(self.consumer_groups[i].name.as_str(), consumer_group_name) {
                proof {
                    assert(names[i as int] == consumer_group_name@);
                    assert(spec_name_index(names, consumer_group_name@, i + 1) == i);
                    lemma_name_index_prefix_found(names, consumer_group_name@, i + 1, names.len() as int);
                }
                return self.consumer_groups[i].copy();
            }
            i = i + 1;
        }
        let new_consumer_group = ConsumerGroup::new(consumer_group_name);
        let result = new_consumer_group.copy();
        self.consumer_groups.push(new_consumer_group);
        proof {
            lemma_name_index_push(names, consumer_group_name@, consumer_group_name@);
            assert(spec_group_names(self.consumer_groups@) =~= names.push(consumer_group_name@));
        }
        result
    }

    /// Moves the consumer group named `consumer_group_name` to `offset`,
    /// when the topic has such a group; tells whether it had one. Nothing
    /// else changes.
    pub fn set_consumer_group_offset(&mut self, consumer_group_name: &str, offset: u32) -> (found: bool)
        ensures
            final(self).name == old(self).name,
            final(self).directory == old(self).directory,
            final(self).max_segment_size == old(self).max_segment_size,
            final(self).max_topic_size == old(self).max_topic_size,
            final(self).commitlog == old(self).commitlog,
            found == (spec_find_group(old(self).consumer_groups@, consumer_group_name@) >= 0),
            final(self).consumer_groups@ == if found {
                let j = spec_find_group(old(self).consumer_groups@, consumer_group_name@);
                old(self).consumer_groups@.update(
                    j,
                    ConsumerGroup { name: old(self).consumer_groups@[j].name, offset },
                )
            } else {
                old(self).consumer_groups@
            },
    {
        match find_group(&self.consumer_groups, consumer_group_name) {
            Some(j) => {
                let name = self.consumer_groups[j].name.clone();
                self.consumer_groups.set(j, ConsumerGroup { name, offset });
                true
            },
            None => false,
        }
    }

    /// The position of the consumer group named `consumer_group_name`, if
    /// the topic has one.
    pub fn find_consumer_group(&self, consumer_group_name: &str) -> (r: Option<usize>)
        ensures
            match r {
                Some(i) => i == spec_find_group(self.consumer_groups@, consumer_group_name@),
                None => spec_find_group(self.consumer_groups@, consumer_group_name@) < 0,
            },
    {
        find_group(&self.consumer_groups, consumer_group_name)
    }

    /// The offset a consumer group named `name` reads from: its offset, or
    /// 0 for a group loaded anew.
    pub open spec fn spec_group_start(groups: Seq<ConsumerGroup>, name: Seq<char>) -> u32 {
        let j = spec_find_group(groups, name);
        if j >= 0 {
            groups[j].offset
        } else {
            0
        }
    }

    /// Polling the consumer group named `name` turned `old` into `new`: the
    /// group was loaded and its offset moved past the messages available
    /// from its offset; nothing else changed.
    pub open spec fn spec_polled(old: Topic, name: Seq<char>, new: Topic) -> bool {
        let i = spec_find_group(new.consumer_groups@, name);
        let start = Topic::spec_group_start(old.consumer_groups@, name);
        &&& new.name == old.name
        &&& new.directory == old.directory
        &&& new.max_segment_size == old.max_segment_size
        &&& new.max_topic_size == old.max_topic_size
        &&& new.commitlog == old.commitlog
        &&& spec_group_names(new.consumer_groups@) == spec_names_after_load(
            spec_group_names(old.consumer_groups@),
            name,
        )
        &&& 0 <= i < new.consumer_groups@.len()
        &&& new.consumer_groups@[i].offset == start + spec_run_len(old.commitlog, start as int)
        &&& forall|k: int|
            0 <= k < old.consumer_groups@.len() && k != i ==> #[trigger] new.consumer_groups@[k]
                == old.consumer_groups@[k]
    }

    /// Reads the messages available to the consumer group named
    /// `consumer_group_name` (loaded as `load_consumer_group` does), from
    /// its offset up to the first offset that the log does not hold, and
    /// moves the group's offset past them.
    pub fn poll_consumer_group(&mut self, consumer_group_name: &str) -> (records: Vec<Vec<u8>>)
        requires
            old(self).commitlog.readable(),
        ensures
            Topic::spec_polled(*old(self), consumer_group_name@, *final(self)),
            records@.map_values(|r: Vec<u8>| r@) == spec_run(
                old(self).commitlog,
                Topic::spec_group_start(old(self).consumer_groups@, consumer_group_name@) as int,
            ),
    {
        let ghost old_groups = self.consumer_groups@;
        let cg = self.load_consumer_group(consumer_group_name);
        let ghost loaded = self.consumer_groups@;
        let idx = match self.find_consumer_group(consumer_group_name) {
            Some(i) => i,
            None => {
                return Vec::new();
            },
        };
        proof {
            lemma_name_index_bounds(
                spec_group_names(loaded),
                consumer_group_name@,
                loaded.len() as int,
            );
            let j = spec_find_group(old_groups, consumer_group_name@);
            lemma_name_index_bounds(
                spec_group_names(old_groups),
                consumer_group_name@,
                old_groups.len() as int,
            );
            if j >= 0 {
                assert(spec_group_names(loaded) == spec_group_names(old_groups));
                assert(loaded[j] == old_groups[j]);
            } else {
                lemma_name_index_push(spec_group_names(old_groups), consumer_group_name@, consumer_group_name@);
                assert(spec_group_names(loaded) =~= spec_group_names(old_groups).push(consumer_group_name@));
            }
        }
        let (records, next) = read_records(&mut self.commitlog, cg.offset);
        self.consumer_groups.set(idx, ConsumerGroup { name: cg.name, offset: next });
        proof {
            assert(spec_group_names(self.consumer_groups@) =~= spec_group_names(loaded));
            assert(records@.map_values(|r: Vec<u8>| r@) =~= spec_run(
                old(self).commitlog,
                cg.offset as int,
            ));
        }
        records
    }

    /// Gets all of the consumer group names, in order.
    pub fn get_consumer_groups(&self) -> (names: Vec<String>)
        ensures
            names@.map_values(|s: String| s@) == spec_group_names(self.consumer_groups@),
    {
        let mut names: Vec<String> = Vec::new();
        let mut i: usize = 0;
        while i < self.consumer_groups.len()
            invariant
                i <= self.consumer_groups@.len(),
                names@.len() == i,
                forall|k: int| 0 <= k < i ==> (#[trigger] names@[k])@ == self.consumer_groups@[k].name@,
            decreases self.consumer_groups@.len() - i,
        {
            names.push(self.consumer_groups[i].name.clone());
            i = i + 1;
        }
        assert(names@.map_values(|s: String| s@) =~= spec_group_names(self.consumer_groups@));
        names
    }

    /// The largest size of a segment of the topic's commit log.
    pub fn get_max_segment_size(&self) -> (n: u64)
        ensures
            n == self.max_segment_size,
    {
        self.max_segment_size
    }
}


/// Law: a consumer group reads from where it stands: from its stored
/// offset when the topic has a group of that name, and from the first
/// offset, 0, when it does not.
pub proof fn lemma_group_start(groups: Seq<ConsumerGroup>, name: Seq<char>)
    ensures
        forall|j: int|
            0 <= j < groups.len() && #[trigger] groups[j].name@ == name && (forall|q: int|
                0 <= q < j ==> groups[q].name@ != name) ==> Topic::spec_group_start(groups, name)
                == groups[j].offset,
        (forall|j: int| 0 <= j < groups.len() ==> #[trigger] groups[j].name@ != name)
            ==> Topic::spec_group_start(groups, name) == 0,
{
    let names = spec_group_names(groups);
    lemma_name_index_bounds(names, name, names.len() as int);
    assert forall|j: int|
        0 <= j < groups.len() && #[trigger] groups[j].name@ == name && (forall|q: int|
            0 <= q < j ==> groups[q].name@ != name) implies Topic::spec_group_start(groups, name)
        == groups[j].offset by {
        assert(names[j] == name);
        lemma_name_index_bounds(names, name, j);
        if spec_name_index(names, name, j) >= 0 {
            let q = spec_name_index(names, name, j);
            assert(names[q] == name);
            assert(groups[q].name@ != name);
        }
        assert(spec_name_index(names, name, j + 1) == j);
        lemma_name_index_prefix_found(names, name, j + 1, names.len() as int);
    }
    if forall|j: int| 0 <= j < groups.len() ==> #[trigger] groups[j].name@ != name {
        let p = spec_find_group(groups, name);
        if p >= 0 {
            assert(names[p] == name);
            assert(groups[p].name@ != name);
        }
    }
}

/// Law: a poll leaves the consumer group where the next poll resumes: just
/// past the messages it delivered. So two polls of a group, with appends
/// between them, deliver every message once, in order.
pub proof fn lemma_poll_resumes(old: Topic, name: Seq<char>, new: Topic)
    requires
        Topic::spec_polled(old, name, new),
    ensures
        Topic::spec_group_start(new.consumer_groups@, name) == Topic::spec_group_start(
            old.consumer_groups@,
            name,
        ) + spec_run_len(old.commitlog, Topic::spec_group_start(old.consumer_groups@, name) as int),
{
}

} // verus!

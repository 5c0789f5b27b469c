//! The description of a topic in a response: the largest segment size, the
//! retention and the names of the consumer groups.
use vstd::prelude::*;
use crate::topic_capnp::topic_response::{Fields, FieldsView, copy_fields};
use crate::text::{clone_strings, to_owned_string};

verus! {

/// The type of the description messages.
#[derive(Debug, Clone, Copy, PartialEq, Eq)]
pub struct Owned(pub ());

/// The names of a list field: its value, or none when it was never set.
pub open spec fn spec_names(v: Option<Vec<String>>) -> Seq<String> {
    match v {
        Some(names) => names@,
        None => Seq::empty(),
    }
}

fn names_of(v: &Option<Vec<String>>) -> (r: Vec<String>)
    ensures
        r@ == spec_names(*v),
{
    match v {
        Some(names) => clone_strings(names),
        None => Vec::new(),
    }
}

/// A view of a description for reading.
#[derive(Debug, Clone, PartialEq, Eq)]
pub struct Reader {
    pub fields: Fields,
}

impl Reader {
    /// Another reader of the same description.
    pub fn reborrow(&self) -> (r: Reader)
        ensures
            r.fields@ == self.fields@,
    {
        Reader { fields: copy_fields(&self.fields) }
    }

    /// The largest size of a segment of the topic.
    pub fn get_max_segment_bytes(self) -> (n: u64)
        ensures
            n == self.fields.max_segment_bytes,
    {
        self.fields.max_segment_bytes
    }

    /// The number of bytes the topic retains.
    pub fn get_max_retention_bytes(self) -> (n: u64)
        ensures
            n == self.fields.max_retention_bytes,
    {
        self.fields.max_retention_bytes
    }

    /// The names of the consumer groups; none when never set.
    pub fn get_consumer_groups(self) -> (r: Vec<String>)
        ensures
            r@ == spec_names(self.fields.consumer_groups),
    {
        names_of(&self.fields.consumer_groups)
    }

    /// The consumer groups were set.
    pub fn has_consumer_groups(&self) -> (b: bool)
        ensures
            b == self.fields.consumer_groups is Some,
    {
        self.fields.consumer_groups.is_some()
    }
}

/// A view of a description for building it.
#[derive(Debug, Clone, PartialEq, Eq)]
pub struct Builder {
    pub fields: Fields,
}

impl Builder {
    /// A reader of the description built.
    pub fn into_reader(self) -> (r: Reader)
        ensures
            r.fields@ == self.fields@,
    {
        Reader { fields: self.fields }
    }

    /// The same builder, to go on building.
    pub fn reborrow(&mut self) -> (b: &mut Builder)
        ensures
            *b == *old(self),
            *final(self) == *final(b),
    {
        self
    }

    /// A reader of the description as built so far.
    pub fn reborrow_as_reader(&self) -> (r: Reader)
        ensures
            r.fields@ == self.fields@,
    {
        Reader { fields: copy_fields(&self.fields) }
    }

    /// The largest size of a segment of the topic.
    pub fn get_max_segment_bytes(self) -> (n: u64)
        ensures
            n == self.fields.max_segment_bytes,
    {
        self.fields.max_segment_bytes
    }

    /// Sets the largest size of a segment of the topic.
    pub fn set_max_segment_bytes(&mut self, value: u64)
        ensures
            final(self).fields@ == (FieldsView { max_segment_bytes: value, ..old(self).fields@ }),
    {
        self.fields.max_segment_bytes = value;
    }

    /// The number of bytes the topic retains.
    pub fn get_max_retention_bytes(self) -> (n: u64)
        ensures
            n == self.fields.max_retention_bytes,
    {
        self.fields.max_retention_bytes
    }

    /// Sets the number of bytes the topic retains.
    pub fn set_max_retention_bytes(&mut self, value: u64)
        ensures
            final(self).fields@ == (FieldsView { max_retention_bytes: value, ..old(self).fields@ }),
    {
        self.fields.max_retention_bytes = value;
    }

    /// The names of the consumer groups; none when never set.
    pub fn get_consumer_groups(self) -> (r: Vec<String>)
        ensures
            r@ == spec_names(self.fields.consumer_groups),
    {
        names_of(&self.fields.consumer_groups)
    }

    /// Sets the names of the consumer groups.
    pub fn set_consumer_groups(&mut self, value: &Vec<String>)
        ensures
            final(self).fields@ == (FieldsView {
                consumer_groups: Some(value@.map_values(|s: String| s@)),
                ..old(self).fields@
            }),
    {
        self.fields.consumer_groups = Some(clone_strings(value));
    }

    /// Sets the consumer groups to `size` empty names, to be set one by one.
    pub fn init_consumer_groups(&mut self, size: u32)
        ensures
            final(self).fields.consumer_groups matches Some(v) && v@.len() == size && forall|i: int|
                0 <= i < size ==> (#[trigger] v@[i])@ == Seq::<char>::empty(),
            final(self).fields@ == (FieldsView {
                consumer_groups: final(self).fields@.consumer_groups,
                ..old(self).fields@
            }),
    {
        let mut v: Vec<String> = Vec::new();
        let mut i: u32 = 0;
        while i < size
            invariant
                i <= size,
                v@.len() == i,
                forall|k: int| 0 <= k < i ==> (#[trigger] v@[k])@ == Seq::<char>::empty(),
            decreases size - i,
        {
            v.push(String::new());
            i = i + 1;
        }
        self.fields.consumer_groups = Some(v);
    }

    /// Sets the name of the consumer group at `index` of a list already set.
    pub fn set_consumer_group(&mut self, index: u32, value: &str)
        requires
            old(self).fields.consumer_groups matches Some(v) && index < v@.len(),
        ensures
            final(self).fields.consumer_groups matches Some(v) && old(
                self,
            ).fields.consumer_groups matches Some(w) && v@.len() == w@.len() && v@[index as int]@
                == value@ && forall|i: int|
                0 <= i < v@.len() && i != index ==> #[trigger] v@[i] == w@[i],
            final(self).fields@ == (FieldsView {
                consumer_groups: final(self).fields@.consumer_groups,
                ..old(self).fields@
            }),
    {
        let mut groups = match &self.fields.consumer_groups {
            Some(v) => clone_strings(v),
            None => Vec::new(),
        };
        groups.set(index as usize, to_owned_string(value));
        self.fields.consumer_groups = Some(groups);
    }

    /// The consumer groups were set.
    pub fn has_consumer_groups(&self) -> (b: bool)
        ensures
            b == self.fields.consumer_groups is Some,
    {
        self.fields.consumer_groups.is_some()
    }
}

/// The promises of the description type; it has none to pipeline.
#[derive(Debug, Clone, Copy, PartialEq, Eq)]
pub struct Pipeline {
    pub typeless: (),
}

} // verus!

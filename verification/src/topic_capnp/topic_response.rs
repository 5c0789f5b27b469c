//! The answer to a topic request: the topic's name, whether the request
//! succeeded, and what was done (a description of the topic, its creation
//! or its deletion).
use vstd::prelude::*;
use crate::topic_capnp::NotInSchema;
use crate::topic_capnp::topic_request::spec_text;
use crate::text::{clone_strings, to_owned_string};

pub mod describe;

verus! {

/// The type of the response messages.
#[derive(Debug, Clone, Copy, PartialEq, Eq)]
pub struct Owned(pub ());

/// What a topic response answers.
#[derive(Debug, PartialEq, Eq)]
pub enum Which<A0> {
    Describe(A0),
    Create(()),
    Delete(()),
}

/// The fields of a topic response; the description shares them.
#[derive(Debug, Clone, PartialEq, Eq)]
pub struct Fields {
    pub topic_name: Option<String>,
    pub success: bool,
    pub discriminant: u16,
    pub max_segment_bytes: u64,
    pub max_retention_bytes: u64,
    pub consumer_groups: Option<Vec<String>>,
}

/// The values of the fields of a response.
pub struct FieldsView {
    pub topic_name: Option<Seq<char>>,
    pub success: bool,
    pub discriminant: u16,
    pub max_segment_bytes: u64,
    pub max_retention_bytes: u64,
    pub consumer_groups: Option<Seq<Seq<char>>>,
}

impl View for Fields {
    type V = FieldsView;

    open spec fn view(&self) -> FieldsView {
        FieldsView {
            topic_name: match self.topic_name {
                Some(s) => Some(s@),
                None => None,
            },
            success: self.success,
            discriminant: self.discriminant,
            max_segment_bytes: self.max_segment_bytes,
            max_retention_bytes: self.max_retention_bytes,
            consumer_groups: match self.consumer_groups {
                Some(v) => Some(v@.map_values(|s: String| s@)),
                None => None,
            },
        }
    }
}

/// Copies the fields of a response.
pub fn copy_fields(f: &Fields) -> (r: Fields)
    ensures
        r@ == f@,
{
    Fields {
        topic_name: match &f.topic_name {
            Some(s) => Some(s.clone()),
            None => None,
        },
        success: f.success,
        discriminant: f.discriminant,
        max_segment_bytes: f.max_segment_bytes,
        max_retention_bytes: f.max_retention_bytes,
        consumer_groups: match &f.consumer_groups {
            Some(v) => Some(clone_strings(v)),
            None => None,
        },
    }
}

fn text_of(t: &Option<String>) -> (s: String)
    ensures
        s@ == spec_text(*t),
{
    match t {
        Some(s) => s.clone(),
        None => String::new(),
    }
}

/// What a response with the given fields answers, with the description
/// read from those fields.
pub open spec fn spec_which_reader(f: Fields) -> Result<Which<describe::Reader>, NotInSchema> {
    if f.discriminant == 0 {
        Ok(Which::Describe(describe::Reader { fields: f }))
    } else if f.discriminant == 1 {
        Ok(Which::Create(()))
    } else if f.discriminant == 2 {
        Ok(Which::Delete(()))
    } else {
        Err(NotInSchema(f.discriminant))
    }
}

/// What a response with the given fields answers, with the description
/// built on those fields.
pub open spec fn spec_which_builder(f: Fields) -> Result<Which<describe::Builder>, NotInSchema> {
    if f.discriminant == 0 {
        Ok(Which::Describe(describe::Builder { fields: f }))
    } else if f.discriminant == 1 {
        Ok(Which::Create(()))
    } else if f.discriminant == 2 {
        Ok(Which::Delete(()))
    } else {
        Err(NotInSchema(f.discriminant))
    }
}

/// A view of a topic response for reading.
#[derive(Debug, Clone, PartialEq, Eq)]
pub struct Reader {
    pub fields: Fields,
}

impl Reader {
    /// Another reader of the same response.
    pub fn reborrow(&self) -> (r: Reader)
        ensures
            r.fields@ == self.fields@,
    {
        Reader { fields: copy_fields(&self.fields) }
    }

    /// The name of the topic; empty when it was never set.
    pub fn get_topic_name(self) -> (s: String)
        ensures
            s@ == spec_text(self.fields.topic_name),
    {
        text_of(&self.fields.topic_name)
    }

    /// The name of the topic was set.
    pub fn has_topic_name(&self) -> (b: bool)
        ensures
            b == self.fields.topic_name is Some,
    {
        self.fields.topic_name.is_some()
    }

    /// Whether the request succeeded.
    pub fn get_success(self) -> (b: bool)
        ensures
            b == self.fields.success,
    {
        self.fields.success
    }

    /// What the response answers.
    pub fn which(self) -> (r: Result<Which<describe::Reader>, NotInSchema>)
        ensures
            r == spec_which_reader(self.fields),
    {
        match self.fields.discriminant {
            0 => Ok(Which::Describe(describe::Reader { fields: self.fields })),
            1 => Ok(Which::Create(())),
            2 => Ok(Which::Delete(())),
            x => Err(NotInSchema(x)),
        }
    }
}

/// A view of a topic response for building it.
#[derive(Debug, Clone, PartialEq, Eq)]
pub struct Builder {
    pub fields: Fields,
}

impl Builder {
    /// A new response: no topic name, not successful, describing a topic
    /// with no limits and no consumer groups set.
    pub fn new() -> (b: Builder)
        ensures
            b.fields@ == (FieldsView {
                topic_name: None,
                success: false,
                discriminant: 0,
                max_segment_bytes: 0,
                max_retention_bytes: 0,
                consumer_groups: None,
            }),
    {
        Builder {
            fields: Fields {
                topic_name: None,
                success: false,
                discriminant: 0,
                max_segment_bytes: 0,
                max_retention_bytes: 0,
                consumer_groups: None,
            },
        }
    }

    /// A reader of the response built.
    pub fn into_reader(self) -> (r: Reader)
        ensures
            r.fields@ == self.fields@,
    {
        Reader { fields: self.fields }
    }

    /// The same builder, to go on building.
    pub fn reborrow(&mut self) -> (b: &mut Builder)
        ensures
            *b == *old(self),
            *final(self) == *final(b),
    {
        self
    }

    /// A reader of the response as built so far.
    pub fn reborrow_as_reader(&self) -> (r: Reader)
        ensures
            r.fields@ == self.fields@,
    {
        Reader { fields: copy_fields(&self.fields) }
    }

    /// The name of the topic; empty when it was never set.
    pub fn get_topic_name(self) -> (s: String)
        ensures
            s@ == spec_text(self.fields.topic_name),
    {
        text_of(&self.fields.topic_name)
    }

    /// Sets the name of the topic.
    pub fn set_topic_name(&mut self, value: &str)
        ensures
            final(self).fields@ == (FieldsView {
                topic_name: final(self).fields@.topic_name,
                ..old(self).fields@
            }),
            final(self).fields.topic_name matches Some(s) && s@ == value@,
    {
        self.fields.topic_name = Some(to_owned_string(value));
    }

    /// The name of the topic was set.
    pub fn has_topic_name(&self) -> (b: bool)
        ensures
            b == self.fields.topic_name is Some,
    {
        self.fields.topic_name.is_some()
    }

    /// Whether the request succeeded.
    pub fn get_success(self) -> (b: bool)
        ensures
            b == self.fields.success,
    {
        self.fields.success
    }

    /// Sets whether the request succeeded.
    pub fn set_success(&mut self, value: bool)
        ensures
            final(self).fields@ == (FieldsView { success: value, ..old(self).fields@ }),
    {
        self.fields.success = value;
    }

    /// Makes the response a description of the topic, with no limits and
    /// no consumer groups set yet, and gives the description's builder.
    pub fn init_describe(self) -> (d: describe::Builder)
        ensures
            d.fields@ == (FieldsView {
                discriminant: 0,
                max_segment_bytes: 0,
                max_retention_bytes: 0,
                consumer_groups: None,
                ..self.fields@
            }),
    {
        let mut fields = self.fields;
        fields.discriminant = 0;
        fields.max_segment_bytes = 0;
        fields.max_retention_bytes = 0;
        fields.consumer_groups = None;
        describe::Builder { fields }
    }

    /// Makes the response answer the creation of the topic.
    pub fn set_create(&mut self, _value: ())
        ensures
            final(self).fields@ == (FieldsView { discriminant: 1, ..old(self).fields@ }),
    {
        self.fields.discriminant = 1;
    }

    /// Makes the response answer the deletion of the topic.
    pub fn set_delete(&mut self, _value: ())
        ensures
            final(self).fields@ == (FieldsView { discriminant: 2, ..old(self).fields@ }),
    {
        self.fields.discriminant = 2;
    }

    /// What the response answers.
    pub fn which(self) -> (r: Result<Which<describe::Builder>, NotInSchema>)
        ensures
            r == spec_which_builder(self.fields),
    {
        match self.fields.discriminant {
            0 => Ok(Which::Describe(describe::Builder { fields: self.fields })),
            1 => Ok(Which::Create(())),
            2 => Ok(Which::Delete(())),
            x => Err(NotInSchema(x)),
        }
    }
}

/// The promises of the response type; it has none to pipeline.
#[derive(Debug, Clone, Copy, PartialEq, Eq)]
pub struct Pipeline {
    pub typeless: (),
}

} // verus!

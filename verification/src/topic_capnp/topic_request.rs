//! A request on a topic as a client builds it: the topic's name and what
//! to do with it (describe it, create it or delete it). Any other union
//! discriminant is not in this schema.
use vstd::prelude::*;
use crate::topic_capnp::NotInSchema;

verus! {

/// The type of the request messages.
#[derive(Debug, Clone, Copy, PartialEq, Eq)]
pub struct Owned(pub ());

/// What a topic request asks for.
#[derive(Debug, Clone, Copy, PartialEq, Eq)]
pub enum Which {
    Describe(()),
    Create(()),
    Delete(()),
}

/// The union of a request named by a discriminant.
pub open spec fn spec_which(discriminant: u16) -> Result<Which, NotInSchema> {
    if discriminant == 0 {
        Ok(Which::Describe(()))
    } else if discriminant == 1 {
        Ok(Which::Create(()))
    } else if discriminant == 2 {
        Ok(Which::Delete(()))
    } else {
        Err(NotInSchema(discriminant))
    }
}

fn which_of(discriminant: u16) -> (r: Result<Which, NotInSchema>)
    ensures
        r == spec_which(discriminant),
{
    match discriminant {
        0 => Ok(Which::Describe(())),
        1 => Ok(Which::Create(())),
        2 => Ok(Which::Delete(())),
        x => Err(NotInSchema(x)),
    }
}

/// The fields of a topic request.
#[derive(Debug, Clone, PartialEq, Eq)]
pub struct Fields {
    pub topic_name: Option<String>,
    pub discriminant: u16,
}

/// The text of a pointer field: its value, or empty when it was never set.
pub open spec fn spec_text(t: Option<String>) -> Seq<char> {
    match t {
        Some(s) => s@,
        None => Seq::empty(),
    }
}

fn text_of(t: &Option<String>) -> (s: String)
    ensures
        s@ == spec_text(*t),
{
    match t {
        Some(s) => s.clone(),
        None => String::new(),
    }
}

/// A view of a topic request for reading.
#[derive(Debug, Clone, PartialEq, Eq)]
pub struct Reader {
    pub fields: Fields,
}

impl Reader {
    /// Another reader of the same request.
    pub fn reborrow(&self) -> (r: Reader)
        ensures
            r == *self,
    {
        Reader { fields: Fields { topic_name: self.fields.topic_name.clone(), discriminant: self.fields.discriminant } }
    }

    /// The name of the topic; empty when it was never set.
    pub fn get_topic_name(self) -> (s: String)
        ensures
            s@ == spec_text(self.fields.topic_name),
    {
        text_of(&self.fields.topic_name)
    }

    /// The name of the topic was set.
    pub fn has_topic_name(&self) -> (b: bool)
        ensures
            b == self.fields.topic_name is Some,
    {
        self.fields.topic_name.is_some()
    }

    /// What the request asks for.
    pub fn which(self) -> (r: Result<Which, NotInSchema>)
        ensures
            r == spec_which(self.fields.discriminant),
    {
        which_of(self.fields.discriminant)
    }
}

/// A view of a topic request for building it.
#[derive(Debug, Clone, PartialEq, Eq)]
pub struct Builder {
    pub fields: Fields,
}

impl Builder {
    /// A new request: no topic name, and asking for a description.
    pub fn new() -> (b: Builder)
        ensures
            b.fields.topic_name is None,
            b.fields.discriminant == 0,
    {
        Builder { fields: Fields { topic_name: None, discriminant: 0 } }
    }

    /// A reader of the request built.
    pub fn into_reader(self) -> (r: Reader)
        ensures
            r.fields == self.fields,
    {
        Reader { fields: self.fields }
    }

    /// The same builder, to go on building.
    pub fn reborrow(&mut self) -> (b: &mut Builder)
        ensures
            *b == *old(self),
            *final(self) == *final(b),
    {
        self
    }

    /// A reader of the request as built so far.
    pub fn reborrow_as_reader(&self) -> (r: Reader)
        ensures
            r.fields == self.fields,
    {
        Reader { fields: Fields { topic_name: self.fields.topic_name.clone(), discriminant: self.fields.discriminant } }
    }

    /// The name of the topic; empty when it was never set.
    pub fn get_topic_name(self) -> (s: String)
        ensures
            s@ == spec_text(self.fields.topic_name),
    {
        text_of(&self.fields.topic_name)
    }

    /// Sets the name of the topic.
    pub fn set_topic_name(&mut self, value: &str)
        ensures
            final(self).fields.topic_name matches Some(s) && s@ == value@,
            final(self).fields.discriminant == old(self).fields.discriminant,
    {
        self.fields.topic_name = Some(crate::text::to_owned_string(value));
    }

    /// The name of the topic was set.
    pub fn has_topic_name(&self) -> (b: bool)
        ensures
            b == self.fields.topic_name is Some,
    {
        self.fields.topic_name.is_some()
    }

    /// Makes the request ask for a description of the topic.
    pub fn set_describe(&mut self, _value: ())
        ensures
            final(self).fields.discriminant == 0,
            final(self).fields.topic_name == old(self).fields.topic_name,
    {
        self.fields.discriminant = 0;
    }

    /// Makes the request ask for the creation of the topic.
    pub fn set_create(&mut self, _value: ())
        ensures
            final(self).fields.discriminant == 1,
            final(self).fields.topic_name == old(self).fields.topic_name,
    {
        self.fields.discriminant = 1;
    }

    /// Makes the request ask for the deletion of the topic.
    pub fn set_delete(&mut self, _value: ())
        ensures
            final(self).fields.discriminant == 2,
            final(self).fields.topic_name == old(self).fields.topic_name,
    {
        self.fields.discriminant = 2;
    }

    /// What the request asks for.
    pub fn which(self) -> (r: Result<Which, NotInSchema>)
        ensures
            r == spec_which(self.fields.discriminant),
    {
        which_of(self.fields.discriminant)
    }
}

/// The promises of the request type; it has none to pipeline.
#[derive(Debug, Clone, Copy, PartialEq, Eq)]
pub struct Pipeline {
    pub typeless: (),
}

} // verus!

//! Errors of the message queue: topic, protocol, server, broker, consumer and
//! producer errors. Each carries a description, which is its view.
use vstd::prelude::*;
use crate::text::{str_equal, to_owned_string};

verus! {

/// An error raised by a topic.
#[derive(Debug, PartialEq, Eq)]
pub struct TopicError {
    details: String,
}

impl View for TopicError {
    type V = Seq<char>;

    closed spec fn view(&self) -> Seq<char> {
        self.details@
    }
}

impl TopicError {
    /// Creates an error with the given description.
    pub fn new(msg: &str) -> (e: TopicError)
        ensures
            e@ == msg@,
    {
        TopicError { details: to_owned_string(msg) }
    }

    /// The description of the error.
    pub fn message(&self) -> (s: String)
        ensures
            s@ == self@,
    {
        self.details.clone()
    }

    /// Tells whether the description is exactly `msg`.
    pub fn has_details(&self, msg: &str) -> (b: bool)
        ensures
            b == (self@ == msg@),
    {
        str_equal(self.details.as_str(), msg)
    }
}

/// An error raised by the wire protocol.
#[derive(Debug, PartialEq, Eq)]
pub struct ProtocolError {
    details: String,
}

impl View for ProtocolError {
    type V = Seq<char>;

    closed spec fn view(&self) -> Seq<char> {
        self.details@
    }
}

impl ProtocolError {
    /// Creates an error with the given description.
    pub fn new(msg: &str) -> (e: ProtocolError)
        ensures
            e@ == msg@,
    {
        ProtocolError { details: to_owned_string(msg) }
    }

    /// The description of the error.
    pub fn message(&self) -> (s: String)
        ensures
            s@ == self@,
    {
        self.details.clone()
    }

    /// Tells whether the description is exactly `msg`.
    pub fn has_details(&self, msg: &str) -> (b: bool)
        ensures
            b == (self@ == msg@),
    {
        str_equal(self.details.as_str(), msg)
    }
}

/// An error raised by the server.
#[derive(Debug, PartialEq, Eq)]
pub struct ServerError {
    details: String,
}

impl View for ServerError {
    type V = Seq<char>;

    closed spec fn view(&self) -> Seq<char> {
        self.details@
    }
}

impl ServerError {
    /// Creates an error with the given description.
    pub fn new(msg: &str) -> (e: ServerError)
        ensures
            e@ == msg@,
    {
        ServerError { details: to_owned_string(msg) }
    }

    /// The description of the error.
    pub fn message(&self) -> (s: String)
        ensures
            s@ == self@,
    {
        self.details.clone()
    }

    /// Tells whether the description is exactly `msg`.
    pub fn has_details(&self, msg: &str) -> (b: bool)
        ensures
            b == (self@ == msg@),
    {
        str_equal(self.details.as_str(), msg)
    }
}

/// An error raised by the broker.
#[derive(Debug, PartialEq, Eq)]
pub struct BrokerError {
    details: String,
}

impl View for BrokerError {
    type V = Seq<char>;

    closed spec fn view(&self) -> Seq<char> {
        self.details@
    }
}

impl BrokerError {
    /// Creates an error with the given description.
    pub fn new(msg: &str) -> (e: BrokerError)
        ensures
            e@ == msg@,
    {
        BrokerError { details: to_owned_string(msg) }
    }

    /// The description of the error.
    pub fn message(&self) -> (s: String)
        ensures
            s@ == self@,
    {
        self.details.clone()
    }

    /// Tells whether the description is exactly `msg`.
    pub fn has_details(&self, msg: &str) -> (b: bool)
        ensures
            b == (self@ == msg@),
    {
        str_equal(self.details.as_str(), msg)
    }
}

/// An error raised by a consumer.
#[derive(Debug, PartialEq, Eq)]
pub struct ConsumerError {
    details: String,
}

impl View for ConsumerError {
    type V = Seq<char>;

    closed spec fn view(&self) -> Seq<char> {
        self.details@
    }
}

impl ConsumerError {
    /// Creates an error with the given description.
    pub fn new(msg: &str) -> (e: ConsumerError)
        ensures
            e@ == msg@,
    {
        ConsumerError { details: to_owned_string(msg) }
    }

    /// The description of the error.
    pub fn message(&self) -> (s: String)
        ensures
            s@ == self@,
    {
        self.details.clone()
    }

    /// Tells whether the description is exactly `msg`.
    pub fn has_details(&self, msg: &str) -> (b: bool)
        ensures
            b == (self@ == msg@),
    {
        str_equal(self.details.as_str(), msg)
    }
}

/// An error raised by a producer.
#[derive(Debug, PartialEq, Eq)]
pub struct ProducerError {
    details: String,
}

impl View for ProducerError {
    type V = Seq<char>;

    closed spec fn view(&self) -> Seq<char> {
        self.details@
    }
}

impl ProducerError {
    /// Creates an error with the given description.
    pub fn new(msg: &str) -> (e: ProducerError)
        ensures
            e@ == msg@,
    {
        ProducerError { details: to_owned_string(msg) }
    }

    /// The description of the error.
    pub fn message(&self) -> (s: String)
        ensures
            s@ == self@,
    {
        self.details.clone()
    }

    /// Tells whether the description is exactly `msg`.
    pub fn has_details(&self, msg: &str) -> (b: bool)
        ensures
            b == (self@ == msg@),
    {
        str_equal(self.details.as_str(), msg)
    }
}

} // verus!

//! Errors of the commit log: index, segment and cleaner errors.
//!
//! Each error carries a human readable description; its view is that
//! description as a sequence of characters.
use vstd::prelude::*;
use crate::text::{str_equal, to_owned_string};

verus! {

/// An error raised by an index.
#[derive(Debug, PartialEq, Eq)]
pub struct IndexError {
    details: String,
}

impl View for IndexError {
    type V = Seq<char>;

    closed spec fn view(&self) -> Seq<char> {
        self.details@
    }
}

impl IndexError {
    /// Creates an error with the given description.
    pub fn new(msg: &str) -> (e: IndexError)
        ensures
            e@ == msg@,
    {
        IndexError { details: to_owned_string(msg) }
    }

    /// The description of the error.
    pub fn message(&self) -> (s: String)
        ensures
            s@ == self@,
    {
        self.details.clone()
    }

    /// Tells whether the description is exactly `msg`.
    pub fn has_details(&self, msg: &str) -> (b: bool)
        ensures
            b == (self@ == msg@),
    {
        str_equal(self.details.as_str(), msg)
    }
}

/// An error raised by a segment.
#[derive(Debug, PartialEq, Eq)]
pub struct SegmentError {
    details: String,
}

impl View for SegmentError {
    type V = Seq<char>;

    closed spec fn view(&self) -> Seq<char> {
        self.details@
    }
}

impl SegmentError {
    /// Creates an error with the given description.
    pub fn new(msg: &str) -> (e: SegmentError)
        ensures
            e@ == msg@,
    {
        SegmentError { details: to_owned_string(msg) }
    }

    /// The description of the error.
    pub fn message(&self) -> (s: String)
        ensures
            s@ == self@,
    {
        self.details.clone()
    }

    /// Tells whether the description is exactly `msg`.
    pub fn has_details(&self, msg: &str) -> (b: bool)
        ensures
            b == (self@ == msg@),
    {
        str_equal(self.details.as_str(), msg)
    }
}

/// An error raised by the cleaner.
#[derive(Debug, PartialEq, Eq)]
pub struct CleanerError {
    details: String,
}

impl View for CleanerError {
    type V = Seq<char>;

    closed spec fn view(&self) -> Seq<char> {
        self.details@
    }
}

impl CleanerError {
    /// Creates an error with the given description.
    pub fn new(msg: &str) -> (e: CleanerError)
        ensures
            e@ == msg@,
    {
        CleanerError { details: to_owned_string(msg) }
    }

    /// The description of the error.
    pub fn message(&self) -> (s: String)
        ensures
            s@ == self@,
    {
        self.details.clone()
    }
}

} // verus!

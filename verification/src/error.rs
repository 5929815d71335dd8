//! Errors reported by the parser, the passes and the library functions.

use vstd::prelude::*;

use crate::range::Range;

verus! {

#[derive(Clone, Copy, PartialEq, Eq, Structural, Debug)]
pub enum ErrorKind {
    InvalidArguments,
    General,
    Panic,
    UnexpectedToken,
    UnterminatedList,
    MalformedAnnotation,
    MalformedRange,
    MalformedInt,
    MalformedFloat,
    InvalidQuote,
}

/// A note attached to an error: a message and, where known, the range of
/// source it refers to.
#[derive(Debug)]
pub struct Note {
    pub text: String,
    pub range: Option<Range>,
}

#[derive(Debug)]
pub struct Error {
    pub kind: ErrorKind,
    pub notes: Vec<Note>,
}

/// The mathematical form of an error: its kind and its notes' texts and ranges.
pub struct ErrorModel {
    pub kind: ErrorKind,
    pub notes: Seq<(Seq<char>, Option<Range>)>,
}

impl Error {
    /// The mathematical form of the value.
    pub open spec fn model(&self) -> ErrorModel {
        ErrorModel {
            kind: self.kind,
            notes: Seq::new(self.notes@.len(), |i: int| (self.notes@[i].text@, self.notes@[i].range)),
        }
    }
}

/// The models of a sequence of errors.
pub open spec fn error_models(v: Seq<Error>) -> Seq<ErrorModel> {
    Seq::new(v.len(), |i: int| v[i].model())
}

/// An error of the given kind with one note.
pub open spec fn error_with_note(kind: ErrorKind, text: Seq<char>, range: Option<Range>) -> ErrorModel {
    ErrorModel { kind, notes: seq![(text, range)] }
}

/// An error of the given kind whose first note holds the given text.
pub open spec fn error_says(e: Error, kind: ErrorKind, text: Seq<char>) -> bool {
    e.kind == kind && e.notes@.len() >= 1 && e.notes@[0].text@ == text
}

impl Error {
    /// An error of the given kind, with no notes.
    pub fn new(kind: ErrorKind) -> (e: Error)
        ensures
            e.kind == kind,
            e.notes@.len() == 0,
    {
        Error { kind, notes: Vec::new() }
    }

    /// Adds a note.
    pub fn push_note(&mut self, text: &str, range: Option<Range>)
        ensures
            final(self).kind == old(self).kind,
            final(self).notes@.len() == old(self).notes@.len() + 1,
            forall|i: int| 0 <= i < old(self).notes@.len() ==> final(self).notes@[i] == old(self).notes@[i],
            final(self).notes@.last().text@ == text@,
            final(self).notes@.last().range == range,
    {
        self.notes.push(Note { text: text.to_owned(), range });
    }

    fn with_note(kind: ErrorKind, text: &str, range: Option<Range>) -> (e: Error)
        ensures
            e.kind == kind,
            e.notes@.len() == 1,
            e.notes@[0].text@ == text@,
            e.notes@[0].range == range,
    {
        let mut notes: Vec<Note> = Vec::new();
        notes.push(Note { text: text.to_owned(), range });
        Error { kind, notes }
    }

    /// An error about the arguments of a function.
    pub fn invalid_arguments(text: &str, range: Option<Range>) -> (e: Error)
        ensures
            e.kind == ErrorKind::InvalidArguments,
            e.notes@.len() == 1,
            e.notes@[0].text@ == text@,
            e.notes@[0].range == range,
    {
        Error::with_note(ErrorKind::InvalidArguments, text, range)
    }

    /// An error of no particular kind.
    pub fn general(text: &str) -> (e: Error)
        ensures
            e.kind == ErrorKind::General,
            e.notes@.len() == 1,
            e.notes@[0].text@ == text@,
            e.notes@[0].range is None,
    {
        Error::with_note(ErrorKind::General, text, None)
    }

    /// An unrecoverable failure raised by the program itself.
    pub fn panic(text: &str) -> (e: Error)
        ensures
            e.kind == ErrorKind::Panic,
            e.notes@.len() == 1,
            e.notes@[0].text@ == text@,
            e.notes@[0].range is None,
    {
        Error::with_note(ErrorKind::Panic, text, None)
    }
}

} // verus!

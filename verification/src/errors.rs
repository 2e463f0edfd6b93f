//! Error values reported by the unpacking core.
//!
//! The kinds a caller must distinguish: a path with no usable filename
//! component, a filename no registered rule handles, a failed filesystem
//! operation, an unpacker child process that exited unsuccessfully, and an
//! exhausted search for a collision-free destination name.

use vstd::prelude::*;

verus! {

/// An input path with no usable (non-empty) final path component.
#[derive(Debug)]
pub struct BadPath {
    pub path: String,
}

impl BadPath {
    pub fn new(path: String) -> (r: BadPath)
        ensures
            r.path == path,
    {
        BadPath { path }
    }
}

/// A filename that no registered unpack rule handles.
#[derive(Debug)]
pub struct BadFormat {
    pub path: String,
}

impl BadFormat {
    pub fn new(path: String) -> (r: BadFormat)
        ensures
            r.path == path,
    {
        BadFormat { path }
    }
}

/// A command line carrying no archive operand at all.
#[derive(Debug)]
pub struct MissingOperand;

/// A malformed line of a rule-configuration file.
#[derive(Clone, PartialEq, Eq, Structural, Debug)]
pub enum BadLine {
    NoColon,
    EmptyExtension,
    EmptyInvocation,
}

impl BadLine {
    /// A fixed description of the defect, one per variant.
    pub fn desc(&self) -> (r: &'static str)
        ensures
            *self is NoColon ==> r@ == "bad line in config file: missing colon separating extension from unpack invocation"@,
            *self is EmptyExtension ==> r@ == "bad line in config file: no extension given"@,
            *self is EmptyInvocation ==> r@ == "bad line in config file: no invocation given after extension"@,
    {
        match *self {
            BadLine::NoColon => "bad line in config file: missing colon separating extension from unpack invocation",
            BadLine::EmptyExtension => "bad line in config file: no extension given",
            BadLine::EmptyInvocation => "bad line in config file: no invocation given after extension",
        }
    }
}

/// The outcome classification of one failed unpack attempt.
#[derive(Debug)]
pub enum UnpackError {
    /// The input path has no usable filename component.
    Arg(BadPath),
    /// No registered rule's extension matches the input filename.
    Format(BadFormat),
    /// A filesystem or process-spawn operation failed; carries a description
    /// of the underlying cause.
    Io(String),
    /// The external unpacker ran but exited unsuccessfully; carries the exit
    /// code when the child exited with one.
    Child(Option<i32>),
    /// No collision-free destination name could be found within the search
    /// bound.
    NamingExhausted,
    /// No archive operand was given.
    MissingOperand(MissingOperand),
}

/// The mathematical image of an [`UnpackError`]: the same classification over
/// character sequences.
pub enum ErrorModel {
    Arg(Seq<char>),
    Format(Seq<char>),
    Io(Seq<char>),
    Child(Option<i32>),
    NamingExhausted,
    MissingOperand,
}

impl UnpackError {
    /// The model of this error value.
    pub open spec fn model(self) -> ErrorModel {
        match self {
            UnpackError::Arg(b) => ErrorModel::Arg(b.path@),
            UnpackError::Format(b) => ErrorModel::Format(b.path@),
            UnpackError::Io(m) => ErrorModel::Io(m@),
            UnpackError::Child(c) => ErrorModel::Child(c),
            UnpackError::NamingExhausted => ErrorModel::NamingExhausted,
            UnpackError::MissingOperand(_) => ErrorModel::MissingOperand,
        }
    }
}

} // verus!

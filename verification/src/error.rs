use vstd::prelude::*;
use vstd::string::*;

verus! {

/// The kinds of failure that reading, parsing or evaluating a program can
/// end in.
#[derive(Debug, Clone, Copy, PartialEq, Eq, Structural)]
pub enum ErrorKind {
    /// A malformed lexeme: a number out of range, a `$` without a name, text
    /// that is not UTF-8.
    Lexical,
    /// An unexpected token, or the end of input in the middle of a construct.
    Parse,
    /// A name that is not bound where it is read.
    Name,
    /// An operator or a built-in method applied to a value of the wrong kind.
    Type,
    /// A call with too few arguments, or a built-in method with the wrong
    /// number of them.
    Arity,
    /// An index, an insertion or a removal out of range.
    Bounds,
    /// An assignment to a target that cannot be assigned to, or a call of
    /// something that cannot be called.
    Unsupported,
}

/// A failure: its kind, and a message for the reader. The view of the error
/// is its kind. Where the message names what the failure is about (the token
/// that was not expected, the name that is not bound), a contract says so of
/// the message itself.
#[derive(Debug)]
pub struct Error {
    pub kind: ErrorKind,
    pub message: String,
}

impl View for Error {
    type V = ErrorKind;

    open spec fn view(&self) -> ErrorKind {
        self.kind
    }
}

impl Clone for Error {
    fn clone(&self) -> (r: Self)
        ensures
            r@ == self@,
            r.message@ == self.message@,
    {
        Error { kind: self.kind, message: self.message.clone() }
    }
}

impl Error {
    /// A failure of the given kind with the given message.
    pub fn new(kind: ErrorKind, message: &str) -> (e: Error)
        ensures
            e@ == kind,
            e.message@ == message@,
    {
        Error { kind, message: String::from_str(message) }
    }

    /// A failure whose message is a fixed text followed by a detail.
    pub fn with_detail(kind: ErrorKind, message: &str, detail: &str) -> (e: Error)
        ensures
            e@ == kind,
            e.message@ == message@ + detail@,
    {
        Error { kind, message: String::from_str(message).concat(detail) }
    }

    /// The message, for printing.
    pub fn to_string(&self) -> (s: String)
        ensures
            s@ == self.message@,
    {
        self.message.clone()
    }
}

} // verus!

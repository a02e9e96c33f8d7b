use vstd::prelude::*;

verus! {

/// Classifies a streaming failure: either the producer broke the call
/// protocol, or a consumer declined or failed a call of its own accord.
#[derive(Clone, Copy, PartialEq, Eq, Structural, Debug)]
pub enum ErrorKind {
    /// A call arrived in a nesting context that does not permit it.
    InvalidState,
    /// A begin call would nest deeper than the fixed maximum depth.
    DepthExceeded,
    /// The final end call arrived while frames were still open.
    UnterminatedStructure,
    /// A consumer's formatted fallback was reached and declined the value.
    Unsupported,
    /// A consumer- or producer-supplied failure.
    Custom,
}

/// A failure value carrying a classification, a message and an optional
/// nested cause. It is owned independently of producer and consumer
/// lifetimes.
#[derive(Debug)]
pub struct Error {
    kind: ErrorKind,
    message: &'static str,
    cause: Option<Box<Error>>,
}

impl Error {
    /// The classification of this failure.
    pub closed spec fn spec_kind(&self) -> ErrorKind {
        self.kind
    }

    /// The message carried by this failure.
    pub closed spec fn spec_message(&self) -> Seq<char> {
        self.message@
    }

    /// The wrapped lower-level failure, if any.
    pub closed spec fn spec_cause(&self) -> Option<Box<Error>> {
        self.cause
    }

    /// A consumer- or producer-defined failure with the given message.
    pub fn msg(message: &'static str) -> (e: Error)
        ensures
            e.spec_kind() == ErrorKind::Custom,
            e.spec_message() == message@,
            e.spec_cause() is None,
    {
        Error { kind: ErrorKind::Custom, message, cause: None }
    }

    /// A failure wrapping a lower-level one as its cause.
    pub fn caused_by(message: &'static str, cause: Error) -> (e: Error)
        ensures
            e.spec_kind() == ErrorKind::Custom,
            e.spec_message() == message@,
            e.spec_cause() == Some(Box::new(cause)),
    {
        Error { kind: ErrorKind::Custom, message, cause: Some(Box::new(cause)) }
    }

    pub(crate) fn invalid_state(message: &'static str) -> (e: Error)
        ensures
            e.spec_kind() == ErrorKind::InvalidState,
            e.spec_message() == message@,
            e.spec_cause() is None,
    {
        Error { kind: ErrorKind::InvalidState, message, cause: None }
    }

    pub(crate) fn depth_exceeded(message: &'static str) -> (e: Error)
        ensures
            e.spec_kind() == ErrorKind::DepthExceeded,
            e.spec_message() == message@,
            e.spec_cause() is None,
    {
        Error { kind: ErrorKind::DepthExceeded, message, cause: None }
    }

    pub(crate) fn unterminated(message: &'static str) -> (e: Error)
        ensures
            e.spec_kind() == ErrorKind::UnterminatedStructure,
            e.spec_message() == message@,
            e.spec_cause() is None,
    {
        Error { kind: ErrorKind::UnterminatedStructure, message, cause: None }
    }

    /// The failure a formatted fallback returns when it declines a value.
    pub fn unsupported(message: &'static str) -> (e: Error)
        ensures
            e.spec_kind() == ErrorKind::Unsupported,
            e.spec_message() == message@,
            e.spec_cause() is None,
    {
        Error { kind: ErrorKind::Unsupported, message, cause: None }
    }

    /// The classification of this failure.
    pub fn kind(&self) -> (k: ErrorKind)
        ensures
            k == self.spec_kind(),
    {
        self.kind
    }

    /// The message carried by this failure.
    pub fn message(&self) -> (m: &'static str)
        ensures
            m@ == self.spec_message(),
    {
        self.message
    }

    /// The wrapped lower-level failure, if any.
    pub fn cause(&self) -> (c: &Option<Box<Error>>)
        ensures
            *c == self.spec_cause(),
    {
        &self.cause
    }
}

} // verus!

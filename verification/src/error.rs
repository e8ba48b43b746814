//! The error type every fallible operation returns.
//!
//! An [`Error`] carries a kind, a human message, ordered context key/value
//! pairs, an optional wrapped source error, and a temporary/permanent flag.
//! It is never mutated after construction: enriching it as it propagates
//! means building a new value that wraps the old one, so no information is
//! ever dropped silently. Retry-capable layers use the flag to decide
//! eligibility; permanent errors must never be retried.

use vstd::prelude::*;

verus! {

/// The canonical error kinds of the storage layer.
#[derive(Clone, Copy, Debug, PartialEq, Eq, Structural)]
pub enum ErrorKind {
    /// The addressed object does not exist.
    ObjectNotFound,
    /// The backend configuration is malformed; permanent by nature.
    BackendConfigInvalid,
    /// The operation lies outside the backend's declared capability set.
    Unsupported,
    /// A request to an external service could not even be built.
    RequestBuildFailed,
    /// Catch-all for backend-internal faults.
    Unexpected,
}

/// A typed, immutable error value.
#[derive(Debug)]
pub struct Error {
    kind: ErrorKind,
    message: String,
    context: Vec<(String, String)>,
    source: Option<Box<Error>>,
    temporary: bool,
}

impl Error {
    /// The kind this error was constructed with.
    pub closed spec fn spec_kind(&self) -> ErrorKind {
        self.kind
    }

    /// The message this error was constructed with.
    pub closed spec fn spec_message(&self) -> Seq<char> {
        self.message@
    }

    /// The ordered context pairs attached so far.
    pub closed spec fn spec_context(&self) -> Seq<(Seq<char>, Seq<char>)> {
        self.context@.map_values(|p: (String, String)| (p.0@, p.1@))
    }

    /// Whether a wrapped source error is attached.
    pub closed spec fn spec_has_source(&self) -> bool {
        self.source is Some
    }

    /// Whether the error is transient.
    pub closed spec fn spec_is_temporary(&self) -> bool {
        self.temporary
    }

    /// Build a fresh error of the given kind. It starts with no context, no
    /// source, and is permanent.
    pub fn new(kind: ErrorKind, message: &str) -> (r: Error)
        ensures
            r.kind() == kind,
            r.spec_message() == message@,
            r.spec_context() =~= Seq::<(Seq<char>, Seq<char>)>::empty(),
            !r.spec_has_source(),
            !r.is_temporary(),
    {
        Error {
            kind,
            message: message.to_owned(),
            context: Vec::new(),
            source: None,
            temporary: false,
        }
    }

    #[verifier::when_used_as_spec(spec_kind)]
    pub fn kind(&self) -> (r: ErrorKind)
        ensures
            r == self.spec_kind(),
    {
        self.kind
    }

    #[verifier::when_used_as_spec(spec_is_temporary)]
    pub fn is_temporary(&self) -> (r: bool)
        ensures
            r == self.spec_is_temporary(),
    {
        self.temporary
    }

    /// Append one context key/value pair. The kind, message, source and flag
    /// are preserved; earlier context keeps its order.
    pub fn with_context(self, key: &str, value: &str) -> (r: Error)
        ensures
            r.kind() == self.kind(),
            r.spec_message() == self.spec_message(),
            r.spec_context() =~= self.spec_context().push((key@, value@)),
            r.spec_has_source() == self.spec_has_source(),
            r.is_temporary() == self.is_temporary(),
    {
        let mut context = self.context;
        context.push((key.to_owned(), value.to_owned()));
        let r = Error { kind: self.kind, message: self.message, context, source: self.source, temporary: self.temporary };
        proof {
            assert(r.spec_context() =~= self.spec_context().push((key@, value@)));
        }
        r
    }

    /// Wrap a source error; the kind, message, context and flag are kept.
    pub fn set_source(self, source: Error) -> (r: Error)
        ensures
            r.kind() == self.kind(),
            r.spec_message() == self.spec_message(),
            r.spec_context() == self.spec_context(),
            r.spec_has_source(),
            r.is_temporary() == self.is_temporary(),
    {
        Error { kind: self.kind, message: self.message, context: self.context, source: Some(Box::new(source)), temporary: self.temporary }
    }

    /// Mark the error transient: a retry-capable layer may retry it.
    pub fn set_temporary(self) -> (r: Error)
        ensures
            r.kind() == self.kind(),
            r.spec_message() == self.spec_message(),
            r.spec_context() == self.spec_context(),
            r.spec_has_source() == self.spec_has_source(),
            r.is_temporary(),
    {
        Error { kind: self.kind, message: self.message, context: self.context, source: self.source, temporary: true }
    }

    /// Mark the error permanent: it must never be retried.
    pub fn set_permanent(self) -> (r: Error)
        ensures
            r.kind() == self.kind(),
            r.spec_message() == self.spec_message(),
            r.spec_context() == self.spec_context(),
            r.spec_has_source() == self.spec_has_source(),
            !r.is_temporary(),
    {
        Error { kind: self.kind, message: self.message, context: self.context, source: self.source, temporary: false }
    }

    /// The message as an owned string, for callers that need to display it.
    pub fn message(&self) -> (r: String)
        ensures
            r@ == self.spec_message(),
    {
        self.message.clone()
    }

    /// How many context pairs have been attached.
    pub fn context_len(&self) -> (r: usize)
        ensures
            r == self.spec_context().len(),
    {
        self.context.len()
    }

    /// The context pair at the given position, in attachment order.
    pub fn context_at(&self, i: usize) -> (r: (String, String))
        requires
            i < self.spec_context().len(),
        ensures
            (r.0@, r.1@) == self.spec_context()[i as int],
    {
        let p = &self.context[i];
        (p.0.clone(), p.1.clone())
    }
}

} // verus!

//! The error answers of the orchestrator's HTTP API.
use vstd::prelude::*;

verus! {

/// The kinds of error answers.
#[derive(Clone, Copy, Debug, PartialEq, Eq, Structural)]
pub enum ApiErrorKind {
    /// 400
    BadRequest,
    /// 403
    Forbidden,
    /// 404
    NotFound,
    /// 500
    Internal,
    /// 503
    ServiceUnavailable,
}

/// An error answer: its kind and the messages given to it, in the order
/// they were given.
pub struct ApiFailure {
    pub kind: ApiErrorKind,
    pub messages: Vec<String>,
}

/// An error answer of a kind with the given messages.
pub open spec fn is_failure(f: ApiFailure, kind: ApiErrorKind, messages: Seq<Seq<char>>) -> bool {
    f.kind == kind && f.messages@.map_values(|m: String| m@) == messages
}

impl ApiFailure {
    /// An error answer of `kind` without a message.
    pub fn new(kind: ApiErrorKind) -> (f: ApiFailure)
        ensures
            is_failure(f, kind, Seq::empty()),
    {
        let f = ApiFailure { kind, messages: Vec::new() };
        assert(f.messages@.map_values(|m: String| m@) =~= Seq::<Seq<char>>::empty());
        f
    }

    /// An error answer of `kind` with one message.
    pub fn with_message(kind: ApiErrorKind, message: &str) -> (f: ApiFailure)
        ensures
            is_failure(f, kind, seq![message@]),
    {
        let mut messages: Vec<String> = Vec::new();
        messages.push(message.to_owned());
        let f = ApiFailure { kind, messages };
        assert(f.messages@.map_values(|m: String| m@) =~= seq![message@]);
        f
    }

    /// An error answer of `kind` with two messages.
    pub fn with_messages(kind: ApiErrorKind, first: &str, second: &str) -> (f: ApiFailure)
        ensures
            is_failure(f, kind, seq![first@, second@]),
    {
        let mut messages: Vec<String> = Vec::new();
        messages.push(first.to_owned());
        messages.push(second.to_owned());
        let f = ApiFailure { kind, messages };
        assert(f.messages@.map_values(|m: String| m@) =~= seq![first@, second@]);
        f
    }
}

/// The failure of a request that the orchestrator forwarded to a service:
/// its own error answer, or the service's error status with the error body
/// it sent.
pub enum ForwardFailure<B> {
    Api(ApiFailure),
    Remote { status: u16, body: B },
}

} // verus!

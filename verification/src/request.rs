//! The command and response shapes of the remote protocol.
//!
//! A request carries a tag, an optional ordered key list and an optional
//! value; a response carries a tag and an optional value. The well-formedness
//! predicate pins down which fields each tag must carry: a set needs exactly
//! one key and a value, a delete needs at least one key and no value, a get
//! needs at least one key.

use vstd::prelude::*;

verus! {

/// The tag of an inbound request.
#[derive(Clone, Copy, PartialEq, Eq, Structural, Debug)]
pub enum RequestType {
    Ping,
    Get,
    SetValue,
    Del,
    Exit,
    Illegal,
}

/// The tag of a response.
#[derive(Clone, Copy, PartialEq, Eq, Structural, Debug)]
pub enum ResponseType {
    Okay,
    Value,
}

/// One inbound command: a tag, the keys it addresses and the value it carries.
#[derive(Clone, Debug)]
pub struct RedisRequest {
    pub request_type: RequestType,
    pub key: Option<Vec<String>>,
    pub value: Option<String>,
}

/// One response: a tag and an optional value payload.
#[derive(Clone, Debug)]
pub struct RedisResponse {
    pub response_type: ResponseType,
    pub value: Option<String>,
}

/// Whether a tag names a command that mutates the store.
pub open spec fn is_mutating_type(t: RequestType) -> bool {
    t is SetValue || t is Del
}

impl RedisRequest {
    /// The keys the request addresses, as character sequences; empty when the
    /// key field is absent.
    pub open spec fn keys(self) -> Seq<Seq<char>> {
        match self.key {
            Some(ks) => ks.deep_view(),
            None => Seq::empty(),
        }
    }

    /// The carried value, as a character sequence.
    pub open spec fn value_view(self) -> Option<Seq<char>> {
        match self.value {
            Some(v) => Some(v@),
            None => None,
        }
    }

    /// Whether the request mutates the store.
    pub open spec fn is_mutating(self) -> bool {
        is_mutating_type(self.request_type)
    }

    /// The field shape each tag requires: violating it has no defined meaning.
    pub open spec fn wf(self) -> bool {
        match self.request_type {
            RequestType::SetValue => self.key is Some && self.keys().len() == 1 && self.value is Some,
            RequestType::Del => self.key is Some && self.keys().len() >= 1 && self.value is None,
            RequestType::Get => self.key is Some && self.keys().len() >= 1,
            _ => true,
        }
    }
}

impl RedisResponse {
    /// The carried value, as a character sequence.
    pub open spec fn value_view(self) -> Option<Seq<char>> {
        match self.value {
            Some(v) => Some(v@),
            None => None,
        }
    }
}

impl Default for RedisResponse {
    /// The empty response: an acknowledgement tag and no value. It answers
    /// commands that carry no payload and commands the engine does not know.
    fn default() -> (r: Self)
        ensures
            r.response_type == ResponseType::Okay,
            r.value is None,
    {
        RedisResponse { response_type: ResponseType::Okay, value: None }
    }
}

} // verus!

//! The decisions of one forwarded request, as a state machine.
//!
//! The host drives it: it performs each `Action` that `step` returns and
//! reports the outcome as the next `Event`. Every failure ends the request
//! with a bare 500 response.
use vstd::prelude::*;
use crate::fields::Fields;
use crate::forward::{
    Config, Inbound, OutboundRequest, build_outbound, is_v4_id, new_correlation_id, outbound_matches,
};

verus! {

/// The head of a response: status code and header fields.
#[derive(Clone, Debug, PartialEq, Eq)]
pub struct ResponseHead {
    pub status: u16,
    pub headers: Fields,
}

/// The response that stands for every failure: status 500, no headers.
pub open spec fn is_error_head(h: ResponseHead) -> bool {
    h.status == 500 && h.headers@.len() == 0
}

/// The response that stands for every failure: status 500, no headers and an
/// empty body.
pub fn internal_server_error() -> (r: ResponseHead)
    ensures
        is_error_head(r),
{
    ResponseHead { status: 500, headers: Fields::new() }
}

/// The settings that a request needs.
#[derive(Clone, Copy, Debug, PartialEq, Eq)]
pub enum ConfigKey {
    Origin,
    HeaderName,
}

impl ConfigKey {
    /// The name under which the setting is stored.
    pub fn as_str(&self) -> (r: &'static str)
        ensures
            self is Origin ==> r@ == "origin"@,
            self is HeaderName ==> r@ == "header_name"@,
    {
        match self {
            ConfigKey::Origin => "origin",
            ConfigKey::HeaderName => "header_name",
        }
    }
}

/// Where a request failed.
#[derive(Clone, Copy, Debug, PartialEq, Eq)]
pub enum Failure {
    /// A setting is missing or could not be read.
    Config,
    /// The upstream request could not be built.
    Construction,
    /// The upstream request could not be sent.
    Dispatch,
    /// No usable upstream response came back.
    Response,
    /// Copying a body, or finishing it, failed.
    Streaming,
}

/// How far a request has come.
#[derive(Clone, Debug, PartialEq, Eq)]
pub enum Stage {
    ResolveOrigin(Inbound),
    ResolveHeaderName(Inbound, String),
    /// The upstream request has been handed out; the flag tells whether its
    /// body follows.
    Dispatch(bool),
    RelayRequestBody,
    AwaitResponse,
    RelayResponse,
    Done,
    Failed(Failure),
}

/// What the host reports back after an action.
#[derive(Clone, Debug, PartialEq, Eq)]
pub enum Event {
    /// A setting was found, with this value.
    Found(String),
    /// A setting was not found.
    NotFound,
    /// The action completed.
    Completed,
    /// The upstream service answered with this head.
    Responded(ResponseHead),
    /// The action failed.
    Failed,
}

/// What the host is to do next.
#[derive(Clone, Debug, PartialEq, Eq)]
pub enum Action {
    /// Read a setting.
    LookUp(ConfigKey),
    /// Send this request upstream; open its body first if it has one.
    Dispatch(OutboundRequest),
    /// Copy the inbound body into the upstream request until its end, then
    /// finish the upstream body.
    RelayRequestBody,
    /// Wait for the upstream response.
    AwaitResponse,
    /// Start the response with this head, copy the upstream body into it
    /// until its end, then finish it.
    RelayResponse(ResponseHead),
    /// Hand the relayed response to the caller.
    Deliver,
    /// Hand this response, with an empty body, to the caller instead.
    Fallback(ResponseHead),
    /// Nothing is left to do.
    Halt,
}

/// The failure that an unexpected outcome at stage `s` stands for.
pub open spec fn failure_at(s: Stage) -> Failure {
    match s {
        Stage::ResolveOrigin(_) => Failure::Config,
        Stage::ResolveHeaderName(_, _) => Failure::Config,
        Stage::Dispatch(_) => Failure::Dispatch,
        Stage::AwaitResponse => Failure::Response,
        _ => Failure::Streaming,
    }
}

/// The request ends at failure `f` with the error response.
pub open spec fn fails_with(s2: Stage, a: Action, f: Failure) -> bool {
    s2 == Stage::Failed(f) && (a matches Action::Fallback(h) && is_error_head(h))
}

/// Event `e` at stage `s` leads to stage `s2` with action `a`.
pub open spec fn steps_to(s: Stage, e: Event, s2: Stage, a: Action) -> bool {
    match (s, e) {
        (Stage::Done, _) => s2 == s && a == Action::Halt,
        (Stage::Failed(_), _) => s2 == s && a == Action::Halt,
        (Stage::ResolveOrigin(inbound), Event::Found(origin)) => s2 == Stage::ResolveHeaderName(
            inbound,
            origin,
        ) && a == Action::LookUp(ConfigKey::HeaderName),
        (Stage::ResolveHeaderName(inbound, origin), Event::Found(name)) => {
            if inbound.path_with_query is None {
                fails_with(s2, a, Failure::Construction)
            } else {
                a matches Action::Dispatch(req) && s2 == Stage::Dispatch(req.has_body) && exists|
                    id: Seq<u8>,
                | is_v4_id(id) && outbound_matches(req, inbound, origin@, name@, id)
            }
        },
        (Stage::Dispatch(true), Event::Completed) => s2 == Stage::RelayRequestBody && a
            == Action::RelayRequestBody,
        (Stage::Dispatch(false), Event::Completed) => s2 == Stage::AwaitResponse && a
            == Action::AwaitResponse,
        (Stage::RelayRequestBody, Event::Completed) => s2 == Stage::AwaitResponse && a
            == Action::AwaitResponse,
        (Stage::AwaitResponse, Event::Responded(head)) => s2 == Stage::RelayResponse && a
            == Action::RelayResponse(head),
        (Stage::RelayResponse, Event::Completed) => s2 == Stage::Done && a == Action::Deliver,
        _ => fails_with(s2, a, failure_at(s)),
    }
}

/// One inbound request on its way through the proxy.
#[derive(Clone, Debug, PartialEq, Eq)]
pub struct Forwarding {
    pub stage: Stage,
}

impl Forwarding {
    /// Takes on `inbound`; the first thing needed is the upstream origin.
    pub fn start(inbound: Inbound) -> (r: (Forwarding, Action))
        ensures
            r.0.stage == Stage::ResolveOrigin(inbound),
            r.1 == Action::LookUp(ConfigKey::Origin),
    {
        (Forwarding { stage: Stage::ResolveOrigin(inbound) }, Action::LookUp(ConfigKey::Origin))
    }

    /// Whether the request has ended, relayed or failed.
    pub fn is_finished(&self) -> (r: bool)
        ensures
            r == (self.stage is Done || self.stage is Failed),
    {
        match self.stage {
            Stage::Done | Stage::Failed(_) => true,
            _ => false,
        }
    }

    /// Takes the outcome of the last action and decides the next one.
    pub fn step(self, event: Event) -> (r: (Forwarding, Action))
        ensures
            steps_to(self.stage, event, r.0.stage, r.1),
    {
        match (self.stage, event) {
            (Stage::Done, _) => (Forwarding { stage: Stage::Done }, Action::Halt),
            (Stage::Failed(f), _) => (Forwarding { stage: Stage::Failed(f) }, Action::Halt),
            (Stage::ResolveOrigin(inbound), Event::Found(origin)) => (
                Forwarding { stage: Stage::ResolveHeaderName(inbound, origin) },
                Action::LookUp(ConfigKey::HeaderName),
            ),
            (Stage::ResolveHeaderName(inbound, origin), Event::Found(name)) => {
                let config = Config { origin, header_name: name };
                let id = new_correlation_id();
                let ghost idv = id@;
                let ghost inb = inbound;
                match build_outbound(inbound, &config, id) {
                    Some(req) => {
                        assert(is_v4_id(idv) && outbound_matches(req, inb, config.origin@, config.header_name@, idv));
                        let body = req.has_body;
                        (Forwarding { stage: Stage::Dispatch(body) }, Action::Dispatch(req))
                    },
                    None => fail(Failure::Construction),
                }
            },
            (Stage::Dispatch(true), Event::Completed) => (
                Forwarding { stage: Stage::RelayRequestBody },
                Action::RelayRequestBody,
            ),
            (Stage::Dispatch(false), Event::Completed) => (
                Forwarding { stage: Stage::AwaitResponse },
                Action::AwaitResponse,
            ),
            (Stage::RelayRequestBody, Event::Completed) => (
                Forwarding { stage: Stage::AwaitResponse },
                Action::AwaitResponse,
            ),
            (Stage::AwaitResponse, Event::Responded(head)) => (
                Forwarding { stage: Stage::RelayResponse },
                Action::RelayResponse(head),
            ),
            (Stage::RelayResponse, Event::Completed) => (
                Forwarding { stage: Stage::Done },
                Action::Deliver,
            ),
            (Stage::ResolveOrigin(_), _) | (Stage::ResolveHeaderName(_, _), _) => fail(
                Failure::Config,
            ),
            (Stage::Dispatch(_), _) => fail(Failure::Dispatch),
            (Stage::AwaitResponse, _) => fail(Failure::Response),
            _ => fail(Failure::Streaming),
        }
    }
}

fn fail(f: Failure) -> (r: (Forwarding, Action))
    ensures
        fails_with(r.0.stage, r.1, f),
{
    (Forwarding { stage: Stage::Failed(f) }, Action::Fallback(internal_server_error()))
}

} // verus!

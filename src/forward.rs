//! Turning an inbound request into the request sent upstream.
use vstd::prelude::*;
use crate::body::{Method, body_expected, has_body};
use crate::fields::{
    Fields, lemma_set_keeps_others, lemma_set_keeps_rest, lemma_set_single_value, named, replaced, same_name, values_of,
    without,
};

verus! {

/// The scheme of a request URI.
#[derive(Clone, Copy, Debug, PartialEq, Eq)]
pub enum Scheme {
    Http,
    Https,
}

/// What the proxy reads of a request that arrives.
#[derive(Clone, Debug, PartialEq, Eq)]
pub struct Inbound {
    pub method: Method,
    pub path_with_query: Option<String>,
    pub headers: Fields,
}

/// The two settings that every forwarded request depends on.
#[derive(Clone, Debug, PartialEq, Eq)]
pub struct Config {
    /// Host, and port if any, of the upstream service.
    pub origin: String,
    /// Name of the header that carries the correlation identifier.
    pub header_name: String,
}

/// The request sent to the upstream service.
#[derive(Clone, Debug, PartialEq, Eq)]
pub struct OutboundRequest {
    pub method: Method,
    pub scheme: Scheme,
    pub authority: String,
    pub path_with_query: String,
    pub headers: Fields,
    /// Whether a body is to be streamed into the request after it is sent.
    pub has_body: bool,
}

/// The name of the header that declares a body's length.
pub open spec fn content_length_name() -> Seq<char> {
    "Content-Length"@
}

/// Lower-case hexadecimal digits.
pub open spec fn is_lower_hex(b: u8) -> bool {
    (48 <= b && b <= 57) || (97 <= b && b <= 102)
}

/// The hyphenated text of a random (version 4, RFC 4122 variant) UUID:
/// groups of 8, 4, 4, 4 and 12 lower-case hex digits joined by hyphens.
pub open spec fn is_v4_id(s: Seq<u8>) -> bool {
    &&& s.len() == 36
    &&& forall|i: int|
        0 <= i < 36 ==> if i == 8 || i == 13 || i == 18 || i == 23 {
            #[trigger] s[i] == 45u8
        } else {
            is_lower_hex(s[i])
        }
    &&& s[14] == 52u8
    &&& (s[19] == 56u8 || s[19] == 57u8 || s[19] == 97u8 || s[19] == 98u8)
}

/// Relies on uuid's `Uuid::new_v4` for a random version 4 UUID, and on its
/// `Display`, which writes the lower-case hyphenated form.
#[verifier::external_body]
pub(crate) fn new_correlation_id() -> (r: Vec<u8>)
    ensures
        is_v4_id(r@),
{
    uuid::Uuid::new_v4().to_string().into_bytes()
}

/// `req` is what the proxy sends upstream for `inbound`, with the settings
/// `origin` and `header_name` and correlation identifier `id`.
pub open spec fn outbound_matches(
    req: OutboundRequest,
    inbound: Inbound,
    origin: Seq<char>,
    header_name: Seq<char>,
    id: Seq<u8>,
) -> bool {
    &&& req.method == inbound.method
    &&& req.scheme == Scheme::Https
    &&& req.authority@ == origin
    &&& (inbound.path_with_query matches Some(p) && req.path_with_query@ == p@)
    &&& req.headers@ == replaced(inbound.headers@, header_name, seq![id])
    &&& req.has_body == body_expected(
        inbound.method,
        values_of(inbound.headers@, content_length_name()),
    )
}

/// Builds the upstream request: the inbound method, path and query, sent over
/// HTTPS to `origin`, with the inbound headers and `correlation_id` as the
/// one value under the configured header name. Fails only when the inbound
/// request has no path.
pub fn build_outbound(inbound: Inbound, config: &Config, correlation_id: Vec<u8>) -> (r: Option<
    OutboundRequest,
>)
    ensures
        r is None <==> inbound.path_with_query is None,
        r matches Some(req) ==> outbound_matches(
            req,
            inbound,
            config.origin@,
            config.header_name@,
            correlation_id@,
        ),
{
    let Inbound { method, path_with_query, headers } = inbound;
    let path = match path_with_query {
        Some(p) => p,
        None => {
            return None;
        },
    };
    let lengths = headers.get("Content-Length");
    let body = has_body(&method, &lengths);
    let mut headers = headers;
    let ghost id = correlation_id@;
    let mut values: Vec<Vec<u8>> = Vec::new();
    values.push(correlation_id);
    assert(crate::fields::bytes_view(values@) =~= seq![id]);
    headers.set(&config.header_name, values);
    Some(
        OutboundRequest {
            method,
            scheme: Scheme::Https,
            authority: config.origin.clone(),
            path_with_query: path,
            headers,
            has_body: body,
        },
    )
}

/// The upstream request carries the correlation header exactly once, with
/// the identifier as its value, whatever the inbound request held under
/// that name.
pub proof fn lemma_correlation_header_once(
    req: OutboundRequest,
    inbound: Inbound,
    origin: Seq<char>,
    header_name: Seq<char>,
    id: Seq<u8>,
)
    requires
        outbound_matches(req, inbound, origin, header_name, id),
    ensures
        req.headers@.filter(named(header_name)) == seq![(header_name, id)],
        values_of(req.headers@, header_name) == seq![id],
{
    lemma_set_single_value(inbound.headers@, header_name, id);
}

/// Every inbound header under another name reaches the upstream request
/// unchanged: the same values, in the same order.
pub proof fn lemma_other_headers_forwarded(
    req: OutboundRequest,
    inbound: Inbound,
    origin: Seq<char>,
    header_name: Seq<char>,
    id: Seq<u8>,
    other: Seq<char>,
)
    requires
        outbound_matches(req, inbound, origin, header_name, id),
        !same_name(other, header_name),
    ensures
        values_of(req.headers@, other) == values_of(inbound.headers@, other),
        without(req.headers@, header_name) == without(inbound.headers@, header_name),
{
    lemma_set_keeps_others(inbound.headers@, header_name, seq![id], other);
    lemma_set_keeps_rest(inbound.headers@, header_name, seq![id]);
}

/// Two upstream requests built from the same inbound request and settings
/// differ at most in the correlation identifier: method, target, body and
/// every other header agree.
pub proof fn lemma_same_request_same_shape(
    r1: OutboundRequest,
    r2: OutboundRequest,
    inbound: Inbound,
    origin: Seq<char>,
    header_name: Seq<char>,
    id1: Seq<u8>,
    id2: Seq<u8>,
)
    requires
        outbound_matches(r1, inbound, origin, header_name, id1),
        outbound_matches(r2, inbound, origin, header_name, id2),
    ensures
        r1.method == r2.method,
        r1.scheme == r2.scheme,
        r1.authority@ == r2.authority@,
        r1.path_with_query@ == r2.path_with_query@,
        r1.has_body == r2.has_body,
        without(r1.headers@, header_name) == without(r2.headers@, header_name),
        r1.headers@.len() == r2.headers@.len(),
        values_of(r1.headers@, header_name) == seq![id1],
        values_of(r2.headers@, header_name) == seq![id2],
{
    lemma_set_keeps_rest(inbound.headers@, header_name, seq![id1]);
    lemma_set_keeps_rest(inbound.headers@, header_name, seq![id2]);
    lemma_set_single_value(inbound.headers@, header_name, id1);
    lemma_set_single_value(inbound.headers@, header_name, id2);
}

} // verus!

//! When a forwarded request carries a body.
//!
//! A body is forwarded only for the methods that carry a payload, and only
//! when some `Content-Length` value declares a positive length.
use vstd::prelude::*;
use crate::fields::bytes_view;

verus! {

/// The request methods of HTTP.
#[derive(Clone, Debug, PartialEq, Eq)]
pub enum Method {
    Get,
    Head,
    Post,
    Put,
    Delete,
    Connect,
    Options,
    Trace,
    Patch,
    Other(String),
}

/// The methods whose requests carry a payload.
pub open spec fn carries_payload(m: Method) -> bool {
    m is Post || m is Put || m is Patch
}

pub open spec fn is_digit(b: u8) -> bool {
    48 <= b && b <= 57
}

/// The number that a run of decimal digits writes.
pub open spec fn decimal(s: Seq<u8>) -> nat
    decreases s.len(),
{
    if s.len() == 0 {
        0
    } else {
        decimal(s.drop_last()) * 10 + (s.last() - 48) as nat
    }
}

/// The digits of a length, after an optional leading `+`.
pub open spec fn digits_part(v: Seq<u8>) -> Seq<u8> {
    if v.len() > 0 && v[0] == 43u8 {
        v.drop_first()
    } else {
        v
    }
}

/// The length that a `Content-Length` value declares: one or more decimal
/// digits after an optional `+`, whose number fits in 64 bits. Anything else
/// declares none.
pub open spec fn length_value(v: Seq<u8>) -> Option<nat> {
    let d = digits_part(v);
    if d.len() > 0 && (forall|i: int| 0 <= i < d.len() ==> is_digit(#[trigger] d[i])) && decimal(d)
        <= u64::MAX {
        Some(decimal(d))
    } else {
        None
    }
}

pub open spec fn declares_positive_length(v: Seq<u8>) -> bool {
    match length_value(v) {
        Some(n) => n > 0,
        None => false,
    }
}

/// Whether a request with method `m` and these `Content-Length` values has a
/// body to forward.
pub open spec fn body_expected(m: Method, lengths: Seq<Seq<u8>>) -> bool {
    carries_payload(m) && exists|i: int| 0 <= i < lengths.len() && declares_positive_length(
        #[trigger] lengths[i],
    )
}

proof fn lemma_decimal_prefix(s: Seq<u8>, k: int)
    requires
        0 <= k <= s.len(),
        forall|i: int| 0 <= i < s.len() ==> is_digit(#[trigger] s[i]),
    ensures
        decimal(s.take(k)) <= decimal(s),
    decreases s.len(),
{
    if k == s.len() {
        assert(s.take(k) =~= s);
    } else {
        let t = s.drop_last();
        assert(t.take(k) =~= s.take(k));
        lemma_decimal_prefix(t, k);
    }
}

/// Reads a `Content-Length` value as a length.
pub fn parse_content_length(v: &[u8]) -> (r: Option<u64>)
    ensures
        length_value(v@) == (match r {
            Some(n) => Some(n as nat),
            None => None::<nat>,
        }),
{
    let ghost d = digits_part(v@);
    let mut start: usize = 0;
    if v.len() > 0 && v[0] == 43u8 {
        start = 1;
    }
    assert(d =~= v@.subrange(start as int, v@.len() as int));
    if start == v.len() {
        return None;
    }
    let mut acc: u64 = 0;
    let mut i: usize = start;
    while i < v.len()
        invariant
            start <= i <= v@.len(),
            d == digits_part(v@),
            d =~= v@.subrange(start as int, v@.len() as int),
            forall|j: int| 0 <= j < i - start ==> is_digit(#[trigger] d[j]),
            acc == decimal(d.take(i - start)),
        decreases v@.len() - i,
    {
        let b = v[i];
        if b < 48u8 || b > 57u8 {
            assert(!is_digit(d[i - start]));
            return None;
        }
        let ghost k = i - start;
        assert(d.take(k + 1).drop_last() =~= d.take(k));
        let next = match acc.checked_mul(10) {
            Some(m) => m.checked_add((b - 48u8) as u64),
            None => None,
        };
        match next {
            Some(n) => {
                acc = n;
            },
            None => {
                assert(decimal(d.take(k + 1)) > u64::MAX);
                proof {
                    if forall|j: int| 0 <= j < d.len() ==> is_digit(#[trigger] d[j]) {
                        lemma_decimal_prefix(d, k + 1);
                    }
                }
                return None;
            },
        }
        i = i + 1;
    }
    assert(d.take(d.len() as int) =~= d);
    Some(acc)
}

/// Whether a request with this method and these `Content-Length` values has a
/// body to forward: only POST, PUT and PATCH carry one, and only when at least
/// one value declares a positive length. Values that declare no length are
/// passed over.
pub fn has_body(method: &Method, content_length: &Vec<Vec<u8>>) -> (r: bool)
    ensures
        r == body_expected(*method, bytes_view(content_length@)),
{
    let lengths = Ghost(bytes_view(content_length@));
    match method {
        Method::Post | Method::Put | Method::Patch => {},
        _ => {
            return false;
        },
    }
    let mut i: usize = 0;
    while i < content_length.len()
        invariant
            i <= content_length@.len(),
            lengths@ == bytes_view(content_length@),
            carries_payload(*method),
            forall|j: int| 0 <= j < i ==> !declares_positive_length(#[trigger] lengths@[j]),
        decreases content_length@.len() - i,
    {
        let found = match parse_content_length(content_length[i].as_slice()) {
            Some(n) => n > 0,
            None => false,
        };
        if found {
            assert(declares_positive_length(lengths@[i as int]));
            return true;
        }
        i = i + 1;
    }
    false
}

} // verus!

//! Rewriting of a forwarded request into origin form, and relaying of the
//! origin's answer.
use crate::auth::copy_range;
use crate::dispatch::{Refusal, UpstreamError};
use vstd::prelude::*;

verus! {

/// One header line: its name and its raw value.
pub struct Header {
    pub name: Vec<u8>,
    pub value: Vec<u8>,
}

impl View for Header {
    type V = (Seq<u8>, Seq<u8>);

    open spec fn view(&self) -> (Seq<u8>, Seq<u8>) {
        (self.name@, self.value@)
    }
}

pub open spec fn headers_view(hs: Seq<Header>) -> Seq<(Seq<u8>, Seq<u8>)> {
    Seq::new(hs.len(), |i: int| hs[i]@)
}

pub open spec fn ascii_lower(c: u8) -> u8 {
    if 65 <= c <= 90 {
        (c + 32) as u8
    } else {
        c
    }
}

/// ASCII case-insensitive equality of `a` with the lower-case name `lower`.
pub open spec fn names_match(a: Seq<u8>, lower: Seq<u8>) -> bool {
    a.len() == lower.len() && forall|i: int| 0 <= i < a.len() ==> ascii_lower(#[trigger] a[i]) == lower[i]
}

/// `proxy-authorization`.
pub open spec fn proxy_authorization_name() -> Seq<u8> {
    seq![
        112u8, 114u8, 111u8, 120u8, 121u8, 45u8, 97u8, 117u8, 116u8, 104u8, 111u8, 114u8, 105u8,
        122u8, 97u8, 116u8, 105u8, 111u8, 110u8,
    ]
}

/// `proxy-connection`.
pub open spec fn proxy_connection_name() -> Seq<u8> {
    seq![
        112u8, 114u8, 111u8, 120u8, 121u8, 45u8, 99u8, 111u8, 110u8, 110u8, 101u8, 99u8, 116u8,
        105u8, 111u8, 110u8,
    ]
}

/// Headers meant for the proxy itself, which are never passed on.
pub open spec fn is_proxy_header(name: Seq<u8>) -> bool {
    names_match(name, proxy_authorization_name()) || names_match(name, proxy_connection_name())
}

/// The headers passed to the origin: all but the proxy's own, in order.
pub open spec fn passed_on(hs: Seq<(Seq<u8>, Seq<u8>)>) -> Seq<(Seq<u8>, Seq<u8>)>
    decreases hs.len(),
{
    if hs.len() == 0 {
        seq![]
    } else if is_proxy_header(hs.last().0) {
        passed_on(hs.drop_last())
    } else {
        passed_on(hs.drop_last()).push(hs.last())
    }
}

fn matches_lower(a: &[u8], lower: &[u8]) -> (r: bool)
    ensures
        r == names_match(a@, lower@),
{
    if a.len() != lower.len() {
        return false;
    }
    let mut i: usize = 0;
    while i < a.len()
        invariant
            a@.len() == lower@.len(),
            i <= a@.len(),
            forall|j: int| 0 <= j < i ==> ascii_lower(#[trigger] a@[j]) == lower@[j],
        decreases a@.len() - i,
    {
        let c = a[i];
        let l = if 65 <= c && c <= 90 {
            c + 32
        } else {
            c
        };
        if l != lower[i] {
            assert(ascii_lower(a@[i as int]) != lower@[i as int]);
            return false;
        }
        i = i + 1;
    }
    true
}

/// Whether a header is addressed to the proxy (`Proxy-Authorization`,
/// `Proxy-Connection`, in any case).
pub fn is_proxy_header_name(name: &[u8]) -> (r: bool)
    ensures
        r == is_proxy_header(name@),
{
    let auth: [u8; 19] = [
        112, 114, 111, 120, 121, 45, 97, 117, 116, 104, 111, 114, 105, 122, 97, 116, 105, 111, 110,
    ];
    let conn: [u8; 16] = [112, 114, 111, 120, 121, 45, 99, 111, 110, 110, 101, 99, 116, 105, 111, 110];
    assert(auth@ =~= proxy_authorization_name());
    assert(conn@ =~= proxy_connection_name());
    matches_lower(name, &auth) || matches_lower(name, &conn)
}

/// The request's headers without the proxy's own, order kept.
pub fn forwarded_headers(headers: &[Header]) -> (r: Vec<Header>)
    ensures
        headers_view(r@) == passed_on(headers_view(headers@)),
{
    let mut out: Vec<Header> = Vec::new();
    let mut i: usize = 0;
    while i < headers.len()
        invariant
            i <= headers@.len(),
            headers_view(out@) == passed_on(headers_view(headers@.subrange(0, i as int))),
        decreases headers@.len() - i,
    {
        let h = &headers[i];
        let ghost before = headers_view(headers@.subrange(0, i as int));
        let ghost after = headers_view(headers@.subrange(0, i + 1));
        assert(after.drop_last() =~= before);
        assert(after.last() == h@);
        if !is_proxy_header_name(h.name.as_slice()) {
            let name = copy_range(h.name.as_slice(), 0, h.name.len());
            let value = copy_range(h.value.as_slice(), 0, h.value.len());
            assert(h.name@.subrange(0, h.name@.len() as int) =~= h.name@);
            assert(h.value@.subrange(0, h.value@.len() as int) =~= h.value@);
            let ghost prev = headers_view(out@);
            out.push(Header { name, value });
            assert(headers_view(out@) =~= prev.push(h@));
        }
        i = i + 1;
    }
    assert(headers@.subrange(0, i as int) =~= headers@);
    out
}

/// The origin-form target: the path and query of the absolute URI, or `/`
/// when it has none.
pub open spec fn origin_target(path_and_query: Option<Seq<u8>>) -> Seq<u8> {
    match path_and_query {
        Some(pq) => if pq.len() > 0 {
            pq
        } else {
            seq![47u8]
        },
        None => seq![47u8],
    }
}

/// See [`origin_target`].
pub fn origin_form(path_and_query: Option<&[u8]>) -> (r: Vec<u8>)
    ensures
        r@ == origin_target(
            match path_and_query {
                Some(p) => Some(p@),
                None => None,
            },
        ),
{
    match path_and_query {
        Some(pq) => if pq.len() > 0 {
            copy_range(pq, 0, pq.len())
        } else {
            let r: Vec<u8> = vec![47];
            assert(r@ =~= seq![47u8]);
            r
        },
        None => {
            let r: Vec<u8> = vec![47];
            assert(r@ =~= seq![47u8]);
            r
        },
    }
}

/// A request as sent to the origin over a fresh connection.
pub struct OutgoingRequest {
    /// Origin-form request target.
    pub target: Vec<u8>,
    pub headers: Vec<Header>,
}

/// Rewrites a forwarded request for the origin: origin-form target, proxy
/// headers removed, every other header kept in order. Method, version and
/// body go unchanged.
pub fn rewrite_request(path_and_query: Option<&[u8]>, headers: &[Header]) -> (r: OutgoingRequest)
    ensures
        r.target@ == origin_target(
            match path_and_query {
                Some(p) => Some(p@),
                None => None,
            },
        ),
        headers_view(r.headers@) == passed_on(headers_view(headers@)),
{
    OutgoingRequest { target: origin_form(path_and_query), headers: forwarded_headers(headers) }
}

/// The origin's answer, as read in full.
pub struct OriginResponse {
    pub status: u16,
    pub headers: Vec<Header>,
    pub body: Vec<u8>,
}

/// The answer to the client: the origin's status and body unchanged, and
/// its headers in order minus any addressed to a proxy; or a refusal for a
/// failed exchange.
pub fn origin_reply(exchange: Result<OriginResponse, UpstreamError>) -> (r: Result<
    OriginResponse,
    Refusal,
>)
    ensures
        match exchange {
            Ok(resp) => r matches Ok(out) && out.status == resp.status && headers_view(out.headers@)
                == passed_on(headers_view(resp.headers@)) && out.body@ == resp.body@,
            Err(e) => r == Err::<OriginResponse, Refusal>(Refusal::Upstream(e)),
        },
{
    match exchange {
        Ok(resp) => {
            let headers = forwarded_headers(resp.headers.as_slice());
            Ok(OriginResponse { status: resp.status, headers, body: resp.body })
        },
        Err(e) => Err(Refusal::Upstream(e)),
    }
}

/// Rewriting drops exactly the proxy's own headers: a header reaches the
/// origin if and only if the client sent it and it is not addressed to the
/// proxy. The same holds of the origin's headers on their way back to the
/// client (see [`origin_reply`]).
pub proof fn lemma_forwarding_transparent(
    hs: Seq<(Seq<u8>, Seq<u8>)>,
    h: (Seq<u8>, Seq<u8>),
)
    ensures
        passed_on(hs).contains(h) <==> (hs.contains(h) && !is_proxy_header(h.0)),
    decreases hs.len(),
{
    if hs.len() > 0 {
        let t = hs.drop_last();
        let x = hs.last();
        lemma_forwarding_transparent(t, h);
        if passed_on(hs).contains(h) {
            let k = choose|k: int| 0 <= k < passed_on(hs).len() && passed_on(hs)[k] == h;
            if !is_proxy_header(x.0) && k == passed_on(t).len() {
                assert(hs[hs.len() - 1] == h);
            } else {
                assert(passed_on(t)[k] == h);
                let m = choose|m: int| 0 <= m < t.len() && t[m] == h;
                assert(hs[m] == h);
            }
        }
        if hs.contains(h) && !is_proxy_header(h.0) {
            let k = choose|k: int| 0 <= k < hs.len() && hs[k] == h;
            if k == hs.len() - 1 {
                assert(passed_on(hs)[passed_on(hs).len() - 1] == h);
            } else {
                assert(t[k] == h);
                assert(passed_on(t).contains(h));
                let m = choose|m: int| 0 <= m < passed_on(t).len() && passed_on(t)[m] == h;
                assert(passed_on(hs)[m] == h);
            }
        }
    }
}

} // verus!

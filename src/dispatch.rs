//! Per-request decisions of the proxy: which path a request takes, whether
//! it is admitted, how a forwarded request is rewritten, and which status a
//! failure maps to.
//!
//! A request runs through these steps, the caller doing the I/O between
//! them: [`admission`] (credential and port, before any name resolution), name
//! resolution, [`resolved`] (address policy), dialling, [`dialled`], then
//! either the tunnel relay or [`rewrite_request`] and [`origin_reply`].
use crate::auth::{auth_message, auth_verdict, validate_proxy_auth, AuthError};
use crate::filter::{check_port, filter_message, resolution_verdict, select_address, FilterError, IpAddress, SocketAddress};
use vstd::prelude::*;
use vstd::utf8::encode_utf8;

verus! {

/// The two shapes of request a proxy serves.
#[derive(Debug, Clone, Copy, PartialEq, Eq, Structural)]
pub enum RequestKind {
    /// `CONNECT host:port`: an opaque byte tunnel.
    Tunnel,
    /// Any other method with an absolute URI: a relayed request/response.
    Forward,
}

/// The method name `CONNECT`.
pub open spec fn connect_method() -> Seq<u8> {
    seq![67u8, 79u8, 78u8, 78u8, 69u8, 67u8, 84u8]
}

/// `CONNECT` tunnels; every other method is forwarded.
pub fn request_kind(method: &[u8]) -> (r: RequestKind)
    ensures
        r == (if method@ == connect_method() {
            RequestKind::Tunnel
        } else {
            RequestKind::Forward
        }),
{
    let connect: [u8; 7] = [67, 79, 78, 78, 69, 67, 84];
    assert(connect@ =~= connect_method());
    if bytes_equal(method, &connect) {
        RequestKind::Tunnel
    } else {
        RequestKind::Forward
    }
}

fn bytes_equal(a: &[u8], b: &[u8]) -> (r: bool)
    ensures
        r == (a@ == b@),
{
    if a.len() != b.len() {
        return false;
    }
    let mut i: usize = 0;
    while i < a.len()
        invariant
            a@.len() == b@.len(),
            i <= a@.len(),
            forall|j: int| 0 <= j < i ==> a@[j] == b@[j],
        decreases a@.len() - i,
    {
        if a[i] != b[i] {
            return false;
        }
        i = i + 1;
    }
    assert(a@ =~= b@);
    true
}

/// Failure to open the outbound connection.
#[derive(Debug, Clone, Copy, PartialEq, Eq, Structural)]
pub enum DialError {
    Timeout,
    ConnectionRefused,
    Other,
}

/// Failure of the exchange with the origin after the dial.
#[derive(Debug, Clone, Copy, PartialEq, Eq, Structural)]
pub enum UpstreamError {
    HandshakeFailed,
    SendFailed,
    /// The origin's response body could not be read.
    BodyReadFailed,
}

/// Why a request is answered by the proxy itself instead of being relayed.
#[derive(Debug, Clone, Copy, PartialEq, Eq, Structural)]
pub enum Refusal {
    Auth(AuthError),
    /// The request URI names no host (or a tunnel names no port).
    MissingHost,
    Filter(FilterError),
    Dial(DialError),
    Upstream(UpstreamError),
    /// The client's request body could not be read.
    RequestBodyUnreadable,
}

pub open spec fn refusal_status(r: Refusal) -> u16 {
    match r {
        Refusal::Auth(_) => 407,
        Refusal::MissingHost => 400,
        Refusal::Filter(_) => 403,
        Refusal::Dial(_) => 502,
        Refusal::Upstream(_) => 502,
        Refusal::RequestBodyUnreadable => 502,
    }
}

/// The `X-Error` text of each refusal.
pub open spec fn refusal_message(r: Refusal) -> Seq<char> {
    match r {
        Refusal::Auth(e) => auth_message(e),
        Refusal::MissingHost => "missing host in URI"@,
        Refusal::Filter(e) => filter_message(e),
        Refusal::Dial(DialError::Timeout) => "connection timed out"@,
        Refusal::Dial(DialError::ConnectionRefused) => "connection refused"@,
        Refusal::Dial(DialError::Other) => "connection failed"@,
        Refusal::Upstream(UpstreamError::HandshakeFailed) => "handshake failed"@,
        Refusal::Upstream(UpstreamError::SendFailed) => "upstream request failed"@,
        Refusal::Upstream(UpstreamError::BodyReadFailed) => "failed to read response body"@,
        Refusal::RequestBodyUnreadable => "failed to read request body"@,
    }
}

impl Refusal {
    /// The status of the proxy's own answer.
    pub fn status(&self) -> (r: u16)
        ensures
            r == refusal_status(*self),
    {
        match self {
            Refusal::Auth(_) => 407,
            Refusal::MissingHost => 400,
            Refusal::Filter(_) => 403,
            Refusal::Dial(_) => 502,
            Refusal::Upstream(_) => 502,
            Refusal::RequestBodyUnreadable => 502,
        }
    }

    /// Whether the answer carries a `Proxy-Authenticate` challenge.
    pub fn challenges(&self) -> (r: bool)
        ensures
            r == (*self is Auth),
    {
        match self {
            Refusal::Auth(_) => true,
            _ => false,
        }
    }

    /// The one-line diagnostic for the `X-Error` header; it names no
    /// internal address or configuration.
    pub fn message(&self) -> (r: &'static str)
        ensures
            r@ == refusal_message(*self),
    {
        match self {
            Refusal::Auth(e) => e.message(),
            Refusal::MissingHost => "missing host in URI",
            Refusal::Filter(e) => e.message(),
            Refusal::Dial(DialError::Timeout) => "connection timed out",
            Refusal::Dial(DialError::ConnectionRefused) => "connection refused",
            Refusal::Dial(DialError::Other) => "connection failed",
            Refusal::Upstream(UpstreamError::HandshakeFailed) => "handshake failed",
            Refusal::Upstream(UpstreamError::SendFailed) => "upstream request failed",
            Refusal::Upstream(UpstreamError::BodyReadFailed) => "failed to read response body",
            Refusal::RequestBodyUnreadable => "failed to read request body",
        }
    }
}

/// What the proxy knows of a request before admitting it.
pub struct RequestHead {
    pub kind: RequestKind,
    /// Host of the absolute URI, or of the `CONNECT` authority.
    pub host: Option<String>,
    /// Explicit port of the URI or authority.
    pub port: Option<u16>,
    /// Value of the `Proxy-Authorization` header, if present and text.
    pub proxy_authorization: Option<String>,
}

/// Settings that every request is checked against.
pub struct Policy {
    /// The shared HMAC key.
    pub secret: Vec<u8>,
    /// This node's identity, as assigned at registration.
    pub node_id: String,
    pub allowed_ports: Vec<u16>,
    /// Allowed clock skew of a credential, in seconds.
    pub tolerance: u64,
}

/// The outcome of admission.
#[derive(Debug, Clone, Copy, PartialEq, Eq, Structural)]
pub enum Admission {
    /// Answer with this refusal; nothing is resolved or dialled.
    Refuse(Refusal),
    /// Resolve the request's host, then dial this port.
    Resolve(u16),
}

/// Port a request is aimed at: the explicit one, else 80 for a forwarded
/// request; a tunnel must name its port.
pub open spec fn target_port(kind: RequestKind, port: Option<u16>) -> Option<u16> {
    match port {
        Some(p) => Some(p),
        None => if kind == RequestKind::Forward {
            Some(80u16)
        } else {
            None
        },
    }
}

pub open spec fn header_bytes(h: Option<String>) -> Option<Seq<u8>> {
    match h {
        Some(s) => Some(encode_utf8(s@)),
        None => None,
    }
}

/// Admission: credential first, then presence of a target, then the port
/// allow-list.
pub open spec fn admission_verdict(req: RequestHead, policy: Policy, now: u64) -> Admission {
    match auth_verdict(
        header_bytes(req.proxy_authorization),
        policy.secret@,
        encode_utf8(policy.node_id@),
        now,
        policy.tolerance,
    ) {
        Err(e) => Admission::Refuse(Refusal::Auth(e)),
        Ok(()) => match (req.host, target_port(req.kind, req.port)) {
            (Some(_), Some(p)) => if policy.allowed_ports@.contains(p) {
                Admission::Resolve(p)
            } else {
                Admission::Refuse(Refusal::Filter(FilterError::PortNotAllowed))
            },
            _ => Admission::Refuse(Refusal::MissingHost),
        },
    }
}

/// Decides whether a request may go on to name resolution, given the time
/// `now` in seconds.
pub fn admission(req: &RequestHead, policy: &Policy, now: u64) -> (r: Admission)
    ensures
        r == admission_verdict(*req, *policy, now),
{
    let header = match &req.proxy_authorization {
        Some(h) => Some(h.as_str()),
        None => None,
    };
    if let Err(e) = validate_proxy_auth(
        header,
        policy.secret.as_slice(),
        policy.node_id.as_str(),
        now,
        policy.tolerance,
    ) {
        return Admission::Refuse(Refusal::Auth(e));
    }
    if req.host.is_none() {
        return Admission::Refuse(Refusal::MissingHost);
    }
    let port = match req.port {
        Some(p) => p,
        None => match req.kind {
            RequestKind::Forward => 80,
            RequestKind::Tunnel => return Admission::Refuse(Refusal::MissingHost),
        },
    };
    match check_port(port, policy.allowed_ports.as_slice()) {
        Ok(()) => Admission::Resolve(port),
        Err(e) => Admission::Refuse(Refusal::Filter(e)),
    }
}

/// Applies the address policy to what the host resolved to.
pub fn resolved(addresses: &[IpAddress], port: u16) -> (r: Result<SocketAddress, Refusal>)
    ensures
        r == (match resolution_verdict(addresses@, port) {
            Ok(a) => Ok(a),
            Err(e) => Err(Refusal::Filter(e)),
        }),
{
    match select_address(addresses, port) {
        Ok(a) => Ok(a),
        Err(e) => Err(Refusal::Filter(e)),
    }
}

/// The status a tunnel answers once its dial has been tried: 200, after
/// which the connection carries raw bytes, or the refusal.
pub fn dialled(outcome: Result<(), DialError>) -> (r: Result<u16, Refusal>)
    ensures
        r == (match outcome {
            Ok(()) => Ok::<u16, Refusal>(200u16),
            Err(e) => Err(Refusal::Dial(e)),
        }),
{
    match outcome {
        Ok(()) => Ok(200),
        Err(e) => Err(Refusal::Dial(e)),
    }
}

/// A request without a credential header is refused with the
/// authentication-required status and never reaches resolution or dialling.
pub proof fn lemma_no_credential_no_dial(req: RequestHead, policy: Policy, now: u64)
    requires
        req.proxy_authorization is None,
    ensures
        admission_verdict(req, policy, now) == Admission::Refuse(Refusal::Auth(AuthError::Missing)),
        refusal_status(Refusal::Auth(AuthError::Missing)) == 407,
{
}

/// A request whose target port is outside the allow-list never reaches
/// name resolution; when its credential is accepted and it names a host, it
/// is refused with `PortNotAllowed` (status 403).
pub proof fn lemma_disallowed_port_not_resolved(req: RequestHead, policy: Policy, now: u64, p: u16)
    requires
        target_port(req.kind, req.port) == Some(p),
        !policy.allowed_ports@.contains(p),
    ensures
        admission_verdict(req, policy, now) is Refuse,
        auth_verdict(
            header_bytes(req.proxy_authorization),
            policy.secret@,
            encode_utf8(policy.node_id@),
            now,
            policy.tolerance,
        ) is Ok && req.host is Some ==> admission_verdict(req, policy, now) == Admission::Refuse(
            Refusal::Filter(FilterError::PortNotAllowed),
        ),
        refusal_status(Refusal::Filter(FilterError::PortNotAllowed)) == 403,
{
}

} // verus!

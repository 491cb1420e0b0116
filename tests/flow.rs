use aether_proxy::auth::AuthError;
use aether_proxy::dispatch::{
    admission, dialled, request_kind, resolved, Admission, DialError, Policy, Refusal, RequestHead,
    RequestKind, UpstreamError,
};
use aether_proxy::filter::{
    check_port, default_allowed_ports, is_public_address, select_address, FilterError, IpAddress,
    SocketAddress,
};
use aether_proxy::forward::{
    forwarded_headers, is_proxy_header_name, origin_form, origin_reply, rewrite_request, Header,
    OriginResponse,
};
use aether_proxy::registration::{public_ip_from_answer, AdminApi, Config};
use aether_proxy::server::{
    HeartbeatMonitor, HeartbeatReport, Listener, ListenerAction, ListenerEvent,
};
use aether_proxy::tunnel::{Relay, Side};
use base64::Engine;
use hmac::Mac;

const SECRET: &str = "shared-secret";
const NODE: &str = "node-7";
const NOW: u64 = 1_700_000_000;

fn credential(ts: u64) -> String {
    let msg = format!("{}:{}", NODE, ts);
    let mut mac = hmac::Hmac::<sha2::Sha256>::new_from_slice(SECRET.as_bytes()).unwrap();
    mac.update(msg.as_bytes());
    let sig: String = mac.finalize().into_bytes().iter().map(|b| format!("{:02x}", b)).collect();
    let payload = format!("{}:{}", msg, sig);
    format!("Basic {}", base64::engine::general_purpose::STANDARD.encode(payload))
}

fn policy() -> Policy {
    Policy {
        secret: SECRET.as_bytes().to_vec(),
        node_id: NODE.to_string(),
        allowed_ports: default_allowed_ports(),
        tolerance: 300,
    }
}

fn head(kind: RequestKind, host: &str, port: Option<u16>, auth: Option<String>) -> RequestHead {
    RequestHead { kind, host: Some(host.to_string()), port, proxy_authorization: auth }
}

fn header(name: &str, value: &str) -> Header {
    Header { name: name.as_bytes().to_vec(), value: value.as_bytes().to_vec() }
}

const PUBLIC: IpAddress = IpAddress::V4([93, 184, 216, 34]);

#[test]
fn method_selects_path() {
    assert_eq!(request_kind(b"CONNECT"), RequestKind::Tunnel);
    assert_eq!(request_kind(b"GET"), RequestKind::Forward);
    assert_eq!(request_kind(b"connect"), RequestKind::Forward);
}

#[test]
fn no_credential_refused_before_resolution() {
    let req = head(RequestKind::Forward, "example.test", None, None);
    let a = admission(&req, &policy(), NOW);
    assert_eq!(a, Admission::Refuse(Refusal::Auth(AuthError::Missing)));
    if let Admission::Refuse(r) = a {
        assert_eq!(r.status(), 407);
        assert!(r.challenges());
    }
}

#[test]
fn connect_tunnel_established() {
    let req = head(RequestKind::Tunnel, "example.test", Some(443), Some(credential(NOW)));
    assert_eq!(admission(&req, &policy(), NOW), Admission::Resolve(443));
    assert_eq!(resolved(&[PUBLIC], 443), Ok(SocketAddress { ip: PUBLIC, port: 443 }));
    assert_eq!(dialled(Ok(())), Ok(200));
    let mut relay = Relay::new();
    assert!(relay.is_live());
    assert_eq!(relay.on_end(Side::Target), Some(Side::Client));
    assert!(!relay.is_live());
}

#[test]
fn get_forwarded_unchanged() {
    let req = head(RequestKind::Forward, "example.test", None, Some(credential(NOW)));
    assert_eq!(admission(&req, &policy(), NOW), Admission::Resolve(80));
    assert_eq!(resolved(&[PUBLIC], 80), Ok(SocketAddress { ip: PUBLIC, port: 80 }));
    let out = rewrite_request(
        Some(&b"/resource"[..]),
        &[header("Host", "example.test"), header("Proxy-Authorization", "x")],
    );
    assert_eq!(out.target, b"/resource".to_vec());
    assert_eq!(out.headers.len(), 1);
    assert_eq!(out.headers[0].name, b"Host".to_vec());
    let origin = OriginResponse {
        status: 200,
        headers: vec![header("content-length", "2")],
        body: b"ok".to_vec(),
    };
    let reply = match origin_reply(Ok(origin)) {
        Ok(r) => r,
        Err(_) => panic!("origin reply refused"),
    };
    assert_eq!(reply.status, 200);
    assert_eq!(reply.body, b"ok".to_vec());
    assert_eq!(reply.headers[0].value, b"2".to_vec());
}

#[test]
fn stale_credential_auth_required() {
    let req = head(RequestKind::Forward, "example.test", None, Some(credential(NOW - 600)));
    let a = admission(&req, &policy(), NOW);
    assert_eq!(a, Admission::Refuse(Refusal::Auth(AuthError::ClockSkew)));
    if let Admission::Refuse(r) = a {
        assert_eq!(r.status(), 407);
    }
}

#[test]
fn connect_to_loopback_forbidden() {
    let req = head(RequestKind::Tunnel, "127.0.0.1", Some(8080), Some(credential(NOW)));
    assert_eq!(admission(&req, &policy(), NOW), Admission::Resolve(8080));
    let r = resolved(&[IpAddress::V4([127, 0, 0, 1])], 8080);
    assert_eq!(r, Err(Refusal::Filter(FilterError::UnsafeTarget)));
    assert_eq!(Refusal::Filter(FilterError::UnsafeTarget).status(), 403);
}

#[test]
fn disallowed_port_refused_at_admission() {
    let req = head(RequestKind::Tunnel, "example.test", Some(22), Some(credential(NOW)));
    let a = admission(&req, &policy(), NOW);
    assert_eq!(a, Admission::Refuse(Refusal::Filter(FilterError::PortNotAllowed)));
    assert_eq!(check_port(22, &[80, 443]), Err(FilterError::PortNotAllowed));
    assert_eq!(check_port(443, &[80, 443]), Ok(()));
}

#[test]
fn missing_host_bad_request() {
    let req = RequestHead {
        kind: RequestKind::Forward,
        host: None,
        port: None,
        proxy_authorization: Some(credential(NOW)),
    };
    let a = admission(&req, &policy(), NOW);
    assert_eq!(a, Admission::Refuse(Refusal::MissingHost));
    assert_eq!(Refusal::MissingHost.status(), 400);
    let tunnel = head(RequestKind::Tunnel, "example.test", None, Some(credential(NOW)));
    assert_eq!(admission(&tunnel, &policy(), NOW), Admission::Refuse(Refusal::MissingHost));
}

#[test]
fn dial_and_upstream_failures_bad_gateway() {
    assert_eq!(dialled(Err(DialError::Timeout)), Err(Refusal::Dial(DialError::Timeout)));
    assert_eq!(Refusal::Dial(DialError::ConnectionRefused).status(), 502);
    assert!(origin_reply(Err(UpstreamError::HandshakeFailed)).is_err());
    assert_eq!(Refusal::Upstream(UpstreamError::SendFailed).status(), 502);
    assert!(!Refusal::Upstream(UpstreamError::SendFailed).challenges());
    assert_eq!(Refusal::Upstream(UpstreamError::HandshakeFailed).message(), "handshake failed");
}

#[test]
fn resolution_outcomes() {
    assert_eq!(select_address(&[], 443), Err(FilterError::ResolutionFailed));
    assert_eq!(
        select_address(&[IpAddress::V4([127, 0, 0, 1]), IpAddress::V4([169, 254, 1, 1])], 443),
        Err(FilterError::UnsafeTarget)
    );
    assert_eq!(
        select_address(&[IpAddress::V4([10, 0, 0, 1]), PUBLIC], 443),
        Err(FilterError::UnsafeTarget)
    );
    assert_eq!(
        select_address(&[PUBLIC, IpAddress::V4([1, 1, 1, 1])], 443),
        Ok(SocketAddress { ip: PUBLIC, port: 443 })
    );
}

#[test]
fn first_public_address_dialled_despite_later_private() {
    assert_eq!(
        select_address(&[PUBLIC, IpAddress::V4([127, 0, 0, 1])], 443),
        Ok(SocketAddress { ip: PUBLIC, port: 443 })
    );
    assert_eq!(
        resolved(&[PUBLIC, IpAddress::V4([10, 0, 0, 1])], 80),
        Ok(SocketAddress { ip: PUBLIC, port: 80 })
    );
}

#[test]
fn refusal_messages() {
    assert_eq!(Refusal::MissingHost.message(), "missing host in URI");
    assert_eq!(Refusal::RequestBodyUnreadable.status(), 502);
    assert_eq!(Refusal::RequestBodyUnreadable.message(), "failed to read request body");
    assert_eq!(
        Refusal::Upstream(UpstreamError::BodyReadFailed).message(),
        "failed to read response body"
    );
    assert_eq!(Refusal::Auth(AuthError::Missing).message(), "missing proxy credentials");
    assert_eq!(
        Refusal::Filter(FilterError::UnsafeTarget).message(),
        "destination address not allowed"
    );
    assert_eq!(Refusal::Dial(DialError::Timeout).message(), "connection timed out");
}

#[test]
fn origin_reply_drops_proxy_headers() {
    let origin = OriginResponse {
        status: 201,
        headers: vec![
            header("content-type", "text/plain"),
            header("Proxy-Connection", "close"),
            header("x-trace", "1"),
        ],
        body: b"created".to_vec(),
    };
    let reply = match origin_reply(Ok(origin)) {
        Ok(r) => r,
        Err(_) => panic!("origin reply refused"),
    };
    assert_eq!(reply.status, 201);
    assert_eq!(reply.body, b"created".to_vec());
    let names: Vec<Vec<u8>> = reply.headers.iter().map(|h| h.name.clone()).collect();
    assert_eq!(names, vec![b"content-type".to_vec(), b"x-trace".to_vec()]);
}

#[test]
fn address_ranges() {
    let loopback6 = IpAddress::V6([0, 0, 0, 0, 0, 0, 0, 1]);
    let link_local6 = IpAddress::V6([0xfe80, 0, 0, 0, 0, 0, 0, 1]);
    let mapped_loopback = IpAddress::V6([0, 0, 0, 0, 0, 0xffff, 0x7f00, 1]);
    let mapped_public = IpAddress::V6([0, 0, 0, 0, 0, 0xffff, 0x5db8, 0xd822]);
    let public6 = IpAddress::V6([0x2606, 0x2800, 0x220, 1, 0x248, 0x1893, 0x25c8, 0x1946]);
    assert!(!is_public_address(&loopback6));
    assert!(!is_public_address(&link_local6));
    assert!(!is_public_address(&mapped_loopback));
    assert!(is_public_address(&mapped_public));
    assert!(is_public_address(&public6));
    assert!(!is_public_address(&IpAddress::V4([192, 168, 1, 1])));
    assert!(!is_public_address(&IpAddress::V4([224, 0, 0, 1])));
    assert!(!is_public_address(&IpAddress::V4([255, 255, 255, 255])));
    assert!(!is_public_address(&IpAddress::V4([172, 16, 0, 1])));
    assert!(is_public_address(&IpAddress::V4([172, 32, 0, 1])));
    assert!(is_public_address(&IpAddress::V4([8, 8, 8, 8])));
}

#[test]
fn default_ports() {
    assert_eq!(default_allowed_ports(), vec![80, 443, 8080, 8443]);
}

#[test]
fn proxy_headers_stripped_any_case() {
    let hs = vec![
        header("PROXY-CONNECTION", "keep-alive"),
        header("accept", "*/*"),
        header("proxy-authorization", "Basic x"),
        header("x-proxy-authorization", "kept"),
        header("user-agent", "t"),
    ];
    let out = forwarded_headers(&hs);
    let names: Vec<Vec<u8>> = out.iter().map(|h| h.name.clone()).collect();
    assert_eq!(
        names,
        vec![b"accept".to_vec(), b"x-proxy-authorization".to_vec(), b"user-agent".to_vec()]
    );
    assert!(is_proxy_header_name(b"Proxy-Authorization"));
    assert!(!is_proxy_header_name(b"authorization"));
}

#[test]
fn origin_form_defaults_to_root() {
    assert_eq!(origin_form(None), b"/".to_vec());
    assert_eq!(origin_form(Some(&b""[..])), b"/".to_vec());
    assert_eq!(origin_form(Some(&b"/a?b=c"[..])), b"/a?b=c".to_vec());
}

#[test]
fn tunnel_teardown_happens_once() {
    let mut relay = Relay::new();
    assert_eq!(relay.on_end(Side::Client), Some(Side::Target));
    assert_eq!(relay.on_end(Side::Target), None);
    assert_eq!(relay.on_end(Side::Client), None);
    assert!(!relay.client_open && !relay.target_open);
}

#[test]
fn listener_stops_only_on_shutdown() {
    let mut l = Listener::new();
    assert_eq!(l.on_event(ListenerEvent::Accepted), ListenerAction::Serve);
    assert_eq!(l.on_event(ListenerEvent::AcceptFailed), ListenerAction::KeepAccepting);
    assert_eq!(l.on_event(ListenerEvent::ShutdownSignalled), ListenerAction::Stop);
    assert_eq!(l.on_event(ListenerEvent::Accepted), ListenerAction::Stop);
    assert!(l.stopping);
}

#[test]
fn heartbeat_failures_counted() {
    let mut m = HeartbeatMonitor::new();
    assert_eq!(m.record(true), HeartbeatReport::Healthy);
    assert_eq!(m.record(false), HeartbeatReport::Failed(1));
    assert_eq!(m.record(false), HeartbeatReport::Failed(2));
    assert_eq!(m.record(true), HeartbeatReport::Recovered(2));
    assert_eq!(m.consecutive_failures, 0);
    let mut full = HeartbeatMonitor { consecutive_failures: u32::MAX };
    assert_eq!(full.record(false), HeartbeatReport::Failed(u32::MAX));
}

#[test]
fn admin_url_trailing_slashes_trimmed() {
    let api = AdminApi::new("https://controller.example.com//", "tok");
    assert_eq!(api.base_url, "https://controller.example.com");
    assert_eq!(api.token, "tok");
}

#[test]
fn public_ip_answer_trimmed() {
    assert_eq!(public_ip_from_answer(true, " 203.0.113.9\n"), Some("203.0.113.9".to_string()));
    assert_eq!(public_ip_from_answer(true, " \n"), None);
    assert_eq!(public_ip_from_answer(false, "203.0.113.9"), None);
    assert_eq!(
        public_ip_from_answer(true, "\u{3000}\t198.51.100.4\u{a0}\r\n"),
        Some("198.51.100.4".to_string())
    );
    assert_eq!(public_ip_from_answer(true, ""), None);
}

#[test]
fn config_policy_carries_settings() {
    let c = Config {
        aether_url: "https://c".to_string(),
        management_token: "t".to_string(),
        hmac_key: SECRET.to_string(),
        listen_port: 18080,
        public_ip: None,
        node_name: "proxy-01".to_string(),
        node_region: None,
        heartbeat_interval: 30,
        allowed_ports: vec![443],
        timestamp_tolerance: 300,
        log_level: "info".to_string(),
        log_json: false,
    };
    let p = c.policy(NODE);
    assert_eq!(p.secret, SECRET.as_bytes().to_vec());
    assert_eq!(p.node_id, NODE);
    assert_eq!(p.allowed_ports, vec![443]);
    assert_eq!(p.tolerance, 300);
    let req = head(RequestKind::Forward, "example.test", None, Some(credential(NOW)));
    assert_eq!(
        admission(&req, &p, NOW),
        Admission::Refuse(Refusal::Filter(FilterError::PortNotAllowed))
    );
}

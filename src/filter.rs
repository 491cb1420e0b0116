//! Destination filtering: which ports may be dialled, and which resolved
//! addresses are routable enough to be reached through the proxy.
//!
//! Filtering happens in two steps around name resolution, which the caller
//! performs: [`check_port`] before resolving, [`select_address`] on what the
//! resolver returned. The address check therefore applies to the resolved
//! addresses, never to the host string.
use vstd::prelude::*;

verus! {

/// An IP address: four octets, or eight 16-bit segments.
#[derive(Debug, Clone, Copy, PartialEq, Eq)]
pub enum IpAddress {
    V4([u8; 4]),
    V6([u16; 8]),
}

/// An address and port to dial.
#[derive(Debug, Clone, Copy, PartialEq, Eq)]
pub struct SocketAddress {
    pub ip: IpAddress,
    pub port: u16,
}

/// Why a destination was refused.
#[derive(Debug, Clone, Copy, PartialEq, Eq, Structural)]
pub enum FilterError {
    PortNotAllowed,
    ResolutionFailed,
    UnsafeTarget,
}

pub open spec fn filter_message(e: FilterError) -> Seq<char> {
    match e {
        FilterError::PortNotAllowed => "destination port not allowed"@,
        FilterError::ResolutionFailed => "destination host did not resolve"@,
        FilterError::UnsafeTarget => "destination address not allowed"@,
    }
}

impl FilterError {
    /// Short diagnostic text, safe to show to the client.
    pub fn message(&self) -> (r: &'static str)
        ensures
            r@ == filter_message(*self),
    {
        match self {
            FilterError::PortNotAllowed => "destination port not allowed",
            FilterError::ResolutionFailed => "destination host did not resolve",
            FilterError::UnsafeTarget => "destination address not allowed",
        }
    }
}

/// The ports allowed when none are configured: 80, 443, 8080 and 8443.
pub fn default_allowed_ports() -> (r: Vec<u16>)
    ensures
        r@ == seq![80u16, 443u16, 8080u16, 8443u16],
{
    let r: Vec<u16> = vec![80, 443, 8080, 8443];
    assert(r@ =~= seq![80u16, 443u16, 8080u16, 8443u16]);
    r
}

/// Whether `a.b.c.d` is globally routable: not in the unspecified, private,
/// shared, loopback, link-local, protocol-assignment, documentation,
/// benchmarking, multicast, reserved or broadcast ranges.
pub open spec fn v4_is_public(a: u8, b: u8, c: u8) -> bool {
    !(a == 0 || a == 10 || a == 127 || (a == 100 && 64 <= b <= 127) || (a == 169 && b == 254)
        || (a == 172 && 16 <= b <= 31) || (a == 192 && b == 168) || (a == 192 && b == 0 && (c
        == 0 || c == 2)) || (a == 198 && (b == 18 || b == 19)) || (a == 198 && b == 51 && c
        == 100) || (a == 203 && b == 0 && c == 113) || a >= 224)
}

/// Whether an IPv6 address is globally routable: not in `::/96` (which holds
/// the unspecified and loopback addresses), not link-local (`fe80::/10`),
/// unique-local (`fc00::/7`), multicast (`ff00::/8`) or documentation
/// (`2001:db8::/32`), and, if IPv4-mapped (`::ffff:0:0/96`), mapping a
/// public IPv4 address.
pub open spec fn v6_is_public(s: Seq<u16>) -> bool {
    let head_zero = s[0] == 0 && s[1] == 0 && s[2] == 0 && s[3] == 0 && s[4] == 0;
    if head_zero && s[5] == 0 {
        false
    } else if head_zero && s[5] == 0xffff {
        v4_is_public((s[6] / 256) as u8, (s[6] % 256) as u8, (s[7] / 256) as u8)
    } else {
        !(0xfc00 <= s[0] || (s[0] == 0x2001 && s[1] == 0x0db8))
    }
}

pub open spec fn is_public(ip: IpAddress) -> bool {
    match ip {
        IpAddress::V4(o) => v4_is_public(o@[0], o@[1], o@[2]),
        IpAddress::V6(s) => v6_is_public(s@),
    }
}

/// See [`v4_is_public`].
pub fn is_public_v4(a: u8, b: u8, c: u8) -> (r: bool)
    ensures
        r == v4_is_public(a, b, c),
{
    !(a == 0 || a == 10 || a == 127 || (a == 100 && 64 <= b && b <= 127) || (a == 169 && b
        == 254) || (a == 172 && 16 <= b && b <= 31) || (a == 192 && b == 168) || (a == 192 && b
        == 0 && (c == 0 || c == 2)) || (a == 198 && (b == 18 || b == 19)) || (a == 198 && b
        == 51 && c == 100) || (a == 203 && b == 0 && c == 113) || a >= 224)
}

/// Whether `ip` may be dialled (see [`v4_is_public`], [`v6_is_public`]).
pub fn is_public_address(ip: &IpAddress) -> (r: bool)
    ensures
        r == is_public(*ip),
{
    match ip {
        IpAddress::V4(o) => is_public_v4(o[0], o[1], o[2]),
        IpAddress::V6(s) => {
            let head_zero = s[0] == 0 && s[1] == 0 && s[2] == 0 && s[3] == 0 && s[4] == 0;
            if head_zero && s[5] == 0 {
                false
            } else if head_zero && s[5] == 0xffff {
                is_public_v4((s[6] / 256) as u8, (s[6] % 256) as u8, (s[7] / 256) as u8)
            } else {
                !(0xfc00 <= s[0] || (s[0] == 0x2001 && s[1] == 0x0db8))
            }
        },
    }
}

/// Whether `port` is in the allow-list.
pub fn port_allowed(port: u16, allowed: &[u16]) -> (r: bool)
    ensures
        r == allowed@.contains(port),
{
    let mut i: usize = 0;
    while i < allowed.len()
        invariant
            i <= allowed@.len(),
            forall|j: int| 0 <= j < i ==> allowed@[j] != port,
        decreases allowed@.len() - i,
    {
        if allowed[i] == port {
            assert(allowed@[i as int] == port);
            return true;
        }
        i = i + 1;
    }
    false
}

/// The first filtering step, taken before the host is resolved.
pub fn check_port(port: u16, allowed: &[u16]) -> (r: Result<(), FilterError>)
    ensures
        r == (if allowed@.contains(port) {
            Ok::<(), FilterError>(())
        } else {
            Err(FilterError::PortNotAllowed)
        }),
{
    if port_allowed(port, allowed) {
        Ok(())
    } else {
        Err(FilterError::PortNotAllowed)
    }
}

/// The verdict on what the resolver returned: no address fails resolution;
/// otherwise the first address is the one to dial, and the request is
/// refused if that address is not public (rather than falling back to a
/// later one).
pub open spec fn resolution_verdict(resolved: Seq<IpAddress>, port: u16) -> Result<
    SocketAddress,
    FilterError,
> {
    if resolved.len() == 0 {
        Err(FilterError::ResolutionFailed)
    } else if !is_public(resolved[0]) {
        Err(FilterError::UnsafeTarget)
    } else {
        Ok(SocketAddress { ip: resolved[0], port })
    }
}

/// The second filtering step, on the addresses the host resolved to.
pub fn select_address(resolved: &[IpAddress], port: u16) -> (r: Result<SocketAddress, FilterError>)
    ensures
        r == resolution_verdict(resolved@, port),
{
    if resolved.len() == 0 {
        return Err(FilterError::ResolutionFailed);
    }
    if !is_public_address(&resolved[0]) {
        return Err(FilterError::UnsafeTarget);
    }
    Ok(SocketAddress { ip: resolved[0], port })
}

/// A host that resolves only to loopback or link-local addresses is refused
/// as `UnsafeTarget`.
pub proof fn lemma_local_only_host_refused(resolved: Seq<IpAddress>, port: u16)
    requires
        resolved.len() > 0,
        forall|i: int| 0 <= i < resolved.len() ==> is_loopback_or_link_local(#[trigger] resolved[i]),
    ensures
        resolution_verdict(resolved, port) == Err::<SocketAddress, FilterError>(FilterError::UnsafeTarget),
{
    assert(is_loopback_or_link_local(resolved[0]));
    assert(!is_public(resolved[0]));
}

/// Loopback (`127.0.0.0/8`, `::1`) and link-local (`169.254.0.0/16`,
/// `fe80::/10`) addresses.
pub open spec fn is_loopback_or_link_local(ip: IpAddress) -> bool {
    match ip {
        IpAddress::V4(o) => o@[0] == 127 || (o@[0] == 169 && o@[1] == 254),
        IpAddress::V6(s) => (s@[0] == 0 && s@[1] == 0 && s@[2] == 0 && s@[3] == 0 && s@[4] == 0
            && s@[5] == 0 && s@[6] == 0 && s@[7] == 1) || (0xfe80 <= s@[0] <= 0xfebf),
    }
}

} // verus!

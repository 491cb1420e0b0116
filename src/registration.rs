//! Settings of the node and the pieces of its lifecycle with the controller
//! (registration, heartbeat, public-address discovery) that involve a
//! decision rather than a network call.
use crate::dispatch::Policy;
use vstd::prelude::*;
use vstd::string::StrSliceExecFns;
use vstd::utf8::encode_utf8;

verus! {

/// The node's settings.
pub struct Config {
    /// Controller URL, e.g. `https://controller.example.com`.
    pub aether_url: String,
    /// Token for the controller's admin API.
    pub management_token: String,
    /// Shared HMAC key for proxy credentials.
    pub hmac_key: String,
    pub listen_port: u16,
    /// Public address of this node; discovered when absent.
    pub public_ip: Option<String>,
    pub node_name: String,
    pub node_region: Option<String>,
    /// Seconds between heartbeats.
    pub heartbeat_interval: u64,
    pub allowed_ports: Vec<u16>,
    /// Allowed clock skew of a credential, in seconds.
    pub timestamp_tolerance: u64,
    pub log_level: String,
    pub log_json: bool,
}

impl Config {
    /// The settings every request is checked against, for the identity
    /// `node_id` assigned at registration.
    pub fn policy(&self, node_id: &str) -> (r: Policy)
        ensures
            r.secret@ == encode_utf8(self.hmac_key@),
            r.node_id@ == node_id@,
            r.allowed_ports@ == self.allowed_ports@,
            r.tolerance == self.timestamp_tolerance,
    {
        let key = self.hmac_key.as_str().as_bytes();
        let secret = crate::auth::copy_range(key, 0, key.len());
        assert(key@.subrange(0, key@.len() as int) =~= key@);
        let mut ports: Vec<u16> = Vec::new();
        let mut i: usize = 0;
        while i < self.allowed_ports.len()
            invariant
                i <= self.allowed_ports@.len(),
                ports@ == self.allowed_ports@.subrange(0, i as int),
            decreases self.allowed_ports@.len() - i,
        {
            ports.push(self.allowed_ports[i]);
            assert(self.allowed_ports@.subrange(0, i + 1) =~= self.allowed_ports@.subrange(
                0,
                i as int,
            ).push(self.allowed_ports@[i as int]));
            i = i + 1;
        }
        assert(self.allowed_ports@.subrange(0, i as int) =~= self.allowed_ports@);
        Policy {
            secret,
            node_id: node_id.to_owned(),
            allowed_ports: ports,
            tolerance: self.timestamp_tolerance,
        }
    }
}

/// The controller's answer to a registration.
pub struct RegisterResponse {
    /// The identity assigned to this node.
    pub node_id: String,
}

/// `s` without its trailing `/` characters.
pub open spec fn without_trailing_slashes(s: Seq<char>) -> Seq<char>
    decreases s.len(),
{
    if s.len() > 0 && s.last() == '/' {
        without_trailing_slashes(s.drop_last())
    } else {
        s
    }
}

/// Drops the trailing `/` characters of `s`.
fn trim_trailing_slashes(s: &str) -> (r: String)
    ensures
        r@ == without_trailing_slashes(s@),
{
    let n = s.unicode_len();
    let mut i: usize = n;
    assert(s@.subrange(0, n as int) =~= s@);
    while i > 0 && s.get_char(i - 1) == '/'
        invariant
            i <= n == s@.len(),
            without_trailing_slashes(s@) == without_trailing_slashes(s@.subrange(0, i as int)),
        decreases i,
    {
        assert(s@.subrange(0, i as int).drop_last() =~= s@.subrange(0, i - 1));
        i = i - 1;
    }
    s.substring_char(0, i).to_owned()
}

/// Where and how to reach the controller's admin API.
pub struct AdminApi {
    /// Controller URL without trailing slashes.
    pub base_url: String,
    pub token: String,
}

impl AdminApi {
    pub fn new(aether_url: &str, token: &str) -> (r: AdminApi)
        ensures
            r.base_url@ == without_trailing_slashes(aether_url@),
            r.token@ == token@,
    {
        AdminApi { base_url: trim_trailing_slashes(aether_url), token: token.to_owned() }
    }
}

/// The characters of Unicode's `White_Space` property, which `char::is_whitespace`
/// and `str::trim` go by.
pub open spec fn is_white_space(c: char) -> bool {
    let u = c as u32;
    (9 <= u <= 13) || u == 32 || u == 0x85 || u == 0xa0 || u == 0x1680 || (0x2000 <= u <= 0x200a)
        || u == 0x2028 || u == 0x2029 || u == 0x202f || u == 0x205f || u == 0x3000
}

pub open spec fn without_leading_space(s: Seq<char>) -> Seq<char>
    decreases s.len(),
{
    if s.len() > 0 && is_white_space(s[0]) {
        without_leading_space(s.subrange(1, s.len() as int))
    } else {
        s
    }
}

pub open spec fn without_trailing_space(s: Seq<char>) -> Seq<char>
    decreases s.len(),
{
    if s.len() > 0 && is_white_space(s.last()) {
        without_trailing_space(s.drop_last())
    } else {
        s
    }
}

/// `s` without leading and trailing white space.
pub open spec fn trimmed(s: Seq<char>) -> Seq<char> {
    without_trailing_space(without_leading_space(s))
}

fn white_space(c: char) -> (r: bool)
    ensures
        r == is_white_space(c),
{
    let u = c as u32;
    (9 <= u && u <= 13) || u == 32 || u == 0x85 || u == 0xa0 || u == 0x1680 || (0x2000 <= u && u
        <= 0x200a) || u == 0x2028 || u == 0x2029 || u == 0x202f || u == 0x205f || u == 0x3000
}

/// `s` without leading and trailing white space (see [`trimmed`]).
pub fn trim_text(s: &str) -> (r: String)
    ensures
        r@ == trimmed(s@),
{
    let n = s.unicode_len();
    let mut lo: usize = 0;
    assert(s@.subrange(0, n as int) =~= s@);
    while lo < n && white_space(s.get_char(lo))
        invariant
            lo <= n == s@.len(),
            without_leading_space(s@) == without_leading_space(s@.subrange(lo as int, n as int)),
        decreases n - lo,
    {
        assert(s@.subrange(lo as int, n as int).subrange(1, n - lo) =~= s@.subrange(
            lo + 1,
            n as int,
        ));
        lo = lo + 1;
    }
    assert(without_leading_space(s@) == s@.subrange(lo as int, n as int));
    let mut hi: usize = n;
    while hi > lo && white_space(s.get_char(hi - 1))
        invariant
            lo <= hi <= n == s@.len(),
            without_leading_space(s@) == s@.subrange(lo as int, n as int),
            trimmed(s@) == without_trailing_space(s@.subrange(lo as int, hi as int)),
        decreases hi,
    {
        assert(s@.subrange(lo as int, hi as int).drop_last() =~= s@.subrange(lo as int, hi - 1));
        hi = hi - 1;
    }
    s.substring_char(lo, hi).to_owned()
}

/// The address in an answer of an address-echo service: its body without
/// surrounding white space, when the answer succeeded and that is not
/// empty. The first service that yields one wins.
pub fn public_ip_from_answer(success: bool, body: &str) -> (r: Option<String>)
    ensures
        match r {
            Some(ip) => success && ip@ == trimmed(body@) && ip@.len() > 0,
            None => !success || trimmed(body@).len() == 0,
        },
{
    if !success {
        return None;
    }
    let t = trim_text(body);
    if t.as_str().is_empty() {
        None
    } else {
        Some(t)
    }
}

} // verus!

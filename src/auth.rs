//! Validation of the HMAC-signed `Proxy-Authorization` credential.
//!
//! The header reads `Basic <base64(identity ":" timestamp ":" signature)>`,
//! where `signature` is the hex form of HMAC-SHA256 keyed by the shared
//! secret over `identity ":" timestamp`.
use base64::Engine;
use hmac::Mac;
use vstd::prelude::*;
use vstd::string::StringSliceAdditionalSpecFns;

verus! {

/// Why a credential was refused.
#[derive(Debug, Clone, Copy, PartialEq, Eq, Structural)]
pub enum AuthError {
    Missing,
    Malformed,
    IdentityMismatch,
    ClockSkew,
    BadSignature,
}

pub open spec fn auth_message(e: AuthError) -> Seq<char> {
    match e {
        AuthError::Missing => "missing proxy credentials"@,
        AuthError::Malformed => "malformed proxy credentials"@,
        AuthError::IdentityMismatch => "credential issued for another node"@,
        AuthError::ClockSkew => "credential timestamp outside tolerance"@,
        AuthError::BadSignature => "invalid credential signature"@,
    }
}

impl AuthError {
    /// Short diagnostic text, safe to show to the client; it never holds
    /// the secret or the presented signature.
    pub fn message(&self) -> (r: &'static str)
        ensures
            r@ == auth_message(*self),
    {
        match self {
            AuthError::Missing => "missing proxy credentials",
            AuthError::Malformed => "malformed proxy credentials",
            AuthError::IdentityMismatch => "credential issued for another node",
            AuthError::ClockSkew => "credential timestamp outside tolerance",
            AuthError::BadSignature => "invalid credential signature",
        }
    }
}

/// The byte `:`.
pub const COLON: u8 = 58;

/// Number of bytes of an HMAC-SHA256 tag.
pub const MAC_LEN: usize = 32;

/// Number of hex digits of an encoded tag.
pub const SIGNATURE_HEX_LEN: usize = 64;

/// Default tolerance, in seconds, between a credential's timestamp and now.
pub const DEFAULT_TOLERANCE_SECS: u64 = 300;

/// Standard-alphabet, padded base64 decoding of `s`; `None` when `s` is not
/// valid base64.
pub uninterp spec fn base64_decoded(s: Seq<u8>) -> Option<Seq<u8>>;

/// HMAC-SHA256 of `msg` keyed by `key`.
pub uninterp spec fn hmac_sha256_of(key: Seq<u8>, msg: Seq<u8>) -> Seq<u8>;

/// Relies on base64's `STANDARD` engine `decode`: the decoded bytes, or an
/// error when the input is not valid base64.
#[verifier::external_body]
fn base64_decode(s: &[u8]) -> (r: Option<Vec<u8>>)
    ensures
        match r {
            Some(v) => base64_decoded(s@) == Some(v@),
            None => base64_decoded(s@) is None,
        },
{
    base64::engine::general_purpose::STANDARD.decode(s).ok()
}

/// Relies on hmac's `Hmac<Sha256>`: `new_from_slice` accepts a key of any
/// length, and `finalize` yields the 32-byte tag of the bytes given to
/// `update`.
#[verifier::external_body]
fn hmac_sha256(key: &[u8], msg: &[u8]) -> (r: Vec<u8>)
    ensures
        r@ == hmac_sha256_of(key@, msg@),
        r@.len() == MAC_LEN,
{
    let mut mac = hmac::Hmac::<sha2::Sha256>::new_from_slice(key).unwrap();
    mac.update(msg);
    mac.finalize().into_bytes().to_vec()
}

/// The scheme prefix `Basic ` of the header.
pub open spec fn basic_prefix() -> Seq<u8> {
    seq![66u8, 97u8, 115u8, 105u8, 99u8, 32u8]
}

/// The base64 text after the `Basic ` scheme, if the header has that scheme.
pub open spec fn encoded_payload(h: Seq<u8>) -> Option<Seq<u8>> {
    if h.len() >= 6 && h.subrange(0, 6) == basic_prefix() {
        Some(h.subrange(6, h.len() as int))
    } else {
        None
    }
}

/// Index of the last `:` of `s`, or -1 when there is none.
pub open spec fn last_colon(s: Seq<u8>) -> int
    decreases s.len(),
{
    if s.len() == 0 {
        -1
    } else if s.last() == COLON {
        s.len() - 1
    } else {
        last_colon(s.drop_last())
    }
}

pub open spec fn is_digit(c: u8) -> bool {
    48 <= c <= 57
}

/// Value of a string of decimal digits.
pub open spec fn decimal_value(s: Seq<u8>) -> nat
    decreases s.len(),
{
    if s.len() == 0 {
        0
    } else {
        decimal_value(s.drop_last()) * 10 + (s.last() - 48) as nat
    }
}

/// A timestamp field: one or more decimal digits whose value fits in `u64`.
pub open spec fn timestamp_field(s: Seq<u8>) -> Option<u64> {
    if s.len() > 0 && (forall|i: int| 0 <= i < s.len() ==> is_digit(#[trigger] s[i]))
        && decimal_value(s) <= u64::MAX {
        Some(decimal_value(s) as u64)
    } else {
        None
    }
}

/// Value of a hex digit of either case.
pub open spec fn hex_value(c: u8) -> Option<u8> {
    if 48 <= c <= 57 {
        Some((c - 48) as u8)
    } else if 97 <= c <= 102 {
        Some((c - 87) as u8)
    } else if 65 <= c <= 70 {
        Some((c - 55) as u8)
    } else {
        None
    }
}

/// The tag written by a signature field: exactly 64 hex digits, two per byte,
/// high nibble first.
pub open spec fn signature_field(s: Seq<u8>) -> Option<Seq<u8>> {
    if s.len() == SIGNATURE_HEX_LEN && (forall|i: int|
        0 <= i < s.len() ==> (#[trigger] hex_value(s[i])) is Some) {
        Some(
            Seq::new(
                MAC_LEN as nat,
                |k: int| (hex_value(s[2 * k])->0 * 16 + hex_value(s[2 * k + 1])->0) as u8,
            ),
        )
    } else {
        None
    }
}

/// The fields of a structurally valid credential.
pub struct Credential {
    /// The issuing node's identity.
    pub identity: Vec<u8>,
    /// Seconds since the epoch at issuance.
    pub timestamp: u64,
    /// The signed message: `identity ":" timestamp`, as presented.
    pub message: Vec<u8>,
    /// The presented tag, decoded from hex.
    pub signature: Vec<u8>,
}

pub struct CredentialView {
    pub identity: Seq<u8>,
    pub timestamp: u64,
    pub message: Seq<u8>,
    pub signature: Seq<u8>,
}

impl View for Credential {
    type V = CredentialView;

    open spec fn view(&self) -> CredentialView {
        CredentialView {
            identity: self.identity@,
            timestamp: self.timestamp,
            message: self.message@,
            signature: self.signature@,
        }
    }
}

/// Splits a decoded payload `identity ":" timestamp ":" signature` at its last
/// two colons (so the identity itself may hold colons) and checks each field.
pub open spec fn parse_payload(p: Seq<u8>) -> Option<CredentialView> {
    let s = last_colon(p);
    if s < 0 {
        None
    } else {
        let message = p.subrange(0, s);
        let t = last_colon(message);
        if t < 0 {
            None
        } else {
            match (
                timestamp_field(message.subrange(t + 1, s)),
                signature_field(p.subrange(s + 1, p.len() as int)),
            ) {
                (Some(ts), Some(sig)) => Some(
                    CredentialView {
                        identity: message.subrange(0, t),
                        timestamp: ts,
                        message,
                        signature: sig,
                    },
                ),
                _ => None,
            }
        }
    }
}

/// `|now - ts| <= tolerance`.
pub open spec fn fresh(now: u64, ts: u64, tolerance: u64) -> bool {
    if now >= ts {
        now - ts <= tolerance
    } else {
        ts - now <= tolerance
    }
}

/// The verdict on a structurally valid credential, given the tag `mac` that
/// the secret yields over its message.
pub open spec fn credential_verdict(
    c: CredentialView,
    node_id: Seq<u8>,
    now: u64,
    tolerance: u64,
    mac: Seq<u8>,
) -> Result<(), AuthError> {
    if c.identity != node_id {
        Err(AuthError::IdentityMismatch)
    } else if !fresh(now, c.timestamp, tolerance) {
        Err(AuthError::ClockSkew)
    } else if c.signature != mac {
        Err(AuthError::BadSignature)
    } else {
        Ok(())
    }
}

/// The verdict on a header value, in the order: presence, structure,
/// identity, freshness, signature.
pub open spec fn auth_verdict(
    header: Option<Seq<u8>>,
    secret: Seq<u8>,
    node_id: Seq<u8>,
    now: u64,
    tolerance: u64,
) -> Result<(), AuthError> {
    match header {
        None => Err(AuthError::Missing),
        Some(h) => match encoded_payload(h) {
            None => Err(AuthError::Malformed),
            Some(e) => match base64_decoded(e) {
                None => Err(AuthError::Malformed),
                Some(p) => match parse_payload(p) {
                    None => Err(AuthError::Malformed),
                    Some(c) => credential_verdict(
                        c,
                        node_id,
                        now,
                        tolerance,
                        hmac_sha256_of(secret, c.message),
                    ),
                },
            },
        },
    }
}

/// A copy of `s[lo..hi]`.
pub fn copy_range(s: &[u8], lo: usize, hi: usize) -> (r: Vec<u8>)
    requires
        lo <= hi <= s@.len(),
    ensures
        r@ == s@.subrange(lo as int, hi as int),
{
    let mut out: Vec<u8> = Vec::new();
    let mut i: usize = lo;
    while i < hi
        invariant
            lo <= i <= hi <= s@.len(),
            out@ == s@.subrange(lo as int, i as int),
        decreases hi - i,
    {
        out.push(s[i]);
        assert(s@.subrange(lo as int, i + 1) =~= s@.subrange(lo as int, i as int).push(s@[i as int]));
        i = i + 1;
    }
    out
}

/// Index of the last `:` of `s[0..end]`, if any.
fn find_last_colon(s: &[u8], end: usize) -> (r: Option<usize>)
    requires
        end <= s@.len(),
    ensures
        match r {
            Some(k) => k < end && k as int == last_colon(s@.subrange(0, end as int)),
            None => last_colon(s@.subrange(0, end as int)) == -1,
        },
{
    let mut i: usize = end;
    while i > 0
        invariant
            i <= end <= s@.len(),
            last_colon(s@.subrange(0, end as int)) == last_colon(s@.subrange(0, i as int)),
        decreases i,
    {
        if s[i - 1] == COLON {
            return Some(i - 1);
        }
        assert(s@.subrange(0, i as int).drop_last() =~= s@.subrange(0, i - 1));
        i = i - 1;
    }
    None
}

proof fn lemma_decimal_prefix_le(s: Seq<u8>, k: int)
    requires
        0 <= k <= s.len(),
    ensures
        decimal_value(s.subrange(0, k)) <= decimal_value(s),
    decreases s.len(),
{
    if k < s.len() {
        assert(s.drop_last().subrange(0, k) =~= s.subrange(0, k));
        lemma_decimal_prefix_le(s.drop_last(), k);
    } else {
        assert(s.subrange(0, k) =~= s);
    }
}

/// Reads the timestamp field `s[lo..hi]`.
fn parse_timestamp(s: &[u8], lo: usize, hi: usize) -> (r: Option<u64>)
    requires
        lo <= hi <= s@.len(),
    ensures
        r == timestamp_field(s@.subrange(lo as int, hi as int)),
{
    let ghost f = s@.subrange(lo as int, hi as int);
    if lo == hi {
        return None;
    }
    let mut acc: u64 = 0;
    let mut i: usize = lo;
    while i < hi
        invariant
            lo <= i <= hi <= s@.len(),
            f == s@.subrange(lo as int, hi as int),
            forall|j: int| 0 <= j < i - lo ==> is_digit(#[trigger] f[j]),
            acc as nat == decimal_value(f.subrange(0, i - lo)),
        decreases hi - i,
    {
        let c = s[i];
        assert(f.subrange(0, i + 1 - lo).drop_last() =~= f.subrange(0, i - lo));
        if c < 48 || c > 57 {
            assert(!is_digit(f[i - lo]));
            return None;
        }
        let d: u64 = (c - 48) as u64;
        if acc > (u64::MAX - d) / 10 {
            proof {
                lemma_decimal_prefix_le(f, i + 1 - lo);
                assert(decimal_value(f.subrange(0, i + 1 - lo)) > u64::MAX) by (nonlinear_arith)
                    requires
                        acc > (u64::MAX - d) / 10,
                        decimal_value(f.subrange(0, i + 1 - lo)) == acc * 10 + d,
                        d <= 9,
                ;
            }
            return None;
        }
        assert(acc * 10 + d <= u64::MAX) by (nonlinear_arith)
            requires
                acc <= (u64::MAX - d) / 10,
                d <= 9,
        ;
        acc = acc * 10 + d;
        i = i + 1;
    }
    assert(f.subrange(0, hi - lo) =~= f);
    Some(acc)
}

/// Value of a hex digit of either case.
fn hex_digit(c: u8) -> (r: Option<u8>)
    ensures
        r == hex_value(c),
        r matches Some(v) ==> v < 16,
{
    if 48 <= c && c <= 57 {
        Some(c - 48)
    } else if 97 <= c && c <= 102 {
        Some(c - 87)
    } else if 65 <= c && c <= 70 {
        Some(c - 55)
    } else {
        None
    }
}

/// Decodes the signature field `s[lo..]`.
fn parse_signature(s: &[u8], lo: usize) -> (r: Option<Vec<u8>>)
    requires
        lo <= s@.len(),
    ensures
        match r {
            Some(v) => signature_field(s@.subrange(lo as int, s@.len() as int)) == Some(v@),
            None => signature_field(s@.subrange(lo as int, s@.len() as int)) is None,
        },
{
    let ghost f = s@.subrange(lo as int, s@.len() as int);
    if s.len() - lo != SIGNATURE_HEX_LEN {
        return None;
    }
    let mut out: Vec<u8> = Vec::new();
    let mut k: usize = 0;
    while k < MAC_LEN
        invariant
            f == s@.subrange(lo as int, s@.len() as int),
            f.len() == SIGNATURE_HEX_LEN,
            lo + SIGNATURE_HEX_LEN == s@.len(),
            s@.len() <= usize::MAX,
            k <= MAC_LEN,
            out@.len() == k,
            forall|j: int| 0 <= j < 2 * k ==> (#[trigger] hex_value(f[j])) is Some,
            forall|j: int|
                0 <= j < k ==> #[trigger] out@[j] == (hex_value(f[2 * j])->0 * 16 + hex_value(
                    f[2 * j + 1],
                )->0) as u8,
        decreases MAC_LEN - k,
    {
        let at: usize = lo + k * 2;
        let hi = hex_digit(s[at]);
        let lo_d = hex_digit(s[at + 1]);
        match (hi, lo_d) {
            (Some(h), Some(l)) => {
                out.push(h * 16 + l);
            },
            _ => {
                assert(hex_value(f[2 * k as int]) is None || hex_value(f[2 * k + 1]) is None);
                return None;
            },
        }
        k = k + 1;
    }
    assert(out@ =~= Seq::new(
        MAC_LEN as nat,
        |j: int| (hex_value(f[2 * j])->0 * 16 + hex_value(f[2 * j + 1])->0) as u8,
    ));
    Some(out)
}

/// Splits and checks a decoded payload (see [`parse_payload`]).
pub fn parse_credential(p: &[u8]) -> (r: Option<Credential>)
    ensures
        match r {
            Some(c) => parse_payload(p@) == Some(c@),
            None => parse_payload(p@) is None,
        },
{
    assert(p@.subrange(0, p@.len() as int) =~= p@);
    let s = match find_last_colon(p, p.len()) {
        Some(s) => s,
        None => return None,
    };
    let t = match find_last_colon(p, s) {
        Some(t) => t,
        None => return None,
    };
    let ghost message = p@.subrange(0, s as int);
    assert(message.subrange(t + 1, s as int) =~= p@.subrange(t + 1, s as int));
    assert(message.subrange(0, t as int) =~= p@.subrange(0, t as int));
    let timestamp = match parse_timestamp(p, t + 1, s) {
        Some(ts) => ts,
        None => return None,
    };
    let signature = match parse_signature(p, s + 1) {
        Some(sig) => sig,
        None => return None,
    };
    let identity = copy_range(p, 0, t);
    let msg = copy_range(p, 0, s);
    Some(Credential { identity, timestamp, message: msg, signature })
}

/// Byte-wise equality whose running time depends only on the lengths, so
/// that a mismatch position is not revealed by timing.
pub fn constant_time_eq(a: &[u8], b: &[u8]) -> (r: bool)
    ensures
        r == (a@ == b@),
{
    if a.len() != b.len() {
        return false;
    }
    let mut diff: u8 = 0;
    let mut i: usize = 0;
    assert(a@.subrange(0, 0) =~= b@.subrange(0, 0));
    while i < a.len()
        invariant
            a@.len() == b@.len(),
            i <= a@.len(),
            (diff == 0) == (a@.subrange(0, i as int) == b@.subrange(0, i as int)),
        decreases a@.len() - i,
    {
        let x = a[i];
        let y = b[i];
        let nd = diff | (x ^ y);
        assert(nd == 0 <==> (diff == 0 && x == y)) by (bit_vector)
            requires
                nd == diff | (x ^ y),
        ;
        assert(a@.subrange(0, i + 1) == a@.subrange(0, i as int).push(x));
        assert(b@.subrange(0, i + 1) == b@.subrange(0, i as int).push(y));
        if diff == 0 && x != y {
            assert(a@.subrange(0, i + 1)[i as int] != b@.subrange(0, i + 1)[i as int]);
        }
        if diff != 0 {
            assert(a@.subrange(0, i + 1).subrange(0, i as int) =~= a@.subrange(0, i as int));
            assert(b@.subrange(0, i + 1).subrange(0, i as int) =~= b@.subrange(0, i as int));
        }
        diff = nd;
        i = i + 1;
    }
    assert(a@.subrange(0, i as int) =~= a@);
    assert(b@.subrange(0, i as int) =~= b@);
    diff == 0
}

/// `|now - ts| <= tolerance`, without overflow.
pub fn is_fresh(now: u64, ts: u64, tolerance: u64) -> (r: bool)
    ensures
        r == fresh(now, ts, tolerance),
{
    if now >= ts {
        now - ts <= tolerance
    } else {
        ts - now <= tolerance
    }
}

/// Checks identity and freshness of a credential, before any tag is computed.
pub fn check_identity_and_time(c: &Credential, node_id: &[u8], now: u64, tolerance: u64) -> (r:
    Result<(), AuthError>)
    ensures
        r == (if c@.identity != node_id@ {
            Err(AuthError::IdentityMismatch)
        } else if !fresh(now, c@.timestamp, tolerance) {
            Err(AuthError::ClockSkew)
        } else {
            Ok(())
        }),
{
    if !constant_time_eq(c.identity.as_slice(), node_id) {
        return Err(AuthError::IdentityMismatch);
    }
    if !is_fresh(now, c.timestamp, tolerance) {
        return Err(AuthError::ClockSkew);
    }
    Ok(())
}

/// The verdict on a parsed credential given the tag `mac` expected over its
/// message.
pub fn verify_credential(c: &Credential, node_id: &[u8], now: u64, tolerance: u64, mac: &[u8]) -> (r:
    Result<(), AuthError>)
    ensures
        r == credential_verdict(c@, node_id@, now, tolerance, mac@),
{
    match check_identity_and_time(c, node_id, now, tolerance) {
        Err(e) => Err(e),
        Ok(()) => {
            if constant_time_eq(c.signature.as_slice(), mac) {
                Ok(())
            } else {
                Err(AuthError::BadSignature)
            }
        },
    }
}

/// The base64 text of a `Basic` header, or `None` for another scheme.
pub fn basic_credentials(h: &[u8]) -> (r: Option<Vec<u8>>)
    ensures
        match r {
            Some(e) => encoded_payload(h@) == Some(e@),
            None => encoded_payload(h@) is None,
        },
{
    if h.len() < 6 {
        return None;
    }
    let prefix: [u8; 6] = [66, 97, 115, 105, 99, 32];
    let mut i: usize = 0;
    while i < 6
        invariant
            h@.len() >= 6,
            i <= 6,
            prefix@ == basic_prefix(),
            forall|j: int| 0 <= j < i ==> h@[j] == basic_prefix()[j],
        decreases 6 - i,
    {
        if h[i] != prefix[i] {
            assert(h@.subrange(0, 6)[i as int] != basic_prefix()[i as int]);
            return None;
        }
        i = i + 1;
    }
    assert(h@.subrange(0, 6) =~= basic_prefix());
    Some(copy_range(h, 6, h.len()))
}

/// Validates the `Proxy-Authorization` header value of a request.
///
/// `secret` is the shared HMAC key, `node_id` this node's identity, `now`
/// the current time in seconds and `tolerance` the allowed clock skew.
pub fn validate_proxy_auth(
    header: Option<&str>,
    secret: &[u8],
    node_id: &str,
    now: u64,
    tolerance: u64,
) -> (r: Result<(), AuthError>)
    ensures
        r == auth_verdict(
            match header {
                Some(h) => Some(h.spec_bytes()),
                None => None,
            },
            secret@,
            node_id.spec_bytes(),
            now,
            tolerance,
        ),
{
    let h = match header {
        None => return Err(AuthError::Missing),
        Some(h) => h.as_bytes(),
    };
    let encoded = match basic_credentials(h) {
        None => return Err(AuthError::Malformed),
        Some(e) => e,
    };
    let payload = match base64_decode(encoded.as_slice()) {
        None => return Err(AuthError::Malformed),
        Some(p) => p,
    };
    let cred = match parse_credential(payload.as_slice()) {
        None => return Err(AuthError::Malformed),
        Some(c) => c,
    };
    let id = node_id.as_bytes();
    if let Err(e) = check_identity_and_time(&cred, id, now, tolerance) {
        return Err(e);
    }
    let mac = hmac_sha256(secret, cred.message.as_slice());
    if constant_time_eq(cred.signature.as_slice(), mac.as_slice()) {
        Ok(())
    } else {
        Err(AuthError::BadSignature)
    }
}

/// The credential carried by a header value, if it is well-formed.
pub open spec fn carried_credential(h: Seq<u8>) -> Option<CredentialView> {
    match encoded_payload(h) {
        Some(e) => match base64_decoded(e) {
            Some(p) => parse_payload(p),
            None => None,
        },
        None => None,
    }
}

/// A request without a credential header is refused as `Missing`.
pub proof fn lemma_absent_header_is_missing(secret: Seq<u8>, node_id: Seq<u8>, now: u64, tolerance: u64)
    ensures
        auth_verdict(None, secret, node_id, now, tolerance) == Err::<(), AuthError>(AuthError::Missing),
{
}

/// A well-formed credential for this node whose timestamp lies more than
/// `tolerance` seconds from `now` is refused as `ClockSkew`, whatever its
/// signature and whatever the secret.
pub proof fn lemma_stale_credential_is_clock_skew(
    h: Seq<u8>,
    secret: Seq<u8>,
    node_id: Seq<u8>,
    now: u64,
    tolerance: u64,
)
    requires
        carried_credential(h) matches Some(c) && c.identity == node_id && !fresh(
            now,
            c.timestamp,
            tolerance,
        ),
    ensures
        auth_verdict(Some(h), secret, node_id, now, tolerance) == Err::<(), AuthError>(
            AuthError::ClockSkew,
        ),
{
}

/// A well-formed, fresh credential for this node whose tag was computed with
/// another secret (so that it differs from the tag under `secret`) is refused
/// as `BadSignature`.
pub proof fn lemma_foreign_secret_is_bad_signature(
    h: Seq<u8>,
    secret: Seq<u8>,
    other_secret: Seq<u8>,
    node_id: Seq<u8>,
    now: u64,
    tolerance: u64,
)
    requires
        carried_credential(h) matches Some(c) && c.identity == node_id && fresh(
            now,
            c.timestamp,
            tolerance,
        ) && c.signature == hmac_sha256_of(other_secret, c.message) && hmac_sha256_of(
            other_secret,
            c.message,
        ) != hmac_sha256_of(secret, c.message),
    ensures
        auth_verdict(Some(h), secret, node_id, now, tolerance) == Err::<(), AuthError>(
            AuthError::BadSignature,
        ),
{
}

/// Only a fresh credential for this node whose tag is the one the secret
/// yields over its message is accepted.
pub proof fn lemma_accepted_credential_is_genuine(
    h: Seq<u8>,
    secret: Seq<u8>,
    node_id: Seq<u8>,
    now: u64,
    tolerance: u64,
)
    requires
        auth_verdict(Some(h), secret, node_id, now, tolerance) is Ok,
    ensures
        carried_credential(h) matches Some(c) && c.identity == node_id && fresh(
            now,
            c.timestamp,
            tolerance,
        ) && c.signature == hmac_sha256_of(secret, c.message),
{
}

} // verus!

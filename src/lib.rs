//! Request-handling engine of an authenticating forward/CONNECT proxy node.
//!
//! Every decision the proxy takes on a request — credential validation,
//! destination filtering, the choice between tunnelling and forwarding,
//! request rewriting and tunnel teardown — is a verified function here.
//! Sockets, DNS and HTTP framing are driven by the caller, which feeds the
//! outcomes back into these functions.
pub mod auth;
pub mod filter;
pub mod dispatch;
pub mod forward;
pub mod registration;
pub mod server;
pub mod tunnel;

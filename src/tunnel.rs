//! Teardown of an established tunnel.
//!
//! Two copy tasks move bytes client→target and target→client. When one of
//! them reaches end-of-stream or fails, the tunnel ends: the other endpoint
//! is shut down once, and every later report is ignored.
use vstd::prelude::*;

verus! {

/// An endpoint of a tunnel.
#[derive(Debug, Clone, Copy, PartialEq, Eq, Structural)]
pub enum Side {
    Client,
    Target,
}

pub open spec fn other_side(s: Side) -> Side {
    match s {
        Side::Client => Side::Target,
        Side::Target => Side::Client,
    }
}

/// Which endpoints of a tunnel are still open.
#[derive(Debug, Clone, Copy, PartialEq, Eq, Structural)]
pub struct Relay {
    pub client_open: bool,
    pub target_open: bool,
}

/// The effect of a report that `side` ended: if the tunnel was live, both
/// endpoints end up closed and the other one is to be shut down; otherwise
/// nothing changes and nothing is to be shut down.
pub open spec fn relay_step(r: Relay, side: Side) -> (Relay, Option<Side>) {
    if r.client_open && r.target_open {
        (Relay { client_open: false, target_open: false }, Some(other_side(side)))
    } else {
        (Relay { client_open: false, target_open: false }, None)
    }
}

/// State after a sequence of end reports, and how many shutdowns they
/// caused.
pub open spec fn relay_run(r: Relay, ends: Seq<Side>) -> (Relay, nat)
    decreases ends.len(),
{
    if ends.len() == 0 {
        (r, 0)
    } else {
        let (prev, n) = relay_run(r, ends.drop_last());
        let (next, action) = relay_step(prev, ends.last());
        (next, if action is Some { n + 1 } else { n })
    }
}

impl Relay {
    /// A freshly established tunnel: both endpoints open.
    pub fn new() -> (r: Relay)
        ensures
            r.client_open && r.target_open,
    {
        Relay { client_open: true, target_open: true }
    }

    /// Whether bytes are still being relayed.
    pub fn is_live(&self) -> (r: bool)
        ensures
            r == (self.client_open && self.target_open),
    {
        self.client_open && self.target_open
    }

    /// Records that the copy from or to `side` ended; returns the endpoint to
    /// shut down, if any.
    pub fn on_end(&mut self, side: Side) -> (r: Option<Side>)
        ensures
            (*final(self), r) == relay_step(*old(self), side),
    {
        let live = self.client_open && self.target_open;
        self.client_open = false;
        self.target_open = false;
        if live {
            Some(
                match side {
                    Side::Client => Side::Target,
                    Side::Target => Side::Client,
                },
            )
        } else {
            None
        }
    }
}

/// Ending either side of a live tunnel closes both, and however many end
/// reports follow (from either side), exactly one shutdown is issued, so
/// no endpoint is shut down twice or left open.
pub proof fn lemma_teardown_once(ends: Seq<Side>)
    requires
        ends.len() >= 1,
    ensures
        relay_run(Relay { client_open: true, target_open: true }, ends) == (
            Relay { client_open: false, target_open: false },
            1nat,
        ),
    decreases ends.len(),
{
    let start = Relay { client_open: true, target_open: true };
    if ends.len() == 1 {
        assert(relay_run(start, ends.drop_last()) == (start, 0nat));
    } else {
        lemma_teardown_once(ends.drop_last());
    }
    let (prev, n) = relay_run(start, ends.drop_last());
    assert(relay_run(start, ends) == (relay_step(prev, ends.last()).0, if relay_step(
        prev,
        ends.last(),
    ).1 is Some {
        n + 1
    } else {
        n
    }));
}

} // verus!

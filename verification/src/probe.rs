//! One connection probe: resolve `host:port`, then try the resolved socket
//! addresses in turn until one accepts.
//!
//! The probe decides and a driver acts: the driver resolves and connects,
//! and tells the probe what happened.

use vstd::prelude::*;

verus! {

/// Seconds one connection attempt may take.
pub const CONNECT_TIMEOUT_SECS: u64 = 3;

/// How a probe of one port ended.
#[derive(Clone, Copy, Debug, PartialEq, Eq, Structural)]
pub enum ProbeOutcome {
    /// A resolved address accepted the connection.
    Open,
    /// Every resolved address refused or timed out.
    Closed,
    /// `host:port` could not be resolved. Reported like `Closed`.
    ResolutionFailed,
}

impl ProbeOutcome {
    /// Whether the port is reported as open.
    pub open spec fn counts_as_open(self) -> bool {
        self == ProbeOutcome::Open
    }

    /// Whether the port is reported as open.
    pub fn is_open(&self) -> (open: bool)
        ensures
            open == self.counts_as_open(),
    {
        match self {
            ProbeOutcome::Open => true,
            ProbeOutcome::Closed => false,
            ProbeOutcome::ResolutionFailed => false,
        }
    }
}

/// Where a probe stands.
#[derive(Clone, Copy, Debug, PartialEq, Eq, Structural)]
pub enum ConnectProbe {
    /// The name has yet to be resolved.
    Resolving,
    /// `total` addresses were resolved; those before `next` refused.
    Connecting { next: usize, total: usize },
    /// The probe ended.
    Finished(ProbeOutcome),
}

/// What the driver tells a probe.
#[derive(Clone, Copy, Debug, PartialEq, Eq, Structural)]
pub enum ProbeEvent {
    /// The name resolved to this many socket addresses.
    Resolved(usize),
    /// The name did not resolve.
    ResolutionFailed,
    /// The address last asked for accepted the connection.
    Connected,
    /// The address last asked for refused or timed out.
    Refused,
}

/// What a probe asks of the driver.
#[derive(Clone, Copy, Debug, PartialEq, Eq, Structural)]
pub enum ProbeAction {
    /// Resolve `host:port`.
    Resolve,
    /// Try to connect to the resolved address with this index.
    Connect(usize),
    /// Nothing more: the probe ended so.
    Finish(ProbeOutcome),
}

/// What a probe in this state asks of the driver.
pub open spec fn pending_action(state: ConnectProbe) -> ProbeAction {
    match state {
        ConnectProbe::Resolving => ProbeAction::Resolve,
        ConnectProbe::Connecting { next, total } => ProbeAction::Connect(next),
        ConnectProbe::Finished(outcome) => ProbeAction::Finish(outcome),
    }
}

/// The state that follows `state` on `event`. An event that the state does
/// not wait for changes nothing; a probe that ended stays as it ended.
pub open spec fn next_state(state: ConnectProbe, event: ProbeEvent) -> ConnectProbe {
    match (state, event) {
        (ConnectProbe::Resolving, ProbeEvent::ResolutionFailed) => ConnectProbe::Finished(
            ProbeOutcome::ResolutionFailed,
        ),
        (ConnectProbe::Resolving, ProbeEvent::Resolved(total)) => if total == 0 {
            ConnectProbe::Finished(ProbeOutcome::Closed)
        } else {
            ConnectProbe::Connecting { next: 0, total }
        },
        (ConnectProbe::Connecting { next, total }, ProbeEvent::Connected) => ConnectProbe::Finished(
            ProbeOutcome::Open,
        ),
        (ConnectProbe::Connecting { next, total }, ProbeEvent::Refused) => if next + 1 < total {
            ConnectProbe::Connecting { next: (next + 1) as usize, total }
        } else {
            ConnectProbe::Finished(ProbeOutcome::Closed)
        },
        _ => state,
    }
}

impl ConnectProbe {
    /// A probe that has done nothing yet.
    pub fn new() -> (probe: ConnectProbe)
        ensures
            probe == ConnectProbe::Resolving,
    {
        ConnectProbe::Resolving
    }

    /// What the probe asks of the driver now.
    pub fn action(&self) -> (action: ProbeAction)
        ensures
            action == pending_action(*self),
    {
        match self {
            ConnectProbe::Resolving => ProbeAction::Resolve,
            ConnectProbe::Connecting { next, total } => ProbeAction::Connect(*next),
            ConnectProbe::Finished(outcome) => ProbeAction::Finish(*outcome),
        }
    }

    /// Takes `event` in and returns what the driver is to do next.
    pub fn step(&mut self, event: ProbeEvent) -> (action: ProbeAction)
        ensures
            *final(self) == next_state(*old(self), event),
            action == pending_action(*final(self)),
    {
        let next = match (*self, event) {
            (ConnectProbe::Resolving, ProbeEvent::ResolutionFailed) => ConnectProbe::Finished(
                ProbeOutcome::ResolutionFailed,
            ),
            (ConnectProbe::Resolving, ProbeEvent::Resolved(total)) => {
                if total == 0 {
                    ConnectProbe::Finished(ProbeOutcome::Closed)
                } else {
                    ConnectProbe::Connecting { next: 0, total }
                }
            },
            (ConnectProbe::Connecting { next, total }, ProbeEvent::Connected) => {
                ConnectProbe::Finished(ProbeOutcome::Open)
            },
            (ConnectProbe::Connecting { next, total }, ProbeEvent::Refused) => {
                if next < total && next + 1 < total {
                    ConnectProbe::Connecting { next: next + 1, total }
                } else {
                    ConnectProbe::Finished(ProbeOutcome::Closed)
                }
            },
            (state, _) => state,
        };
        *self = next;
        self.action()
    }

    /// How the probe ended, once it has.
    pub fn outcome(&self) -> (outcome: Option<ProbeOutcome>)
        ensures
            outcome == match *self {
                ConnectProbe::Finished(o) => Some(o),
                _ => None::<ProbeOutcome>,
            },
    {
        match self {
            ConnectProbe::Finished(outcome) => Some(*outcome),
            _ => None,
        }
    }
}

/// The event that tells how one connection attempt went.
pub open spec fn attempt_event(connected: bool) -> ProbeEvent {
    if connected {
        ProbeEvent::Connected
    } else {
        ProbeEvent::Refused
    }
}

/// The state of a probe whose driver has tried, from `state` on, every
/// address that the probe asked for; `accepts[i]` says whether the address
/// with index `i` accepts.
pub open spec fn settle(state: ConnectProbe, accepts: Seq<bool>) -> ConnectProbe
    decreases
        match state {
            ConnectProbe::Connecting { next, total } => total - next,
            _ => 0,
        },
{
    match state {
        ConnectProbe::Connecting { next, total } => if next < total && total == accepts.len() {
            settle(next_state(state, attempt_event(accepts[next as int])), accepts)
        } else {
            state
        },
        _ => state,
    }
}

/// The addresses that a settled probe has tried, from `state` on.
pub open spec fn attempts(state: ConnectProbe, accepts: Seq<bool>) -> Seq<int>
    decreases
        match state {
            ConnectProbe::Connecting { next, total } => total - next,
            _ => 0,
        },
{
    match state {
        ConnectProbe::Connecting { next, total } => if next < total && total == accepts.len() {
            seq![next as int] + attempts(
                next_state(state, attempt_event(accepts[next as int])),
                accepts,
            )
        } else {
            Seq::empty()
        },
        _ => Seq::empty(),
    }
}

/// A probe that stands before address `next` ends open exactly if that
/// address or a later one accepts. It tries the addresses in turn, up to and
/// including the first that accepts, and none after it.
pub proof fn lemma_settle_from(next: usize, accepts: Seq<bool>)
    requires
        next < accepts.len() <= usize::MAX,
    ensures
        ({
            let total = accepts.len() as usize;
            let start = ConnectProbe::Connecting { next, total };
            let tried = attempts(start, accepts);
            &&& settle(start, accepts) == ConnectProbe::Finished(
                if exists|i: int| next <= i < total && accepts[i] {
                    ProbeOutcome::Open
                } else {
                    ProbeOutcome::Closed
                },
            )
            &&& 1 <= tried.len() <= total - next
            &&& forall|k: int| 0 <= k < tried.len() ==> tried[k] == next + k
            &&& forall|k: int| 0 <= k < tried.len() - 1 ==> !accepts[tried[k]]
            &&& tried.len() < total - next ==> accepts[tried.last()]
        }),
    decreases accepts.len() - next,
{
    let total = accepts.len() as usize;
    let start = ConnectProbe::Connecting { next, total };
    let then = next_state(start, attempt_event(accepts[next as int]));
    // one attempt, then what the rest of the probe tries
    assert(attempts(start, accepts) == seq![next as int] + attempts(then, accepts));
    if then is Finished {
        assert(settle(then, accepts) == then);
        assert(attempts(then, accepts) =~= Seq::<int>::empty());
    } else {
        lemma_settle_from((next + 1) as usize, accepts);
        let tried = attempts(start, accepts);
        let rest = attempts(then, accepts);
        assert forall|k: int| 0 < k < tried.len() implies tried[k] == rest[k - 1] by {}
    }
}

/// A whole probe. Where the name does not resolve, the probe ends with
/// `ResolutionFailed`. Where it resolves, the probe ends `Open` exactly if
/// one of the addresses accepts, else `Closed`, and nothing is tried after
/// the first address that accepts.
pub proof fn lemma_probe_outcome(accepts: Seq<bool>)
    requires
        accepts.len() <= usize::MAX,
    ensures
        next_state(ConnectProbe::Resolving, ProbeEvent::ResolutionFailed) == ConnectProbe::Finished(
            ProbeOutcome::ResolutionFailed,
        ),
        settle(
            next_state(ConnectProbe::Resolving, ProbeEvent::Resolved(accepts.len() as usize)),
            accepts,
        ) == ConnectProbe::Finished(
            if exists|i: int| 0 <= i < accepts.len() && accepts[i] {
                ProbeOutcome::Open
            } else {
                ProbeOutcome::Closed
            },
        ),
        forall|state: ConnectProbe, event: ProbeEvent|
            state is Finished ==> #[trigger] next_state(state, event) == state,
{
    if accepts.len() > 0 {
        lemma_settle_from(0, accepts);
    }
}

} // verus!

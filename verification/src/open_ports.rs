//! The open ports found on one host: a set of port numbers kept in ascending
//! order, whatever the order in which the probes report.

use vstd::prelude::*;

verus! {

/// Each element is smaller than every later one: ascending, nothing twice.
pub open spec fn strictly_ascending(ports: Seq<u16>) -> bool {
    forall|i: int, j: int| 0 <= i < j < ports.len() ==> ports[i] < ports[j]
}

/// `after` holds what `before` holds, and `port`.
pub open spec fn holds_also(before: Seq<u16>, port: u16, after: Seq<u16>) -> bool {
    forall|p: u16| after.contains(p) <==> (before.contains(p) || p == port)
}

/// `ports` lists exactly the ports of `set`, ascending.
pub open spec fn lists(ports: Seq<u16>, set: Set<u16>) -> bool {
    &&& strictly_ascending(ports)
    &&& forall|p: u16| ports.contains(p) <==> set.contains(p)
}

/// The ports of `set` in ascending order (of a set that can be listed so:
/// every set that a [`HostOpenPorts`] holds).
pub open spec fn ascending_list(set: Set<u16>) -> Seq<u16> {
    choose|ports: Seq<u16>| lists(ports, set)
}

/// What an ascending sequence holds beside its last port, its part before
/// the last port holds.
proof fn lemma_below_last(ports: Seq<u16>, p: u16)
    requires
        strictly_ascending(ports),
        ports.len() > 0,
    ensures
        ports.drop_last().contains(p) <==> ports.contains(p) && p != ports.last(),
        ports.contains(ports.last()),
{
    let rest = ports.drop_last();
    assert(ports[ports.len() - 1] == ports.last());
    if rest.contains(p) {
        let i = choose|i: int| 0 <= i < rest.len() && rest[i] == p;
        assert(ports[i] == p);
    }
    if ports.contains(p) && p != ports.last() {
        let i = choose|i: int| 0 <= i < ports.len() && ports[i] == p;
        assert(rest[i] == p);
    }
}

/// Two ascending sequences that hold the same ports are the same sequence.
pub proof fn lemma_ascending_unique(a: Seq<u16>, b: Seq<u16>)
    requires
        strictly_ascending(a),
        strictly_ascending(b),
        forall|p: u16| a.contains(p) <==> b.contains(p),
    ensures
        a == b,
    decreases a.len(),
{
    if a.len() == 0 {
        if b.len() > 0 {
            assert(b.contains(b[0]));
        }
        assert(a =~= b);
    } else {
        lemma_below_last(a, a.last());
        assert(b.len() > 0);
        lemma_below_last(b, b.last());
        // each sequence ends with its largest port and holds the last port
        // of the other
        assert(a.last() == b.last());
        assert forall|p: u16| a.drop_last().contains(p) <==> b.drop_last().contains(p) by {
            lemma_below_last(a, p);
            lemma_below_last(b, p);
        }
        lemma_ascending_unique(a.drop_last(), b.drop_last());
        assert(a =~= a.drop_last().push(a.last()));
        assert(b =~= b.drop_last().push(b.last()));
    }
}

/// An ascending sequence is the ascending list of the set of its ports.
pub proof fn lemma_ascending_list(ports: Seq<u16>)
    requires
        strictly_ascending(ports),
    ensures
        ascending_list(ports.to_set()) == ports,
{
    assert(lists(ports, ports.to_set()));
    lemma_ascending_unique(ascending_list(ports.to_set()), ports);
}

/// The open ports of one host.
pub struct HostOpenPorts {
    ports: Vec<u16>,
}

impl View for HostOpenPorts {
    type V = Seq<u16>;

    closed spec fn view(&self) -> Seq<u16> {
        self.ports@
    }
}

/// Putting `port` in at index `at`, before which every port is smaller and
/// from which on every port is larger, keeps the order and adds that port
/// alone.
proof fn lemma_insert_in_order(before: Seq<u16>, at: int, port: u16)
    requires
        strictly_ascending(before),
        0 <= at <= before.len(),
        forall|i: int| 0 <= i < at ==> before[i] < port,
        forall|i: int| at <= i < before.len() ==> port < before[i],
    ensures
        strictly_ascending(before.insert(at, port)),
        holds_also(before, port, before.insert(at, port)),
        !before.contains(port),
{
    let after = before.insert(at, port);
    assert forall|i: int, j: int| 0 <= i < j < after.len() implies after[i] < after[j] by {
        let i0: int = if i < at { i } else { i - 1 };
        let j0: int = if j < at { j } else { j - 1 };
        assert(i != at ==> after[i] == before[i0]);
        assert(j != at ==> after[j] == before[j0]);
    }
    assert forall|p: u16| after.contains(p) <==> (before.contains(p) || p == port) by {
        if after.contains(p) {
            let i = choose|i: int| 0 <= i < after.len() && after[i] == p;
            assert(i < at ==> before[i] == p);
            assert(i > at ==> before[i - 1] == p);
        }
        if before.contains(p) {
            let i = choose|i: int| 0 <= i < before.len() && before[i] == p;
            assert(i < at ==> after[i] == p);
            assert(i >= at ==> after[i + 1] == p);
        }
        if p == port {
            assert(after[at] == p);
        }
    }
}

/// Where `port` stands in `ports`, or would stand: the index of the first
/// port that is not smaller.
fn place_of(ports: &Vec<u16>, port: u16) -> (at: usize)
    requires
        strictly_ascending(ports@),
    ensures
        at <= ports.len(),
        forall|i: int| 0 <= i < at ==> ports@[i] < port,
        forall|i: int| at <= i < ports.len() ==> port <= ports@[i],
{
    let mut low: usize = 0;
    let mut high: usize = ports.len();
    while low < high
        invariant
            low <= high <= ports.len(),
            strictly_ascending(ports@),
            forall|i: int| 0 <= i < low ==> ports@[i] < port,
            forall|i: int| high <= i < ports.len() ==> port <= ports@[i],
        decreases high - low,
    {
        let middle: usize = low + (high - low) / 2;
        if ports[middle] < port {
            low = middle + 1;
        } else {
            high = middle;
        }
    }
    low
}

impl HostOpenPorts {
    #[verifier::type_invariant]
    spec fn ascending(self) -> bool {
        strictly_ascending(self.ports@)
    }

    /// No open port yet.
    pub fn new() -> (open: HostOpenPorts)
        ensures
            open@ == Seq::<u16>::empty(),
    {
        HostOpenPorts { ports: Vec::new() }
    }

    /// Adds `port` at its place in the order; a port that is already there
    /// stays once. Returns whether the port is new.
    pub fn record(&mut self, port: u16) -> (fresh: bool)
        ensures
            strictly_ascending(final(self)@),
            holds_also(old(self)@, port, final(self)@),
            final(self)@.to_set() == old(self)@.to_set().insert(port),
            fresh == !old(self)@.contains(port),
            final(self)@.len() == old(self)@.len() + if fresh { 1int } else { 0int },
    {
        proof {
            use_type_invariant(&*self);
        }
        let mut ports: Vec<u16> = Vec::new();
        std::mem::swap(&mut ports, &mut self.ports);
        let ghost before = ports@;
        let at: usize = place_of(&ports, port);
        let fresh = !(at < ports.len() && ports[at] == port);
        if fresh {
            proof {
                lemma_insert_in_order(before, at as int, port);
            }
            ports.insert(at, port);
        } else {
            assert(before[at as int] == port);
        }
        assert(ports@.to_set() =~= before.to_set().insert(port));
        self.ports = ports;
        fresh
    }

    /// The open ports among `reports`, whatever their order and however often
    /// each was reported.
    pub fn from_reports(reports: &Vec<u16>) -> (open: HostOpenPorts)
        ensures
            strictly_ascending(open@),
            forall|p: u16| open@.contains(p) <==> reports@.contains(p),
    {
        let mut open = HostOpenPorts::new();
        let mut i: usize = 0;
        while i < reports.len()
            invariant
                i <= reports.len(),
                strictly_ascending(open@),
                forall|p: u16| open@.contains(p) <==> reports@.take(i as int).contains(p),
            decreases reports.len() - i,
        {
            open.record(reports[i]);
            proof {
                let seen = reports@.take(i as int);
                let next = reports@.take(i + 1);
                assert(next =~= seen.push(reports@[i as int]));
                assert forall|p: u16| next.contains(p) <==> (seen.contains(p) || p
                    == reports@[i as int]) by {
                    if next.contains(p) {
                        let k = choose|k: int| 0 <= k < next.len() && next[k] == p;
                        assert(k < i ==> seen[k] == p);
                    }
                    if seen.contains(p) {
                        let k = choose|k: int| 0 <= k < seen.len() && seen[k] == p;
                        assert(next[k] == p);
                    }
                    if p == reports@[i as int] {
                        assert(next[i as int] == p);
                    }
                }
            }
            i += 1;
        }
        assert(reports@.take(reports.len() as int) =~= reports@);
        open
    }

    /// How many ports are open.
    pub fn len(&self) -> (count: usize)
        ensures
            count == self@.len(),
    {
        self.ports.len()
    }

    /// Whether no port is open.
    pub fn is_empty(&self) -> (empty: bool)
        ensures
            empty == (self@.len() == 0),
    {
        self.ports.len() == 0
    }

    /// Whether `port` is among the open ones.
    pub fn contains(&self, port: u16) -> (found: bool)
        ensures
            found == self@.contains(port),
    {
        proof {
            use_type_invariant(self);
        }
        let at: usize = place_of(&self.ports, port);
        at < self.ports.len() && self.ports[at] == port
    }

    /// The open ports, ascending.
    pub fn ports(&self) -> (ports: &Vec<u16>)
        ensures
            ports@ == self@,
            strictly_ascending(ports@),
    {
        proof {
            use_type_invariant(self);
        }
        &self.ports
    }
}

} // verus!

//! The scan of one host, as a state machine.
//!
//! `Idle -> PingCheck -> Dispatching -> Collecting -> Reporting -> Done`, with
//! `PingCheck` left out where the reachability probe is prohibited, and
//! `Done` reached at once from `PingCheck` where the host is unreachable.
//! The scanner counts the probes that are still out, so that no worker has
//! to block until the last of them has reported.

use vstd::prelude::*;
use crate::flags::ScanFlags;
use crate::open_ports::{ascending_list, lemma_ascending_list, HostOpenPorts};
use crate::ports::{candidate_ports, is_candidate, is_planned, probe_plan};
use crate::probe::ProbeOutcome;
use crate::reach::Reachability;
use crate::report::{render_report, report_text};

verus! {

/// Where the scan of a host stands.
#[derive(Clone, Copy, Debug, PartialEq, Eq, Structural)]
pub enum HostScanState {
    /// Nothing was done yet.
    Idle,
    /// The reachability probe is out.
    PingCheck,
    /// The connection probes are being submitted.
    Dispatching,
    /// All connection probes were submitted; some have yet to report.
    Collecting,
    /// Every probe has reported; the report is being emitted.
    Reporting,
    /// The scan is over.
    Done,
}

/// What the driver tells a scanner.
#[derive(Clone, Copy, Debug, PartialEq, Eq, Structural)]
pub enum HostScanEvent {
    /// The scan is to begin.
    Start,
    /// The reachability probe ended so.
    PingFinished(Reachability),
    /// Every connection probe that was asked for is submitted.
    ProbesSubmitted,
    /// The connection probe of `port` ended so.
    ProbeFinished { port: u16, outcome: ProbeOutcome },
    /// The report was emitted.
    ReportEmitted,
}

/// What a scanner asks of the driver.
#[derive(Debug, PartialEq, Eq)]
pub enum HostScanAction {
    /// Probe the host's reachability, then tell `PingFinished`.
    Ping,
    /// Submit one connection probe for each of `ports`, tell `ProbeFinished`
    /// for each as it ends, and `ProbesSubmitted` once all are submitted.
    /// Where `advise_privilege` is set, the reachability probe lacked the
    /// privilege to run: claim the advisory first.
    SubmitProbes { ports: Vec<u16>, advise_privilege: bool },
    /// Nothing now: probes are still out.
    Wait,
    /// Emit `text` as one block, then tell `ReportEmitted`.
    EmitReport { text: String },
    /// Nothing more: the scan is over.
    Finish,
    /// The event was not one that the scanner waits for: nothing changed.
    Ignored,
}

/// A [`HostScanAction`] as a mathematical value.
pub enum HostScanStep {
    Ping,
    SubmitProbes { ports: Seq<u16>, advise_privilege: bool },
    Wait,
    EmitReport { text: Seq<char> },
    Finish,
    Ignored,
}

impl View for HostScanAction {
    type V = HostScanStep;

    open spec fn view(&self) -> HostScanStep {
        match *self {
            HostScanAction::Ping => HostScanStep::Ping,
            HostScanAction::SubmitProbes { ports, advise_privilege } => HostScanStep::SubmitProbes {
                ports: ports@,
                advise_privilege,
            },
            HostScanAction::Wait => HostScanStep::Wait,
            HostScanAction::EmitReport { text } => HostScanStep::EmitReport { text: text@ },
            HostScanAction::Finish => HostScanStep::Finish,
            HostScanAction::Ignored => HostScanStep::Ignored,
        }
    }
}

/// A [`HostScanner`] as a mathematical value.
#[verifier::ext_equal]
pub struct HostScan {
    /// The address of the host.
    pub host: u32,
    /// The options of the scan.
    pub flags: ScanFlags,
    /// Where the scan stands.
    pub state: HostScanState,
    /// How many submitted probes have yet to report.
    pub pending: nat,
    /// The ports found open so far.
    pub open: Set<u16>,
}

/// A scan that has not begun.
pub open spec fn idle_scan(host: u32, flags: ScanFlags) -> HostScan {
    HostScan {
        host,
        flags,
        state: HostScanState::Idle,
        pending: 0,
        open: Set::empty(),
    }
}

/// The scan in another state.
pub open spec fn moved(scan: HostScan, state: HostScanState) -> HostScan {
    HostScan { state, ..scan }
}

/// The scan goes on to submit its probes: one for each port of its plan.
pub open spec fn dispatch(scan: HostScan, advise_privilege: bool) -> (HostScan, HostScanStep) {
    (
        HostScan {
            state: HostScanState::Dispatching,
            pending: probe_plan(scan.flags.scan_all_ports).len(),
            ..scan
        },
        HostScanStep::SubmitProbes { ports: probe_plan(scan.flags.scan_all_ports), advise_privilege },
    )
}

/// The scan goes on to report the ports that it found open, ascending.
pub open spec fn report(scan: HostScan) -> (HostScan, HostScanStep) {
    (
        moved(scan, HostScanState::Reporting),
        HostScanStep::EmitReport { text: report_text(scan.host, ascending_list(scan.open)) },
    )
}

/// Whether the scan waits for a report on `port`: a probe is out, and the
/// port is one that the scan probes.
pub open spec fn awaits(scan: HostScan, port: u16) -> bool {
    scan.pending > 0 && is_planned(port, scan.flags.scan_all_ports)
}

/// The scan after one of its probes has reported.
pub open spec fn recorded(scan: HostScan, port: u16, outcome: ProbeOutcome) -> HostScan {
    HostScan {
        pending: (scan.pending - 1) as nat,
        open: if outcome.counts_as_open() {
            scan.open.insert(port)
        } else {
            scan.open
        },
        ..scan
    }
}

/// The scan that follows `scan` on `event`, and what the driver is asked to
/// do.
///
/// Probes may report while others are still being submitted. The scan goes
/// on to report with the event that leaves no probe out once all are
/// submitted: the last report, or `ProbesSubmitted` itself where every probe
/// has reported by then. An event that the scan does not wait for in its
/// state is ignored.
pub open spec fn host_step(scan: HostScan, event: HostScanEvent) -> (HostScan, HostScanStep) {
    match (scan.state, event) {
        (HostScanState::Idle, HostScanEvent::Start) => if scan.flags.ping_prohibited {
            dispatch(scan, false)
        } else {
            (moved(scan, HostScanState::PingCheck), HostScanStep::Ping)
        },
        (HostScanState::PingCheck, HostScanEvent::PingFinished(found)) => match found {
            Reachability::Reachable => dispatch(scan, false),
            Reachability::PermissionDenied => dispatch(scan, true),
            Reachability::Unreachable => (moved(scan, HostScanState::Done), HostScanStep::Finish),
        },
        (HostScanState::Dispatching, HostScanEvent::ProbeFinished { port, outcome }) => if awaits(
            scan,
            port,
        ) {
            (recorded(scan, port, outcome), HostScanStep::Wait)
        } else {
            (scan, HostScanStep::Ignored)
        },
        (HostScanState::Dispatching, HostScanEvent::ProbesSubmitted) => if scan.pending == 0 {
            report(scan)
        } else {
            (moved(scan, HostScanState::Collecting), HostScanStep::Wait)
        },
        (HostScanState::Collecting, HostScanEvent::ProbeFinished { port, outcome }) => if awaits(
            scan,
            port,
        ) {
            let next = recorded(scan, port, outcome);
            if next.pending == 0 {
                report(next)
            } else {
                (next, HostScanStep::Wait)
            }
        } else {
            (scan, HostScanStep::Ignored)
        },
        (HostScanState::Reporting, HostScanEvent::ReportEmitted) => (
            moved(scan, HostScanState::Done),
            HostScanStep::Finish,
        ),
        _ => (scan, HostScanStep::Ignored),
    }
}

/// The scan of one host.
pub struct HostScanner {
    host: u32,
    flags: ScanFlags,
    state: HostScanState,
    pending: usize,
    open: HostOpenPorts,
}

impl View for HostScanner {
    type V = HostScan;

    closed spec fn view(&self) -> HostScan {
        HostScan {
            host: self.host,
            flags: self.flags,
            state: self.state,
            pending: self.pending as nat,
            open: self.open@.to_set(),
        }
    }
}

/// Prepares the scan of the host with address `ip_addr`. Nothing happens
/// until the scanner is told to start.
pub fn scan_ports_from_ip(ip_addr: u32, flags: ScanFlags) -> (scanner: HostScanner)
    ensures
        scanner@ == idle_scan(ip_addr, flags),
{
    let open = HostOpenPorts::new();
    assert(open@.to_set() =~= Set::<u16>::empty());
    HostScanner { host: ip_addr, flags, state: HostScanState::Idle, pending: 0, open }
}

impl HostScanner {
    /// The address of the host.
    pub fn host(&self) -> (host: u32)
        ensures
            host == self@.host,
    {
        self.host
    }

    /// The options of the scan.
    pub fn flags(&self) -> (flags: &ScanFlags)
        ensures
            *flags == self@.flags,
    {
        &self.flags
    }

    /// Where the scan stands.
    pub fn state(&self) -> (state: HostScanState)
        ensures
            state == self@.state,
    {
        self.state
    }

    /// How many submitted probes have yet to report.
    pub fn pending(&self) -> (pending: usize)
        ensures
            pending == self@.pending,
    {
        self.pending
    }

    /// The ports found open so far, ascending.
    pub fn open_ports(&self) -> (open: &HostOpenPorts)
        ensures
            open@.to_set() == self@.open,
            open@ == ascending_list(self@.open),
    {
        let ports = self.open.ports();
        proof {
            lemma_ascending_list(ports@);
        }
        &self.open
    }

    fn begin_dispatch(&mut self, advise_privilege: bool) -> (action: HostScanAction)
        ensures
            final(self)@ == dispatch(old(self)@, advise_privilege).0,
            action@ == dispatch(old(self)@, advise_privilege).1,
    {
        let ports = candidate_ports(self.flags.scan_all_ports);
        self.state = HostScanState::Dispatching;
        self.pending = ports.len();
        HostScanAction::SubmitProbes { ports, advise_privilege }
    }

    fn begin_report(&mut self) -> (action: HostScanAction)
        ensures
            final(self)@ == report(old(self)@).0,
            action@ == report(old(self)@).1,
    {
        let ports = self.open.ports();
        proof {
            lemma_ascending_list(ports@);
        }
        let text = render_report(self.host, &self.open);
        self.state = HostScanState::Reporting;
        HostScanAction::EmitReport { text }
    }

    fn record(&mut self, port: u16, outcome: ProbeOutcome)
        requires
            awaits(old(self)@, port),
        ensures
            final(self)@ == recorded(old(self)@, port, outcome),
    {
        self.pending = self.pending - 1;
        if outcome.is_open() {
            self.open.record(port);
        }
    }

    /// Takes `event` in and returns what the driver is to do next.
    pub fn step(&mut self, event: HostScanEvent) -> (action: HostScanAction)
        ensures
            final(self)@ == host_step(old(self)@, event).0,
            action@ == host_step(old(self)@, event).1,
    {
        match (self.state, event) {
            (HostScanState::Idle, HostScanEvent::Start) => {
                if self.flags.ping_prohibited {
                    self.begin_dispatch(false)
                } else {
                    self.state = HostScanState::PingCheck;
                    HostScanAction::Ping
                }
            },
            (HostScanState::PingCheck, HostScanEvent::PingFinished(found)) => {
                match found {
                    Reachability::Reachable => self.begin_dispatch(false),
                    Reachability::PermissionDenied => self.begin_dispatch(true),
                    Reachability::Unreachable => {
                        self.state = HostScanState::Done;
                        HostScanAction::Finish
                    },
                }
            },
            (HostScanState::Dispatching, HostScanEvent::ProbeFinished { port, outcome }) => {
                if self.pending > 0 && is_candidate(port, self.flags.scan_all_ports) {
                    self.record(port, outcome);
                    HostScanAction::Wait
                } else {
                    HostScanAction::Ignored
                }
            },
            (HostScanState::Dispatching, HostScanEvent::ProbesSubmitted) => {
                if self.pending == 0 {
                    self.begin_report()
                } else {
                    self.state = HostScanState::Collecting;
                    HostScanAction::Wait
                }
            },
            (HostScanState::Collecting, HostScanEvent::ProbeFinished { port, outcome }) => {
                if self.pending > 0 && is_candidate(port, self.flags.scan_all_ports) {
                    self.record(port, outcome);
                    if self.pending == 0 {
                        self.begin_report()
                    } else {
                        HostScanAction::Wait
                    }
                } else {
                    HostScanAction::Ignored
                }
            },
            (HostScanState::Reporting, HostScanEvent::ReportEmitted) => {
                self.state = HostScanState::Done;
                HostScanAction::Finish
            },
            _ => HostScanAction::Ignored,
        }
    }
}

} // verus!

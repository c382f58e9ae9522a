//! What holds of every run of a host scan, whatever the driver tells it and
//! in whatever order the probes report.

use vstd::prelude::*;
use crate::flags::ScanFlags;
use crate::host::{
    awaits, host_step, idle_scan, recorded, report, HostScan, HostScanEvent, HostScanState,
    HostScanStep,
};
use crate::ports::{
    is_planned, label_of, lemma_full_plan_exact, lemma_well_known_plan_exact, probe_plan,
};
use crate::probe::ProbeOutcome;
use crate::reach::Reachability;

verus! {

/// The scan after the driver has told it `events`, one after the other.
pub open spec fn after(scan: HostScan, events: Seq<HostScanEvent>) -> HostScan
    decreases events.len(),
{
    if events.len() == 0 {
        scan
    } else {
        host_step(after(scan, events.drop_last()), events.last()).0
    }
}

/// The ports that a step asks to probe.
pub open spec fn asked(step: HostScanStep) -> Seq<u16> {
    match step {
        HostScanStep::SubmitProbes { ports, advise_privilege } => ports,
        _ => Seq::empty(),
    }
}

/// The ports that the scan asked to probe while it was told `events`, in
/// the order in which it asked.
pub open spec fn probed(scan: HostScan, events: Seq<HostScanEvent>) -> Seq<u16>
    decreases events.len(),
{
    if events.len() == 0 {
        Seq::empty()
    } else {
        probed(scan, events.drop_last()) + asked(
            host_step(after(scan, events.drop_last()), events.last()).1,
        )
    }
}

/// What holds of every scan that began idle: nothing is out and nothing is
/// open before the probes are submitted, no more probes are out than the
/// plan has ports, only planned ports are open, and the scan collects
/// exactly while probes are out.
pub open spec fn consistent(scan: HostScan) -> bool {
    &&& scan.pending <= probe_plan(scan.flags.scan_all_ports).len()
    &&& forall|port: u16| scan.open.contains(port) ==> is_planned(port, scan.flags.scan_all_ports)
    &&& (scan.state is Idle || scan.state is PingCheck) ==> scan.pending == 0 && scan.open
        == Set::<u16>::empty()
    &&& scan.state is Collecting ==> scan.pending > 0
    &&& (scan.state is Reporting || scan.state is Done) ==> scan.pending == 0
}

/// How far a scan has come.
pub open spec fn stage(state: HostScanState) -> nat {
    match state {
        HostScanState::Idle => 0,
        HostScanState::PingCheck => 1,
        HostScanState::Dispatching => 2,
        HostScanState::Collecting => 3,
        HostScanState::Reporting => 4,
        HostScanState::Done => 5,
    }
}

/// One step keeps a scan consistent, never takes it back to an earlier
/// state, and leaves the host and the options as they were. Probes are asked
/// for only on the way from `Idle` or `PingCheck` to `Dispatching`, and then
/// for the whole plan. An ignored event changes nothing, and a scan that is
/// done ignores every event.
pub proof fn lemma_step(scan: HostScan, event: HostScanEvent)
    ensures
        consistent(scan) ==> consistent(host_step(scan, event).0),
        stage(host_step(scan, event).0.state) >= stage(scan.state),
        host_step(scan, event).0.host == scan.host,
        host_step(scan, event).0.flags == scan.flags,
        host_step(scan, event).1 is SubmitProbes ==> {
            &&& scan.state is Idle || scan.state is PingCheck
            &&& host_step(scan, event).0.state is Dispatching
            &&& asked(host_step(scan, event).1) == probe_plan(scan.flags.scan_all_ports)
        },
        host_step(scan, event).1 is Ignored ==> host_step(scan, event).0 == scan,
        scan.state is Done ==> host_step(scan, event) == (scan, HostScanStep::Ignored),
{
}

/// A scan that is told `first` and then `second` stands where the scan
/// stands that is told `second` after it was told `first`; likewise for the
/// ports that it asked to probe.
pub proof fn lemma_after_concat(
    scan: HostScan,
    first: Seq<HostScanEvent>,
    second: Seq<HostScanEvent>,
)
    ensures
        after(scan, first + second) == after(after(scan, first), second),
        probed(scan, first + second) == probed(scan, first) + probed(after(scan, first), second),
    decreases second.len(),
{
    if second.len() == 0 {
        assert(first + second =~= first);
    } else {
        assert((first + second).drop_last() =~= first + second.drop_last());
        lemma_after_concat(scan, first, second.drop_last());
        let mid = after(scan, first);
        let step = asked(host_step(after(mid, second.drop_last()), second.last()).1);
        assert(probed(scan, first) + probed(mid, second.drop_last()) + step =~= probed(scan, first)
            + (probed(mid, second.drop_last()) + step));
    }
}

/// A scan that is told a single event takes one step.
pub proof fn lemma_after_one(scan: HostScan, event: HostScanEvent)
    ensures
        after(scan, seq![event]) == host_step(scan, event).0,
        probed(scan, seq![event]) == asked(host_step(scan, event).1),
        last_step(scan, seq![event]) == host_step(scan, event).1,
{
    let events = seq![event];
    assert(events.drop_last() =~= Seq::<HostScanEvent>::empty());
    assert(after(scan, events.drop_last()) == scan);
    assert(probed(scan, events.drop_last()) =~= Seq::<u16>::empty());
}

/// Every run keeps a scan consistent, never takes it back to an earlier
/// state, and leaves the host and the options as they were.
pub proof fn lemma_run_consistent(scan: HostScan, events: Seq<HostScanEvent>)
    requires
        consistent(scan),
    ensures
        consistent(after(scan, events)),
        stage(after(scan, events).state) >= stage(scan.state),
        after(scan, events).host == scan.host,
        after(scan, events).flags == scan.flags,
    decreases events.len(),
{
    if events.len() > 0 {
        lemma_run_consistent(scan, events.drop_last());
        lemma_step(after(scan, events.drop_last()), events.last());
    }
}

/// Whatever a scan is told from its beginning on, it asks for probes at most
/// once, and then for exactly the ports of its plan: none while it is idle
/// or checks reachability, the whole plan once it dispatches, collects or
/// reports. A scan that is done has asked for the whole plan, or (the host
/// was unreachable) for nothing, and then no port is open.
pub proof fn lemma_probes_follow_plan(host: u32, flags: ScanFlags, events: Seq<HostScanEvent>)
    ensures
        ({
            let end = after(idle_scan(host, flags), events);
            let ports = probed(idle_scan(host, flags), events);
            &&& (end.state is Idle || end.state is PingCheck) ==> ports == Seq::<u16>::empty()
            &&& sweeping(end.state) ==> ports == probe_plan(flags.scan_all_ports)
            &&& end.state is Done ==> ports == probe_plan(flags.scan_all_ports) || (ports == Seq::<
                u16,
            >::empty() && end.open == Set::<u16>::empty())
        }),
    decreases events.len(),
{
    let start = idle_scan(host, flags);
    if events.len() > 0 {
        lemma_probes_follow_plan(host, flags, events.drop_last());
        lemma_run_consistent(start, events.drop_last());
        lemma_step(after(start, events.drop_last()), events.last());
    }
}

/// Whether a scan in this state has asked for its probes and has not yet
/// finished.
pub open spec fn sweeping(state: HostScanState) -> bool {
    state is Dispatching || state is Collecting || state is Reporting
}

/// A scan of the well-known ports that sweeps its host has asked to probe
/// exactly the ports of the well-known table, each of them once, whatever it
/// was told.
pub proof fn lemma_default_sweep_probes_the_table(
    host: u32,
    flags: ScanFlags,
    events: Seq<HostScanEvent>,
)
    requires
        !flags.scan_all_ports,
        sweeping(after(idle_scan(host, flags), events).state),
    ensures
        probed(idle_scan(host, flags), events).no_duplicates(),
        forall|port: u16|
            probed(idle_scan(host, flags), events).contains(port) <==> label_of(port) is Some,
{
    lemma_probes_follow_plan(host, flags, events);
    lemma_well_known_plan_exact();
}

/// A scan of all ports that sweeps its host has asked to probe every port
/// from 0 to 65535, each of them once, whatever it was told.
pub proof fn lemma_full_sweep_probes_every_port(
    host: u32,
    flags: ScanFlags,
    events: Seq<HostScanEvent>,
)
    requires
        flags.scan_all_ports,
        sweeping(after(idle_scan(host, flags), events).state),
    ensures
        probed(idle_scan(host, flags), events).no_duplicates(),
        probed(idle_scan(host, flags), events).len() == 65536,
        forall|port: u16| probed(idle_scan(host, flags), events).contains(port),
{
    lemma_probes_follow_plan(host, flags, events);
    lemma_full_plan_exact();
}

/// A scan that is done stays as it is and asks for nothing.
pub proof fn lemma_done_stays(scan: HostScan, events: Seq<HostScanEvent>)
    requires
        scan.state is Done,
    ensures
        after(scan, events) == scan,
        probed(scan, events) == Seq::<u16>::empty(),
    decreases events.len(),
{
    if events.len() > 0 {
        lemma_done_stays(scan, events.drop_last());
        lemma_step(scan, events.last());
    }
}

/// A host that the reachability probe finds unreachable is done at once: no
/// port of it is ever probed and none is reported open, whatever the driver
/// tells the scan afterwards.
pub proof fn lemma_unreachable_host_is_skipped(
    host: u32,
    flags: ScanFlags,
    later: Seq<HostScanEvent>,
)
    requires
        !flags.ping_prohibited,
    ensures
        ({
            let start = idle_scan(host, flags);
            let events = seq![
                HostScanEvent::Start,
                HostScanEvent::PingFinished(Reachability::Unreachable),
            ] + later;
            &&& after(start, events).state is Done
            &&& after(start, events).open == Set::<u16>::empty()
            &&& probed(start, events) == Seq::<u16>::empty()
        }),
{
    let start = idle_scan(host, flags);
    let begin = seq![HostScanEvent::Start];
    let verdict = seq![HostScanEvent::PingFinished(Reachability::Unreachable)];
    let checking = host_step(start, HostScanEvent::Start).0;
    let done = host_step(checking, HostScanEvent::PingFinished(Reachability::Unreachable)).0;
    lemma_after_one(start, HostScanEvent::Start);
    lemma_after_one(checking, HostScanEvent::PingFinished(Reachability::Unreachable));
    lemma_after_concat(start, begin, verdict);
    assert(begin + verdict =~= seq![
        HostScanEvent::Start,
        HostScanEvent::PingFinished(Reachability::Unreachable),
    ]);
    lemma_after_concat(start, begin + verdict, later);
    lemma_done_stays(done, later);
}

/// The events that tell these probe reports, in their order.
pub open spec fn report_events(reports: Seq<(u16, ProbeOutcome)>) -> Seq<HostScanEvent> {
    Seq::new(
        reports.len(),
        |i: int| HostScanEvent::ProbeFinished { port: reports[i].0, outcome: reports[i].1 },
    )
}

/// The ports that these reports found open.
pub open spec fn found_open(reports: Seq<(u16, ProbeOutcome)>) -> Set<u16> {
    Set::new(
        |port: u16|
            exists|i: int|
                0 <= i < reports.len() && reports[i].0 == port
                    && #[trigger] reports[i].1.counts_as_open(),
    )
}

/// Every report is on a port that the scan probes.
pub open spec fn all_planned(reports: Seq<(u16, ProbeOutcome)>, scan_all: bool) -> bool {
    forall|i: int| 0 <= i < reports.len() ==> is_planned(#[trigger] reports[i].0, scan_all)
}

/// What the scan asked of the driver when it was told the last of `events`.
pub open spec fn last_step(scan: HostScan, events: Seq<HostScanEvent>) -> HostScanStep {
    host_step(after(scan, events.drop_last()), events.last()).1
}

/// Reports found open what either part of them found open.
pub proof fn lemma_found_open_concat(a: Seq<(u16, ProbeOutcome)>, b: Seq<(u16, ProbeOutcome)>)
    ensures
        found_open(a + b) == found_open(a).union(found_open(b)),
{
    let whole = a + b;
    assert forall|port: u16| found_open(whole).contains(port) <==> (found_open(a).contains(port)
        || found_open(b).contains(port)) by {
        if found_open(a).contains(port) {
            let i = choose|i: int|
                0 <= i < a.len() && a[i].0 == port && #[trigger] a[i].1.counts_as_open();
            assert(whole[i].0 == port && whole[i].1.counts_as_open());
        }
        if found_open(b).contains(port) {
            let i = choose|i: int|
                0 <= i < b.len() && b[i].0 == port && #[trigger] b[i].1.counts_as_open();
            assert(whole[i + a.len()].0 == port && whole[i + a.len()].1.counts_as_open());
        }
        if found_open(whole).contains(port) {
            let i = choose|i: int|
                0 <= i < whole.len() && whole[i].0 == port
                    && #[trigger] whole[i].1.counts_as_open();
            assert(i < a.len() ==> a[i] == whole[i]);
            assert(i >= a.len() ==> b[i - a.len()] == whole[i]);
        }
    }
}

/// One report finds its port open or nothing.
pub proof fn lemma_found_open_one(port: u16, outcome: ProbeOutcome)
    ensures
        found_open(seq![(port, outcome)]) == if outcome.counts_as_open() {
            Set::<u16>::empty().insert(port)
        } else {
            Set::<u16>::empty()
        },
{
    let single = seq![(port, outcome)];
    assert forall|p: u16| found_open(single).contains(p) <==> (outcome.counts_as_open() && p
        == port) by {
        if outcome.counts_as_open() && p == port {
            assert(single[0].0 == p && single[0].1.counts_as_open());
        }
    }
}

/// Leaving the last report out leaves reports on planned ports.
proof fn lemma_planned_without_last(reports: Seq<(u16, ProbeOutcome)>, scan_all: bool)
    requires
        all_planned(reports, scan_all),
        reports.len() > 0,
    ensures
        all_planned(reports.drop_last(), scan_all),
        is_planned(reports.last().0, scan_all),
        reports == reports.drop_last() + seq![reports.last()],
        report_events(reports).drop_last() == report_events(reports.drop_last()),
        report_events(reports).last() == (HostScanEvent::ProbeFinished {
            port: reports.last().0,
            outcome: reports.last().1,
        }),
{
    let earlier = reports.drop_last();
    assert forall|i: int| 0 <= i < earlier.len() implies is_planned(
        #[trigger] earlier[i].0,
        scan_all,
    ) by {
        assert(earlier[i] == reports[i]);
    }
    assert(is_planned(reports[reports.len() - 1].0, scan_all));
    assert(reports =~= earlier + seq![reports.last()]);
    assert(report_events(reports).drop_last() =~= report_events(earlier));
}

/// While probes are out, the scan takes every report on a planned port in:
/// after fewer reports than probes are out, as many fewer probes are out,
/// and the open ports are those that were open before and those that the
/// reports found open. Nothing else changes, and nothing is asked to be
/// probed.
pub proof fn lemma_reports_taken_in(scan: HostScan, reports: Seq<(u16, ProbeOutcome)>)
    requires
        scan.state is Dispatching || scan.state is Collecting,
        all_planned(reports, scan.flags.scan_all_ports),
        reports.len() <= scan.pending,
        scan.state is Collecting ==> reports.len() < scan.pending,
    ensures
        after(scan, report_events(reports)) == (HostScan {
            pending: (scan.pending - reports.len()) as nat,
            open: scan.open.union(found_open(reports)),
            ..scan
        }),
        probed(scan, report_events(reports)) == Seq::<u16>::empty(),
    decreases reports.len(),
{
    if reports.len() == 0 {
        assert(scan.open.union(found_open(reports)) =~= scan.open);
    } else {
        let earlier = reports.drop_last();
        let (port, outcome) = reports.last();
        lemma_planned_without_last(reports, scan.flags.scan_all_ports);
        lemma_reports_taken_in(scan, earlier);
        let before = after(scan, report_events(earlier));
        assert(awaits(before, port));
        lemma_found_open_concat(earlier, seq![(port, outcome)]);
        lemma_found_open_one(port, outcome);
        assert(recorded(before, port, outcome).open =~= scan.open.union(found_open(reports)));
    }
}

/// The order in which the probes report is of no account: two runs of
/// reports that found the same ports open leave the scan in the same state,
/// with the same ports open.
pub proof fn lemma_report_order_is_irrelevant(
    scan: HostScan,
    one: Seq<(u16, ProbeOutcome)>,
    other: Seq<(u16, ProbeOutcome)>,
)
    requires
        scan.state is Dispatching || scan.state is Collecting,
        all_planned(one, scan.flags.scan_all_ports),
        all_planned(other, scan.flags.scan_all_ports),
        one.len() == other.len() <= scan.pending,
        scan.state is Collecting ==> one.len() < scan.pending,
        found_open(one) == found_open(other),
    ensures
        after(scan, report_events(one)) == after(scan, report_events(other)),
{
    lemma_reports_taken_in(scan, one);
    lemma_reports_taken_in(scan, other);
}

/// A whole sweep. A scan that dispatches is told, in any order, one report
/// for each port of its plan: `early` before all probes are submitted and
/// `late` after. With the last of these events the scan goes on to report,
/// no probe is out, and it asks to emit the report of exactly the ports that
/// the reports found open, ascending, whatever the order of the reports.
pub proof fn lemma_sweep_reports_what_was_found(
    scan: HostScan,
    early: Seq<(u16, ProbeOutcome)>,
    late: Seq<(u16, ProbeOutcome)>,
)
    requires
        scan.state is Dispatching,
        scan.pending == early.len() + late.len(),
        all_planned(early, scan.flags.scan_all_ports),
        all_planned(late, scan.flags.scan_all_ports),
    ensures
        ({
            let events = report_events(early) + seq![HostScanEvent::ProbesSubmitted]
                + report_events(late);
            let found = scan.open.union(found_open(early + late));
            &&& after(scan, events) == (HostScan {
                state: HostScanState::Reporting,
                pending: 0,
                open: found,
                ..scan
            })
            &&& last_step(scan, events) == report(after(scan, events)).1
            &&& probed(scan, events) == Seq::<u16>::empty()
        }),
{
    let submitted = seq![HostScanEvent::ProbesSubmitted];
    let head = report_events(early) + submitted;
    let events = head + report_events(late);
    let dispatched = after(scan, report_events(early));
    let collecting = host_step(dispatched, HostScanEvent::ProbesSubmitted).0;
    lemma_reports_taken_in(scan, early);
    lemma_after_one(dispatched, HostScanEvent::ProbesSubmitted);
    lemma_after_concat(scan, report_events(early), submitted);
    lemma_found_open_concat(early, late);
    if late.len() == 0 {
        assert(events =~= head);
        assert(head.drop_last() =~= report_events(early));
        assert(found_open(late) =~= Set::<u16>::empty());
        assert(collecting.open =~= scan.open.union(found_open(early + late)));
    } else {
        let most = late.drop_last();
        let (port, outcome) = late.last();
        lemma_planned_without_last(late, scan.flags.scan_all_ports);
        lemma_reports_taken_in(collecting, most);
        let almost = after(collecting, report_events(most));
        lemma_after_concat(scan, head, report_events(most));
        assert(events.drop_last() =~= head + report_events(most));
        assert(events.last() == report_events(late).last());
        assert(awaits(almost, port));
        lemma_found_open_concat(most, seq![(port, outcome)]);
        lemma_found_open_one(port, outcome);
        assert(recorded(almost, port, outcome).open =~= scan.open.union(
            found_open(early + late),
        ));
    }
}

} // verus!

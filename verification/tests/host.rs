use netscanner::flags::ScanFlags;
use netscanner::host::{
    scan_ports_from_ip, HostScanAction, HostScanEvent, HostScanState, HostScanner,
};
use netscanner::ports::candidate_ports;
use netscanner::probe::ProbeOutcome;
use netscanner::reach::{Reachability, SudoWarningLatch, PRIVILEGE_ADVISORY};

const LOCALHOST: u32 = 0x7F00_0001;

fn finished(port: u16, outcome: ProbeOutcome) -> HostScanEvent {
    HostScanEvent::ProbeFinished { port, outcome }
}

fn dispatched(scan_all: bool) -> (HostScanner, Vec<u16>) {
    let mut scanner = scan_ports_from_ip(LOCALHOST, ScanFlags::new(scan_all, true, 8));
    match scanner.step(HostScanEvent::Start) {
        HostScanAction::SubmitProbes { ports, advise_privilege } => {
            assert!(!advise_privilege);
            (scanner, ports)
        }
        other => panic!("unexpected action {:?}", other),
    }
}

#[test]
fn a_new_scan_is_idle() {
    let scanner = scan_ports_from_ip(LOCALHOST, ScanFlags::new(false, false, 8));
    assert_eq!(scanner.state(), HostScanState::Idle);
    assert_eq!(scanner.host(), LOCALHOST);
    assert_eq!(scanner.pending(), 0);
    assert!(scanner.open_ports().is_empty());
}

#[test]
fn a_scan_keeps_its_options() {
    let mut scanner = scan_ports_from_ip(LOCALHOST, ScanFlags::new(true, true, 17));
    assert!(scanner.flags().scan_all_ports);
    assert!(scanner.flags().ping_prohibited);
    assert_eq!(scanner.flags().max_threads, 17);
    scanner.step(HostScanEvent::Start);
    scanner.step(HostScanEvent::ProbesSubmitted);
    assert_eq!(scanner.flags().max_threads, 17);
}

#[test]
fn a_scan_pings_first_unless_prohibited() {
    let mut scanner = scan_ports_from_ip(LOCALHOST, ScanFlags::new(false, false, 8));
    assert_eq!(scanner.step(HostScanEvent::Start), HostScanAction::Ping);
    assert_eq!(scanner.state(), HostScanState::PingCheck);
}

#[test]
fn a_scan_without_ping_dispatches_at_once() {
    let mut scanner = scan_ports_from_ip(LOCALHOST, ScanFlags::new(false, true, 8));
    let action = scanner.step(HostScanEvent::Start);
    assert_eq!(
        action,
        HostScanAction::SubmitProbes { ports: candidate_ports(false), advise_privilege: false }
    );
    assert_eq!(scanner.state(), HostScanState::Dispatching);
    assert_eq!(scanner.pending(), 67);
}

#[test]
fn a_reachable_host_is_swept() {
    let mut scanner = scan_ports_from_ip(LOCALHOST, ScanFlags::new(true, false, 8));
    scanner.step(HostScanEvent::Start);
    let action = scanner.step(HostScanEvent::PingFinished(Reachability::Reachable));
    assert_eq!(
        action,
        HostScanAction::SubmitProbes { ports: candidate_ports(true), advise_privilege: false }
    );
    assert_eq!(scanner.pending(), 65536);
}

#[test]
fn an_unreachable_host_is_done_without_a_probe() {
    let mut scanner = scan_ports_from_ip(LOCALHOST, ScanFlags::new(false, false, 8));
    scanner.step(HostScanEvent::Start);
    let action = scanner.step(HostScanEvent::PingFinished(Reachability::Unreachable));
    assert_eq!(action, HostScanAction::Finish);
    assert_eq!(scanner.state(), HostScanState::Done);
    assert_eq!(scanner.pending(), 0);
    assert!(scanner.open_ports().is_empty());
    assert_eq!(scanner.step(HostScanEvent::Start), HostScanAction::Ignored);
    assert_eq!(scanner.step(HostScanEvent::ProbesSubmitted), HostScanAction::Ignored);
    assert_eq!(scanner.step(finished(80, ProbeOutcome::Open)), HostScanAction::Ignored);
    assert!(scanner.open_ports().is_empty());
    assert_eq!(scanner.state(), HostScanState::Done);
}

#[test]
fn a_host_whose_ping_lacked_privilege_is_swept_with_an_advisory() {
    let mut scanner = scan_ports_from_ip(LOCALHOST, ScanFlags::new(false, false, 8));
    scanner.step(HostScanEvent::Start);
    let action = scanner.step(HostScanEvent::PingFinished(Reachability::PermissionDenied));
    assert_eq!(
        action,
        HostScanAction::SubmitProbes { ports: candidate_ports(false), advise_privilege: true }
    );
    assert_eq!(scanner.state(), HostScanState::Dispatching);
}

#[test]
fn a_sweep_without_open_ports_reports_nothing() {
    let (mut scanner, ports) = dispatched(false);
    assert_eq!(scanner.step(HostScanEvent::ProbesSubmitted), HostScanAction::Wait);
    assert_eq!(scanner.state(), HostScanState::Collecting);
    let (last, rest) = ports.split_last().unwrap();
    for port in rest {
        assert_eq!(scanner.step(finished(*port, ProbeOutcome::Closed)), HostScanAction::Wait);
    }
    assert_eq!(scanner.pending(), 1);
    let action = scanner.step(finished(*last, ProbeOutcome::ResolutionFailed));
    assert_eq!(action, HostScanAction::EmitReport { text: String::new() });
    assert_eq!(scanner.state(), HostScanState::Reporting);
    assert_eq!(scanner.step(HostScanEvent::ReportEmitted), HostScanAction::Finish);
    assert_eq!(scanner.state(), HostScanState::Done);
}

#[test]
fn a_full_scan_with_one_listener_reports_that_port_only() {
    let (mut scanner, ports) = dispatched(true);
    assert_eq!(ports.len(), 65536);
    scanner.step(HostScanEvent::ProbesSubmitted);
    let mut report = None;
    for port in ports {
        let outcome = if port == 8080 { ProbeOutcome::Open } else { ProbeOutcome::Closed };
        match scanner.step(finished(port, outcome)) {
            HostScanAction::Wait => {}
            HostScanAction::EmitReport { text } => report = Some(text),
            other => panic!("unexpected action {:?}", other),
        }
    }
    let text = report.unwrap();
    assert_eq!(text, "\nOpen ports on 127.0.0.1:\n8080\tAlternate HTTP / proxy\n");
    assert_eq!(text.matches("8080").count(), 1);
    assert_eq!(scanner.open_ports().ports(), &vec![8080]);
}

#[test]
fn reports_may_come_before_all_probes_are_submitted() {
    let (mut scanner, ports) = dispatched(false);
    for port in &ports {
        let outcome = if *port == 22 || *port == 443 { ProbeOutcome::Open } else { ProbeOutcome::Closed };
        assert_eq!(scanner.step(finished(*port, outcome)), HostScanAction::Wait);
        assert_eq!(scanner.state(), HostScanState::Dispatching);
    }
    assert_eq!(scanner.pending(), 0);
    let action = scanner.step(HostScanEvent::ProbesSubmitted);
    assert_eq!(
        action,
        HostScanAction::EmitReport {
            text: String::from("\nOpen ports on 127.0.0.1:\n22\tSSH\n443\tHTTPS\n")
        }
    );
    assert_eq!(scanner.state(), HostScanState::Reporting);
}

#[test]
fn the_order_of_reports_does_not_change_the_report() {
    let open = [8080u16, 22, 3306, 443];
    let mut texts = Vec::new();
    for reversed in [false, true] {
        let (mut scanner, mut ports) = dispatched(false);
        if reversed {
            ports.reverse();
        }
        let (early, late) = ports.split_at(if reversed { 5 } else { 40 });
        let mut last = HostScanAction::Wait;
        for port in early {
            let outcome = if open.contains(port) { ProbeOutcome::Open } else { ProbeOutcome::Closed };
            last = scanner.step(finished(*port, outcome));
        }
        assert_eq!(last, HostScanAction::Wait);
        assert_eq!(scanner.step(HostScanEvent::ProbesSubmitted), HostScanAction::Wait);
        for port in late {
            let outcome = if open.contains(port) { ProbeOutcome::Open } else { ProbeOutcome::Closed };
            last = scanner.step(finished(*port, outcome));
        }
        assert_eq!(scanner.open_ports().ports(), &vec![22, 443, 3306, 8080]);
        match last {
            HostScanAction::EmitReport { text } => texts.push(text),
            other => panic!("unexpected action {:?}", other),
        }
    }
    assert_eq!(texts[0], texts[1]);
    assert_eq!(
        texts[0],
        "\nOpen ports on 127.0.0.1:\n22\tSSH\n443\tHTTPS\n3306\tMySQL / MariaDB\n8080\tAlternate HTTP / proxy\n"
    );
}

#[test]
fn a_report_on_a_port_that_is_not_probed_is_ignored() {
    let (mut scanner, _) = dispatched(false);
    scanner.step(HostScanEvent::ProbesSubmitted);
    assert_eq!(scanner.step(finished(81, ProbeOutcome::Open)), HostScanAction::Ignored);
    assert_eq!(scanner.pending(), 67);
    assert!(scanner.open_ports().is_empty());
}

#[test]
fn events_out_of_turn_are_ignored() {
    let mut scanner = scan_ports_from_ip(LOCALHOST, ScanFlags::new(false, false, 8));
    assert_eq!(scanner.step(HostScanEvent::ProbesSubmitted), HostScanAction::Ignored);
    assert_eq!(scanner.step(HostScanEvent::ReportEmitted), HostScanAction::Ignored);
    assert_eq!(
        scanner.step(HostScanEvent::PingFinished(Reachability::Reachable)),
        HostScanAction::Ignored
    );
    assert_eq!(scanner.step(finished(80, ProbeOutcome::Open)), HostScanAction::Ignored);
    assert_eq!(scanner.state(), HostScanState::Idle);
    scanner.step(HostScanEvent::Start);
    assert_eq!(scanner.step(HostScanEvent::Start), HostScanAction::Ignored);
    assert_eq!(scanner.step(finished(80, ProbeOutcome::Open)), HostScanAction::Ignored);
    assert_eq!(scanner.state(), HostScanState::PingCheck);
    assert!(scanner.open_ports().is_empty());
}

#[test]
fn probes_are_asked_for_once() {
    let (mut scanner, ports) = dispatched(false);
    assert_eq!(scanner.step(HostScanEvent::Start), HostScanAction::Ignored);
    assert_eq!(
        scanner.step(HostScanEvent::PingFinished(Reachability::Reachable)),
        HostScanAction::Ignored
    );
    scanner.step(HostScanEvent::ProbesSubmitted);
    for port in ports {
        let action = scanner.step(finished(port, ProbeOutcome::Closed));
        assert!(!matches!(action, HostScanAction::SubmitProbes { .. }));
    }
    assert_eq!(scanner.step(HostScanEvent::Start), HostScanAction::Ignored);
}

#[test]
fn five_hosts_without_privilege_get_one_advisory_and_are_all_swept() {
    let mut latch = SudoWarningLatch::new();
    let mut advisories = Vec::new();
    let mut swept = 0;
    for host in 0x0A00_0001u32..=0x0A00_0005 {
        let mut scanner = scan_ports_from_ip(host, ScanFlags::new(false, false, 8));
        assert_eq!(scanner.step(HostScanEvent::Start), HostScanAction::Ping);
        match scanner.step(HostScanEvent::PingFinished(Reachability::PermissionDenied)) {
            HostScanAction::SubmitProbes { ports, advise_privilege } => {
                assert_eq!(ports.len(), 67);
                if let Some(text) = latch.advise(advise_privilege) {
                    advisories.push(text);
                }
                swept += 1;
            }
            other => panic!("unexpected action {:?}", other),
        }
        assert_eq!(scanner.state(), HostScanState::Dispatching);
    }
    assert_eq!(advisories, vec![PRIVILEGE_ADVISORY]);
    assert_eq!(swept, 5);
}

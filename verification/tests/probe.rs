use netscanner::probe::{
    ConnectProbe, ProbeAction, ProbeEvent, ProbeOutcome, CONNECT_TIMEOUT_SECS,
};

#[test]
fn connect_timeout_is_three_seconds() {
    assert_eq!(CONNECT_TIMEOUT_SECS, 3);
}

#[test]
fn only_open_counts_as_open() {
    assert!(ProbeOutcome::Open.is_open());
    assert!(!ProbeOutcome::Closed.is_open());
    assert!(!ProbeOutcome::ResolutionFailed.is_open());
}

#[test]
fn a_new_probe_asks_to_resolve() {
    let probe = ConnectProbe::new();
    assert_eq!(probe, ConnectProbe::Resolving);
    assert_eq!(probe.action(), ProbeAction::Resolve);
    assert_eq!(probe.outcome(), None);
}

#[test]
fn failed_resolution_ends_the_probe() {
    let mut probe = ConnectProbe::new();
    assert_eq!(
        probe.step(ProbeEvent::ResolutionFailed),
        ProbeAction::Finish(ProbeOutcome::ResolutionFailed)
    );
    assert_eq!(probe.outcome(), Some(ProbeOutcome::ResolutionFailed));
}

#[test]
fn no_address_means_closed() {
    let mut probe = ConnectProbe::new();
    assert_eq!(probe.step(ProbeEvent::Resolved(0)), ProbeAction::Finish(ProbeOutcome::Closed));
}

#[test]
fn first_success_ends_the_probe() {
    let mut probe = ConnectProbe::new();
    assert_eq!(probe.step(ProbeEvent::Resolved(3)), ProbeAction::Connect(0));
    assert_eq!(probe.step(ProbeEvent::Refused), ProbeAction::Connect(1));
    assert_eq!(probe.step(ProbeEvent::Connected), ProbeAction::Finish(ProbeOutcome::Open));
    assert_eq!(probe.outcome(), Some(ProbeOutcome::Open));
    assert_eq!(probe.step(ProbeEvent::Refused), ProbeAction::Finish(ProbeOutcome::Open));
    assert_eq!(probe.step(ProbeEvent::Resolved(2)), ProbeAction::Finish(ProbeOutcome::Open));
}

#[test]
fn every_address_refusing_means_closed() {
    let mut probe = ConnectProbe::new();
    assert_eq!(probe.step(ProbeEvent::Resolved(2)), ProbeAction::Connect(0));
    assert_eq!(probe, ConnectProbe::Connecting { next: 0, total: 2 });
    assert_eq!(probe.step(ProbeEvent::Refused), ProbeAction::Connect(1));
    assert_eq!(probe.step(ProbeEvent::Refused), ProbeAction::Finish(ProbeOutcome::Closed));
    assert_eq!(probe.outcome(), Some(ProbeOutcome::Closed));
}

#[test]
fn events_out_of_turn_change_nothing() {
    let mut probe = ConnectProbe::new();
    assert_eq!(probe.step(ProbeEvent::Connected), ProbeAction::Resolve);
    assert_eq!(probe.step(ProbeEvent::Refused), ProbeAction::Resolve);
    assert_eq!(probe, ConnectProbe::Resolving);
    assert_eq!(probe.step(ProbeEvent::Resolved(1)), ProbeAction::Connect(0));
    assert_eq!(probe.step(ProbeEvent::Resolved(5)), ProbeAction::Connect(0));
    assert_eq!(probe.step(ProbeEvent::ResolutionFailed), ProbeAction::Connect(0));
    assert_eq!(probe.step(ProbeEvent::Connected), ProbeAction::Finish(ProbeOutcome::Open));
}

#[test]
fn a_driver_tries_addresses_up_to_the_first_that_accepts() {
    let accepts = [false, false, true, true, false];
    let mut probe = ConnectProbe::new();
    let mut action = probe.step(ProbeEvent::Resolved(accepts.len()));
    let mut tried = Vec::new();
    let outcome = loop {
        match action {
            ProbeAction::Connect(index) => {
                tried.push(index);
                let event = if accepts[index] { ProbeEvent::Connected } else { ProbeEvent::Refused };
                action = probe.step(event);
            }
            ProbeAction::Finish(outcome) => break outcome,
            ProbeAction::Resolve => unreachable!(),
        }
    };
    assert_eq!(outcome, ProbeOutcome::Open);
    assert_eq!(tried, vec![0, 1, 2]);
}

#[test]
fn largest_address_count_does_not_overflow() {
    let mut probe = ConnectProbe::Connecting { next: usize::MAX, total: usize::MAX };
    assert_eq!(probe.step(ProbeEvent::Refused), ProbeAction::Finish(ProbeOutcome::Closed));
}

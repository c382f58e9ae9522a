//! A request to scan: what to scan, and with which options.

use vstd::prelude::*;
use crate::flags::ScanFlags;
use crate::host::{idle_scan, scan_ports_from_ip, HostScanner};
use crate::range::{
    addresses, scan_ports_from_ip_range, scan_ports_from_subnet_cidr, subnet_end, RangeScan,
    RangeScanner, ScanError,
};

verus! {

/// The addresses that a request selects.
#[derive(Clone, Copy, Debug, PartialEq, Eq, Structural)]
pub enum ScanTarget {
    /// One host.
    Host(u32),
    /// Every address from `start` to `end`, both included.
    Range { start: u32, end: u32 },
    /// The `2^(32 - prefix)` addresses from `base` on.
    Subnet { base: u32, prefix: u8 },
}

/// A request to scan. It is made once and only read afterwards.
pub struct ScanRequest {
    /// The addresses to scan.
    pub target: ScanTarget,
    /// The options of the scan.
    pub flags: ScanFlags,
}

/// The scan that carries a request out.
pub enum ScanPlan {
    /// The scan of the one host of the request, not yet begun.
    Host(HostScanner),
    /// The scans of the hosts of the request, to be handed out one by one.
    Range(RangeScanner),
}

/// The first and the last address that a target selects; `None` for a target
/// that selects no range of IPv4 addresses: a range whose end lies before its
/// start, a subnet with a prefix length over 32, a subnet that would reach
/// beyond the last address.
pub open spec fn span(target: ScanTarget) -> Option<(int, int)> {
    match target {
        ScanTarget::Host(address) => Some((address as int, address as int)),
        ScanTarget::Range { start, end } => if start <= end {
            Some((start as int, end as int))
        } else {
            None
        },
        ScanTarget::Subnet { base, prefix } => if prefix <= 32 && subnet_end(base, prefix)
            <= u32::MAX {
            Some((base as int, subnet_end(base, prefix)))
        } else {
            None
        },
    }
}

impl ScanRequest {
    pub fn new(target: ScanTarget, flags: ScanFlags) -> (request: ScanRequest)
        ensures
            request.target == target,
            request.flags == flags,
    {
        ScanRequest { target, flags }
    }

    /// Sets the scan of this request up: a host scan for one host, a range
    /// scan over the selected addresses for a range or a subnet. Fails, before
    /// anything is scanned, where the target selects no range of addresses.
    pub fn plan(self) -> (plan: Result<ScanPlan, ScanError>)
        ensures
            match plan {
                Ok(ScanPlan::Host(scanner)) => {
                    &&& self.target matches ScanTarget::Host(address)
                    &&& scanner@ == idle_scan(address, self.flags)
                },
                Ok(ScanPlan::Range(scanner)) => {
                    &&& !(self.target is Host)
                    &&& span(self.target) matches Some((first, last))
                    &&& scanner@ == (RangeScan {
                        remaining: addresses(first, last),
                        flags: self.flags,
                    })
                },
                Err(error) => error == ScanError::InvalidRange && span(self.target) is None,
            },
    {
        match self.target {
            ScanTarget::Host(address) => Ok(ScanPlan::Host(scan_ports_from_ip(address, self.flags))),
            ScanTarget::Range { start, end } => {
                match scan_ports_from_ip_range(start, end, self.flags) {
                    Ok(scanner) => Ok(ScanPlan::Range(scanner)),
                    Err(error) => Err(error),
                }
            },
            ScanTarget::Subnet { base, prefix } => {
                match scan_ports_from_subnet_cidr(base, prefix, self.flags) {
                    Ok(scanner) => Ok(ScanPlan::Range(scanner)),
                    Err(error) => Err(error),
                }
            },
        }
    }
}

} // verus!

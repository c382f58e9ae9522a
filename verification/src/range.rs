//! The scan of an address range or of a subnet: one host scan for each
//! address, handed out in ascending order.

use vstd::prelude::*;
use vstd::arithmetic::power2::{lemma2_to64, lemma_pow2_strictly_increases, pow2};
use vstd::bits::lemma_u64_shl_is_mul;
use crate::flags::ScanFlags;
use crate::host::{idle_scan, scan_ports_from_ip, HostScanner};

verus! {

/// Why a scan could not be set up.
#[derive(Clone, Copy, Debug, PartialEq, Eq, Structural)]
pub enum ScanError {
    /// The last address lies before the first, the prefix length is over 32,
    /// or the subnet would reach beyond the last IPv4 address.
    InvalidRange,
}

/// The addresses from `start` to `end`, both included, ascending.
pub open spec fn addresses(start: int, end: int) -> Seq<u32> {
    Seq::new((end - start + 1) as nat, |i: int| (start + i) as u32)
}

/// How many addresses a subnet with this prefix length has: 2 to the power
/// of its host bits. The network and the broadcast address count.
pub open spec fn subnet_size(cidr: u8) -> nat {
    pow2((32 - cidr) as nat)
}

/// The last address of the subnet that starts at `subnet`.
pub open spec fn subnet_end(subnet: u32, cidr: u8) -> int {
    subnet + subnet_size(cidr) - 1
}

/// A [`RangeScanner`] as a mathematical value.
#[verifier::ext_equal]
pub struct RangeScan {
    /// The addresses whose host scan was not handed out yet, ascending.
    pub remaining: Seq<u32>,
    /// The options that every host scan of the range gets.
    pub flags: ScanFlags,
}

/// The scan of a range of addresses.
pub struct RangeScanner {
    next: u32,
    last: u32,
    exhausted: bool,
    flags: ScanFlags,
}

impl View for RangeScanner {
    type V = RangeScan;

    closed spec fn view(&self) -> RangeScan {
        RangeScan {
            remaining: if self.exhausted {
                Seq::empty()
            } else {
                addresses(self.next as int, self.last as int)
            },
            flags: self.flags,
        }
    }
}

/// A range from `start` to `end` has `end - start + 1` addresses: each
/// address from `start` to `end` once, ascending.
pub proof fn lemma_addresses(start: u32, end: u32)
    requires
        start <= end,
    ensures
        addresses(start as int, end as int).len() == end - start + 1,
        addresses(start as int, end as int).no_duplicates(),
        forall|i: int|
            0 <= i <= end - start ==> #[trigger] addresses(start as int, end as int)[i] == start
                + i,
        forall|host: u32|
            addresses(start as int, end as int).contains(host) <==> start <= host <= end,
{
    let hosts = addresses(start as int, end as int);
    assert forall|host: u32| hosts.contains(host) <==> start <= host <= end by {
        if start <= host <= end {
            assert(hosts[host - start] == host);
        }
    }
}

/// Once the scan of the first address of a range was handed out, what is
/// left is the range that begins one address later.
pub proof fn lemma_addresses_rest(start: u32, end: u32)
    requires
        start <= end,
    ensures
        addresses(start as int, end as int).drop_first() == addresses(start + 1, end as int),
{
    assert(addresses(start as int, end as int).drop_first() =~= addresses(start + 1, end as int));
}

/// Prepares the scan of every address from `start_ip` to `end_ip`, both
/// included. Fails where `end_ip` lies before `start_ip`.
pub fn scan_ports_from_ip_range(start_ip: u32, end_ip: u32, flags: ScanFlags) -> (scan: Result<
    RangeScanner,
    ScanError,
>)
    ensures
        match scan {
            Ok(scanner) => {
                &&& start_ip <= end_ip
                &&& scanner@ == (RangeScan {
                    remaining: addresses(start_ip as int, end_ip as int),
                    flags,
                })
            },
            Err(error) => error == ScanError::InvalidRange && end_ip < start_ip,
        },
{
    if end_ip < start_ip {
        return Err(ScanError::InvalidRange);
    }
    Ok(RangeScanner { next: start_ip, last: end_ip, exhausted: false, flags })
}

/// Prepares the scan of the subnet that starts at `subnet` and has the
/// prefix length `cidr`: `2^(32 - cidr)` addresses from `subnet` on. Fails
/// where `cidr` is over 32, and where the subnet would end beyond the last
/// IPv4 address.
pub fn scan_ports_from_subnet_cidr(subnet: u32, cidr: u8, flags: ScanFlags) -> (scan: Result<
    RangeScanner,
    ScanError,
>)
    ensures
        match scan {
            Ok(scanner) => {
                &&& cidr <= 32
                &&& subnet_end(subnet, cidr) <= u32::MAX
                &&& scanner@ == (RangeScan {
                    remaining: addresses(subnet as int, subnet_end(subnet, cidr)),
                    flags,
                })
            },
            Err(error) => {
                &&& error == ScanError::InvalidRange
                &&& (cidr > 32 || subnet_end(subnet, cidr) > u32::MAX)
            },
        },
{
    if cidr > 32 {
        return Err(ScanError::InvalidRange);
    }
    let host_bits: u64 = 32 - cidr as u64;
    proof {
        lemma2_to64();
        if host_bits < 32 {
            lemma_pow2_strictly_increases(host_bits as nat, 32);
        }
        lemma_u64_shl_is_mul(1, host_bits);
    }
    let num_ips: u64 = 1u64 << host_bits;
    let end: u64 = subnet as u64 + num_ips - 1;
    if end > u32::MAX as u64 {
        return Err(ScanError::InvalidRange);
    }
    Ok(RangeScanner { next: subnet, last: end as u32, exhausted: false, flags })
}

impl RangeScanner {
    #[verifier::type_invariant]
    spec fn ordered(self) -> bool {
        self.exhausted || self.next <= self.last
    }

    /// The options that every host scan of the range gets.
    pub fn flags(&self) -> (flags: &ScanFlags)
        ensures
            *flags == self@.flags,
    {
        &self.flags
    }

    /// How many host scans are yet to be handed out.
    pub fn remaining_hosts(&self) -> (count: u64)
        ensures
            count == self@.remaining.len(),
    {
        proof {
            use_type_invariant(self);
        }
        if self.exhausted {
            0
        } else {
            (self.last - self.next) as u64 + 1
        }
    }

    /// Hands out the scan of the next address, the lowest that is left, as a
    /// scanner that has not begun; `None` once every address was handed out.
    pub fn next_host(&mut self) -> (host: Option<HostScanner>)
        ensures
            final(self)@.flags == old(self)@.flags,
            match host {
                Some(scanner) => {
                    &&& old(self)@.remaining.len() > 0
                    &&& scanner@ == idle_scan(old(self)@.remaining[0], old(self)@.flags)
                    &&& final(self)@.remaining == old(self)@.remaining.drop_first()
                },
                None => old(self)@.remaining.len() == 0 && final(self)@.remaining.len() == 0,
            },
    {
        proof {
            use_type_invariant(&*self);
        }
        if self.exhausted {
            return None;
        }
        let address: u32 = self.next;
        let scanner = scan_ports_from_ip(address, self.flags.clone());
        if self.next == self.last {
            self.exhausted = true;
        } else {
            self.next = self.next + 1;
        }
        Some(scanner)
    }
}

} // verus!

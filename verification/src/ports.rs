//! Which ports a host scan probes, and what the well-known ones are called.

use vstd::prelude::*;

verus! {

/// Number of entries of the well-known table.
pub const COMMON_PORT_COUNT: usize = 67;

/// The well-known TCP services, by ascending port. No port occurs twice (see
/// [`lemma_common_ports_ascending`]).
pub const COMMON_PORTS: [(u16, &'static str); 67] = [
    (20, "FTP-data"),
    (21, "FTP"),
    (22, "SSH"),
    (23, "Telnet"),
    (25, "SMTP"),
    (53, "DNS"),
    (67, "DHCP (server)"),
    (68, "DHCP (client)"),
    (69, "TFTP"),
    (80, "HTTP"),
    (88, "Kerberos"),
    (110, "POP3"),
    (111, "rpcbind / portmapper"),
    (123, "NTP"),
    (135, "MS RPC / DCOM"),
    (137, "NetBIOS Name"),
    (138, "NetBIOS Datagram"),
    (139, "NetBIOS Session / SMB (older)"),
    (143, "IMAP"),
    (161, "SNMP"),
    (162, "SNMP trap"),
    (179, "BGP"),
    (389, "LDAP"),
    (443, "HTTPS"),
    (445, "SMB / Microsoft-DS"),
    (465, "SMTPS (deprecated)"),
    (512, "rexec"),
    (513, "rlogin"),
    (514, "syslog / rsh"),
    (515, "LPD / printer"),
    (548, "AFP (Apple Filing Protocol)"),
    (631, "IPP (printing)"),
    (636, "LDAPS"),
    (993, "IMAPS"),
    (995, "POP3S"),
    (1080, "SOCKS (proxy)"),
    (1194, "OpenVPN"),
    (1433, "MSSQL"),
    (1434, "MSSQL (UDP)"),
    (1521, "Oracle DB (listener)"),
    (1723, "PPTP"),
    (2049, "NFS"),
    (2082, "cPanel (HTTP)"),
    (2083, "cPanel (HTTPS)"),
    (2375, "Docker API (unsecured)"),
    (2376, "Docker API (TLS)"),
    (3000, "Dev servers / web apps"),
    (3306, "MySQL / MariaDB"),
    (3389, "RDP (Windows Remote Desktop)"),
    (5000, "Dev / UPnP / admin UIs"),
    (5060, "SIP (VoIP)"),
    (5061, "SIP TLS"),
    (5432, "PostgreSQL"),
    (5560, "App-specific (often seen in networks)"),
    (5900, "VNC"),
    (6379, "Redis"),
    (8000, "Alternate HTTP / admin"),
    (8006, "Proxmox VE web GUI"),
    (8008, "Alternate HTTP"),
    (8080, "Alternate HTTP / proxy"),
    (8443, "HTTPS-alt / admin"),
    (9000, "Dev/admin (e.g. php-fpm, dev UIs)"),
    (9200, "Elasticsearch HTTP"),
    (9300, "Elasticsearch clustering"),
    (11211, "memcached"),
    (27017, "MongoDB"),
    (37017, "Example DB abuse port (seen in the wild)"),
];

/// The port of the `i`-th table entry.
pub open spec fn common_port(i: int) -> u16 {
    COMMON_PORTS@[i].0
}

/// The label of the `i`-th table entry.
pub open spec fn common_label(i: int) -> Seq<char> {
    COMMON_PORTS@[i].1@
}

/// The ports of the well-known table, in its order.
pub open spec fn well_known_ports() -> Seq<u16> {
    Seq::new(67, |i: int| common_port(i))
}

/// Every port number, ascending.
pub open spec fn all_ports() -> Seq<u16> {
    Seq::new(65536, |i: int| i as u16)
}

/// The ports that one host scan probes, in the order in which it submits them.
pub open spec fn probe_plan(scan_all: bool) -> Seq<u16> {
    if scan_all {
        all_ports()
    } else {
        well_known_ports()
    }
}

/// Where `port` stands in the well-known table, if it does.
pub open spec fn table_index(port: u16) -> Option<int> {
    if exists|i: int| 0 <= i < 67 && common_port(i) == port {
        Some(choose|i: int| 0 <= i < 67 && common_port(i) == port)
    } else {
        None
    }
}

/// The service label of `port`, if the well-known table has one.
pub open spec fn label_of(port: u16) -> Option<Seq<char>> {
    match table_index(port) {
        Some(i) => Some(common_label(i)),
        None => None,
    }
}

/// Whether a scan with this setting probes `port`.
pub open spec fn is_planned(port: u16, scan_all: bool) -> bool {
    scan_all || table_index(port) is Some
}

/// The well-known table is ordered by port, and no port occurs twice in it.
pub proof fn lemma_common_ports_ascending()
    ensures
        forall|i: int, j: int| 0 <= i < j < 67 ==> common_port(i) < common_port(j),
{
}

/// A port found at index `i` of the table has that index and that entry's label.
pub proof fn lemma_table_index_is(port: u16, i: int)
    requires
        0 <= i < 67,
        common_port(i) == port,
    ensures
        table_index(port) == Some(i),
        label_of(port) == Some(common_label(i)),
{
    lemma_common_ports_ascending();
}

/// The candidate ports of one host scan, ascending: every port, or the ports
/// of the well-known table in its order.
pub fn candidate_ports(scan_all: bool) -> (ports: Vec<u16>)
    ensures
        ports@ == probe_plan(scan_all),
{
    let mut ports: Vec<u16> = Vec::new();
    if scan_all {
        let mut next: u32 = 0;
        while next < 65536
            invariant
                next <= 65536,
                ports@.len() == next,
                forall|i: int| 0 <= i < next ==> ports@[i] == i as u16,
            decreases 65536 - next,
        {
            ports.push(next as u16);
            next += 1;
        }
    } else {
        let mut i: usize = 0;
        while i < COMMON_PORT_COUNT
            invariant
                i <= 67,
                ports@.len() == i,
                forall|k: int| 0 <= k < i ==> ports@[k] == common_port(k),
            decreases 67 - i,
        {
            ports.push(COMMON_PORTS[i].0);
            i += 1;
        }
    }
    ports
}

/// Looks `port` up in the well-known table.
pub fn label_for(port: u16) -> (label: Option<&'static str>)
    ensures
        match label {
            Some(text) => label_of(port) == Some(text@),
            None => label_of(port) is None,
        },
{
    let mut i: usize = 0;
    while i < COMMON_PORT_COUNT
        invariant
            i <= 67,
            forall|k: int| 0 <= k < i ==> common_port(k) != port,
        decreases 67 - i,
    {
        if COMMON_PORTS[i].0 == port {
            proof {
                lemma_table_index_is(port, i as int);
            }
            return Some(COMMON_PORTS[i].1);
        }
        i += 1;
    }
    None
}

/// Whether a scan with this setting probes `port`.
pub fn is_candidate(port: u16, scan_all: bool) -> (planned: bool)
    ensures
        planned == is_planned(port, scan_all),
{
    scan_all || label_for(port).is_some()
}

/// Whatever is scanned, the ports are probed in ascending order, so none of
/// them twice.
pub proof fn lemma_plan_ascending(scan_all: bool)
    ensures
        forall|i: int, j: int|
            0 <= i < j < probe_plan(scan_all).len() ==> probe_plan(scan_all)[i] < probe_plan(
                scan_all,
            )[j],
        probe_plan(scan_all).no_duplicates(),
{
    lemma_common_ports_ascending();
}

/// A scan of the well-known ports probes exactly the ports of the table,
/// each of them once.
pub proof fn lemma_well_known_plan_exact()
    ensures
        probe_plan(false).no_duplicates(),
        forall|port: u16| probe_plan(false).contains(port) <==> label_of(port) is Some,
        forall|i: int| 0 <= i < 67 ==> probe_plan(false).contains(common_port(i)),
{
    lemma_common_ports_ascending();
    let plan = probe_plan(false);
    assert forall|port: u16| plan.contains(port) <==> label_of(port) is Some by {
        if plan.contains(port) {
            let i = choose|i: int| 0 <= i < plan.len() && plan[i] == port;
            lemma_table_index_is(port, i);
        }
        if label_of(port) is Some {
            let i = table_index(port)->0;
            assert(plan[i] == port);
        }
    }
    assert forall|i: int| 0 <= i < 67 implies plan.contains(common_port(i)) by {
        assert(plan[i] == common_port(i));
    }
}

/// A scan of all ports probes every port number from 0 to 65535, each of them
/// once.
pub proof fn lemma_full_plan_exact()
    ensures
        probe_plan(true).no_duplicates(),
        probe_plan(true).len() == 65536,
        forall|port: u16| probe_plan(true).contains(port),
        forall|port: u16| probe_plan(true)[port as int] == port,
{
    let plan = probe_plan(true);
    assert forall|port: u16| plan.contains(port) by {
        assert(plan[port as int] == port);
    }
}

} // verus!

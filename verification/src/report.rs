//! The text that reports the open ports of one host.

use vstd::prelude::*;
use vstd::string::*;
use crate::open_ports::HostOpenPorts;
use crate::ports::{label_for, label_of};

verus! {

/// The character of one decimal digit.
pub open spec fn digit_char(d: nat) -> char {
    if d == 0 {
        '0'
    } else if d == 1 {
        '1'
    } else if d == 2 {
        '2'
    } else if d == 3 {
        '3'
    } else if d == 4 {
        '4'
    } else if d == 5 {
        '5'
    } else if d == 6 {
        '6'
    } else if d == 7 {
        '7'
    } else if d == 8 {
        '8'
    } else {
        '9'
    }
}

/// `n` in decimal, without leading zeros.
pub open spec fn decimal(n: nat) -> Seq<char>
    decreases n,
{
    if n < 10 {
        seq![digit_char(n)]
    } else {
        decimal(n / 10).push(digit_char(n % 10))
    }
}

/// The four bytes of an IPv4 address, the most significant first.
pub open spec fn octets(host: u32) -> (nat, nat, nat, nat) {
    (
        (host / 16777216) as nat,
        ((host / 65536) % 256) as nat,
        ((host / 256) % 256) as nat,
        (host % 256) as nat,
    )
}

/// An IPv4 address in dotted-quad notation.
pub open spec fn dotted_quad(host: u32) -> Seq<char> {
    let (a, b, c, d) = octets(host);
    decimal(a) + seq!['.'] + decimal(b) + seq!['.'] + decimal(c) + seq!['.'] + decimal(d)
}

/// What the report says of one open port: the port, and after a tab its
/// service label where the well-known table has one.
pub open spec fn port_line(port: u16) -> Seq<char> {
    match label_of(port) {
        Some(label) => decimal(port as nat) + seq!['\t'] + label,
        None => decimal(port as nat),
    }
}

/// The lines of a report, one per port, each ended by a line feed.
pub open spec fn port_lines(ports: Seq<u16>) -> Seq<char>
    decreases ports.len(),
{
    if ports.len() == 0 {
        Seq::empty()
    } else {
        port_lines(ports.drop_last()) + port_line(ports.last()) + seq!['\n']
    }
}

/// The report of one host: nothing where no port is open, else an empty
/// line, a header that names the host, and the lines of its open ports.
pub open spec fn report_text(host: u32, ports: Seq<u16>) -> Seq<char> {
    if ports.len() == 0 {
        Seq::empty()
    } else {
        "\nOpen ports on "@ + dotted_quad(host) + ":\n"@ + port_lines(ports)
    }
}

fn digit_str(d: u32) -> (text: &'static str)
    requires
        d < 10,
    ensures
        text@ == seq![digit_char(d as nat)],
{
    proof {
        reveal_strlit("0");
        reveal_strlit("1");
        reveal_strlit("2");
        reveal_strlit("3");
        reveal_strlit("4");
        reveal_strlit("5");
        reveal_strlit("6");
        reveal_strlit("7");
        reveal_strlit("8");
        reveal_strlit("9");
    }
    if d == 0 {
        "0"
    } else if d == 1 {
        "1"
    } else if d == 2 {
        "2"
    } else if d == 3 {
        "3"
    } else if d == 4 {
        "4"
    } else if d == 5 {
        "5"
    } else if d == 6 {
        "6"
    } else if d == 7 {
        "7"
    } else if d == 8 {
        "8"
    } else {
        "9"
    }
}

fn push_decimal(out: &mut String, n: u32)
    ensures
        final(out)@ == old(out)@ + decimal(n as nat),
    decreases n,
{
    if n >= 10 {
        push_decimal(out, n / 10);
    }
    out.append(digit_str(n % 10));
}

/// Writes an IPv4 address in dotted-quad notation.
pub fn format_host(host: u32) -> (text: String)
    ensures
        text@ == dotted_quad(host),
{
    proof {
        reveal_strlit(".");
    }
    let mut text = String::new();
    push_decimal(&mut text, host / 16777216);
    text.append(".");
    push_decimal(&mut text, (host / 65536) % 256);
    text.append(".");
    push_decimal(&mut text, (host / 256) % 256);
    text.append(".");
    push_decimal(&mut text, host % 256);
    text
}

/// Writes what the report says of one open port.
pub fn format_port_line(port: u16) -> (text: String)
    ensures
        text@ == port_line(port),
{
    proof {
        reveal_strlit("\t");
    }
    let mut text = String::new();
    push_decimal(&mut text, port as u32);
    match label_for(port) {
        Some(label) => {
            text.append("\t");
            text.append(label);
        },
        None => {},
    }
    text
}

/// Writes the report of one host.
pub fn render_report(host: u32, open: &HostOpenPorts) -> (text: String)
    ensures
        text@ == report_text(host, open@),
{
    let ports = open.ports();
    let mut text = String::new();
    if ports.len() == 0 {
        return text;
    }
    proof {
        reveal_strlit("\n");
    }
    text.append("\nOpen ports on ");
    let name = format_host(host);
    text.append(name.as_str());
    text.append(":\n");
    let ghost header = text@;
    let mut i: usize = 0;
    while i < ports.len()
        invariant
            i <= ports.len(),
            "\n"@ == seq!['\n'],
            text@ == header + port_lines(ports@.take(i as int)),
        decreases ports.len() - i,
    {
        let line = format_port_line(ports[i]);
        text.append(line.as_str());
        text.append("\n");
        proof {
            let done = ports@.take(i + 1);
            assert(done.drop_last() =~= ports@.take(i as int));
        }
        i += 1;
    }
    assert(ports@.take(ports.len() as int) =~= ports@);
    text
}

} // verus!

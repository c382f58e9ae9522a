//! Decision core of a concurrent TCP port scanner.
//!
//! The library decides; it never touches the network. A driver performs the
//! actions that the state machines here hand out (reachability probes,
//! connection attempts, printing) on whatever worker pool it likes, and feeds
//! the outcomes back as events.
//!
//! * [`flags`]: the options of a request.
//! * [`ports`]: which ports a scan probes, and the well-known services.
//! * [`reach`]: what a reachability probe found, and the one-time advisory.
//! * [`probe`]: the connection probe of one port.
//! * [`open_ports`]: the open ports of one host, always ascending.
//! * [`report`]: the text that reports them.
//! * [`host`]: the scan of one host; [`host_laws`]: what holds of every run.
//! * [`range`]: the scan of an address range or of a subnet.
//! * [`request`]: a request to scan, and the scan that carries it out.

pub mod flags;
pub mod host;
pub mod host_laws;
pub mod open_ports;
pub mod ports;
pub mod probe;
pub mod range;
pub mod reach;
pub mod report;
pub mod request;

//! Options shared by every scan of one request.

use vstd::prelude::*;

verus! {

/// Worker-pool capacity used when the caller does not choose one.
pub const DEFAULT_MAX_THREADS: usize = 512;

/// What to scan and with how many workers.
pub struct ScanFlags {
    /// Probe all 65,536 ports instead of the well-known ones.
    pub scan_all_ports: bool,
    /// Skip the reachability probe before the port sweep.
    pub ping_prohibited: bool,
    /// Capacity of the worker pool that runs the probes.
    pub max_threads: usize,
}

impl ScanFlags {
    pub fn new(scan_all_ports: bool, ping_prohibited: bool, max_threads: usize) -> (flags: ScanFlags)
        ensures
            flags.scan_all_ports == scan_all_ports,
            flags.ping_prohibited == ping_prohibited,
            flags.max_threads == max_threads,
    {
        ScanFlags { scan_all_ports, ping_prohibited, max_threads }
    }

    /// Whether a worker pool can be made for these flags: it needs at least
    /// one worker.
    pub fn has_workers(&self) -> (valid: bool)
        ensures
            valid == (self.max_threads >= 1),
    {
        self.max_threads >= 1
    }

    pub fn clone(&self) -> (copy: ScanFlags)
        ensures
            copy == *self,
    {
        ScanFlags::new(self.scan_all_ports, self.ping_prohibited, self.max_threads)
    }
}

} // verus!

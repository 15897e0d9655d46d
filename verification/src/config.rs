//! Run configuration: one immutable snapshot shared by every probe of a run.

use vstd::prelude::*;

verus! {

/// The enumeration mode a run operates in.
#[derive(Clone, Copy, Debug, PartialEq, Eq, Structural)]
pub enum Mode {
    /// Path enumeration against a base URL.
    Dir,
    /// Subdomain enumeration against a DNS zone.
    Dns,
    /// Virtual-host enumeration against a fixed URL.
    Vhost,
    /// Placeholder substitution in URL, headers or body.
    Fuzz,
    /// Object-storage bucket existence checks.
    Bucket,
    /// TFTP read-request file enumeration.
    Tftp,
}

/// Immutable configuration snapshot for one run.
pub struct RunConfig {
    pub mode: Mode,
    /// Upper bound on probes in flight; at least 1.
    pub concurrency: usize,
    /// Per-probe timeout in milliseconds.
    pub timeout_ms: u64,
    /// How many times a transient failure is retried.
    pub retries: u32,
    /// Delay added before each retry, in milliseconds.
    pub backoff_ms: u64,
    /// Status codes that never count as a finding (status-based modes).
    pub deny_status: Vec<u16>,
    /// Body sizes that never count as a finding (status-based modes).
    pub deny_sizes: Vec<usize>,
    /// How far a vhost response size may drift from the baseline and still
    /// count as the same default page.
    pub size_tolerance: usize,
}

impl RunConfig {
    /// A configuration is well formed when its concurrency bound admits at
    /// least one probe.
    pub open spec fn wf(&self) -> bool {
        self.concurrency >= 1
    }

    /// A configuration for `mode` admitting `concurrency` parallel probes,
    /// with the defaults of the tool: 10 s timeout, no retries, and status
    /// 404 denied.
    pub fn new(mode: Mode, concurrency: usize) -> (c: RunConfig)
        requires
            concurrency >= 1,
        ensures
            c.wf(),
            c.mode == mode,
            c.concurrency == concurrency,
            c.timeout_ms == 10000,
            c.retries == 0,
            c.backoff_ms == 0,
            c.deny_status@ == seq![404u16],
            c.deny_sizes@ == Seq::<usize>::empty(),
            c.size_tolerance == 0,
    {
        let mut deny_status: Vec<u16> = Vec::new();
        deny_status.push(404);
        proof {
            assert(deny_status@ =~= seq![404u16]);
        }
        RunConfig {
            mode,
            concurrency,
            timeout_ms: 10000,
            retries: 0,
            backoff_ms: 0,
            deny_status,
            deny_sizes: Vec::new(),
            size_tolerance: 0,
        }
    }
}

} // verus!

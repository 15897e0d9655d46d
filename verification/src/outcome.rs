//! Probe outcomes and findings: the values the engine routes and counts.

use vstd::prelude::*;

verus! {

/// Why a probe attempt failed.
#[derive(Clone, Copy, Debug, PartialEq, Eq, Structural)]
pub enum FailureCause {
    /// The probe ran out of time waiting for an answer.
    Timeout,
    /// The connection was refused.
    Refused,
    /// The connection was reset mid-exchange.
    Reset,
    /// The configured resolver could not be reached.
    ResolverUnreachable,
    /// The peer answered with something the protocol does not allow.
    Protocol,
    /// The configured base URL cannot be used at all.
    BadUrl,
    /// Certificate validation is configured to fail and failed.
    Certificate,
}

/// How a storage bucket answered an unauthenticated listing check.
#[derive(Clone, Copy, Debug, PartialEq, Eq, Structural)]
pub enum BucketAccess {
    /// The bucket exists and its contents are listable.
    Public,
    /// The bucket exists but denies access.
    Private,
    /// No bucket of that name exists.
    NotFound,
}

/// The protocol-specific content of a successful probe.
#[derive(Debug)]
pub enum ProbePayload {
    /// An HTTP exchange: status code, body length, redirect target if any,
    /// and body word/line counts for fuzz-mode heuristics.
    Http { status: u16, size: usize, redirect: Option<String>, words: usize, lines: usize },
    /// A DNS lookup: the resolved addresses and CNAME chain.
    Dns { addresses: Vec<String>, cnames: Vec<String> },
    /// A bucket existence check and a bounded sample of listed objects.
    Bucket { access: BucketAccess, sample: Vec<String> },
    /// A TFTP read that was answered with data.
    Tftp { size: usize },
}

/// The classified result of probing one candidate.
#[derive(Debug)]
pub enum ProbeOutcome {
    /// The probe got an answer worth classifying.
    Success { payload: ProbePayload, elapsed_ms: u64 },
    /// The probe got an answer that its own rules already rule out.
    Filtered,
    /// A retryable network failure that outlasted every retry.
    TransientFailure { cause: FailureCause },
    /// A condition no retry can mend; the run is cancelled.
    FatalFailure { cause: FailureCause },
}

/// A report-worthy outcome tied to the candidate that produced it.
#[derive(Debug)]
pub struct Finding {
    /// Ordinal position of the candidate in the filtered wordlist.
    pub index: usize,
    /// The candidate word itself.
    pub word: String,
}

/// The reference response captured before a vhost run, used to suppress
/// wildcard/default answers.
#[derive(Clone, Copy, Debug, PartialEq, Eq, Structural)]
pub struct Baseline {
    pub status: u16,
    pub size: usize,
}

} // verus!

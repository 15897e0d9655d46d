//! Result classifier: decides which probe outcomes are report-worthy.
//!
//! The rules are mode-specific. Status-based modes report answers whose
//! status and size are outside the configured deny lists; vhost mode
//! reports only answers that diverge from the pre-run baseline; DNS mode
//! reports any resolution; bucket mode reports every answer but counts only
//! existing buckets as found; TFTP mode reports every successful read.

use vstd::prelude::*;
use crate::config::Mode;
use crate::config::RunConfig;
use crate::outcome::Baseline;
use crate::outcome::BucketAccess;
use crate::outcome::ProbeOutcome;
use crate::outcome::ProbePayload;

verus! {

/// What the classifier decided about one outcome.
#[derive(Clone, Copy, Debug, PartialEq, Eq, Structural)]
pub struct Classification {
    /// Hand the outcome to the presentation layer as a finding.
    pub report: bool,
    /// Increment the run's `found` counter.
    pub counts_found: bool,
    /// Increment the run's `errors` counter.
    pub is_error: bool,
}

/// A status code is allowed when it is not on the deny list.
pub open spec fn status_allowed(status: u16, deny_status: Seq<u16>) -> bool {
    !deny_status.contains(status)
}

/// A body size is allowed when it is not on the deny list.
pub open spec fn size_allowed(size: usize, deny_sizes: Seq<usize>) -> bool {
    !deny_sizes.contains(size)
}

/// Absolute difference of two sizes.
pub open spec fn size_gap(a: usize, b: usize) -> int {
    if a >= b {
        a - b
    } else {
        b - a
    }
}

/// Whether a vhost answer diverges from the baseline: a different status
/// code, or a size further from the baseline's than the tolerance.
pub open spec fn diverges(status: u16, size: usize, base: Baseline, tolerance: usize) -> bool {
    status != base.status || size_gap(size, base.size) > tolerance
}

/// The classification of a successful probe's payload under `mode`.
///
/// A payload of a different protocol than the mode's is suppressed.
pub open spec fn spec_classify_payload(
    payload: ProbePayload,
    mode: Mode,
    deny_status: Seq<u16>,
    deny_sizes: Seq<usize>,
    tolerance: usize,
    baseline: Option<Baseline>,
) -> bool {
    match (mode, payload) {
        (Mode::Dir, ProbePayload::Http { status, size, .. }) => status_allowed(status, deny_status)
            && size_allowed(size, deny_sizes),
        (Mode::Fuzz, ProbePayload::Http { status, size, .. }) => status_allowed(
            status,
            deny_status,
        ) && size_allowed(size, deny_sizes),
        (Mode::Vhost, ProbePayload::Http { status, size, .. }) => match baseline {
            Some(base) => diverges(status, size, base, tolerance),
            None => status_allowed(status, deny_status),
        },
        (Mode::Dns, ProbePayload::Dns { addresses, cnames }) => addresses@.len() > 0
            || cnames@.len() > 0,
        (Mode::Bucket, ProbePayload::Bucket { .. }) => true,
        (Mode::Tftp, ProbePayload::Tftp { .. }) => true,
        _ => false,
    }
}

/// Whether a reported payload also increments `found`: every reported
/// payload does, except a bucket answer that proved the bucket absent.
pub open spec fn spec_counts_found(payload: ProbePayload, mode: Mode, reported: bool) -> bool {
    match (mode, payload) {
        (Mode::Bucket, ProbePayload::Bucket { access, .. }) => reported && !(access
            is NotFound),
        _ => reported,
    }
}

/// The full classification of one outcome: failures count as errors and are
/// never reported; filtered outcomes count as nothing; successful payloads
/// follow the mode's rules.
pub open spec fn spec_classify(
    o: ProbeOutcome,
    mode: Mode,
    deny_status: Seq<u16>,
    deny_sizes: Seq<usize>,
    tolerance: usize,
    baseline: Option<Baseline>,
) -> Classification {
    match o {
        ProbeOutcome::Filtered => Classification {
            report: false,
            counts_found: false,
            is_error: false,
        },
        ProbeOutcome::TransientFailure { .. } => Classification {
            report: false,
            counts_found: false,
            is_error: true,
        },
        ProbeOutcome::FatalFailure { .. } => Classification {
            report: false,
            counts_found: false,
            is_error: true,
        },
        ProbeOutcome::Success { payload, .. } => {
            let reported = spec_classify_payload(
                payload,
                mode,
                deny_status,
                deny_sizes,
                tolerance,
                baseline,
            );
            Classification {
                report: reported,
                counts_found: spec_counts_found(payload, mode, reported),
                is_error: false,
            }
        },
    }
}

/// A classification never counts an outcome as found without reporting it.
pub proof fn lemma_found_implies_report(
    o: ProbeOutcome,
    mode: Mode,
    deny_status: Seq<u16>,
    deny_sizes: Seq<usize>,
    tolerance: usize,
    baseline: Option<Baseline>,
)
    ensures
        spec_classify(o, mode, deny_status, deny_sizes, tolerance, baseline).counts_found
            ==> spec_classify(o, mode, deny_status, deny_sizes, tolerance, baseline).report,
{
}

/// What a bucket's unauthenticated listing status means: a listable answer
/// is a public bucket, a denial proves a private one, anything else shows
/// no bucket of that name.
pub open spec fn spec_bucket_access(status: u16) -> BucketAccess {
    if status == 200 {
        BucketAccess::Public
    } else if status == 401 || status == 403 {
        BucketAccess::Private
    } else {
        BucketAccess::NotFound
    }
}

/// Reads a bucket's access state off the HTTP status of its listing check.
pub fn bucket_access_of_status(status: u16) -> (r: BucketAccess)
    ensures
        r == spec_bucket_access(status),
{
    if status == 200 {
        BucketAccess::Public
    } else if status == 401 || status == 403 {
        BucketAccess::Private
    } else {
        BucketAccess::NotFound
    }
}

/// Whether `v` holds `x`.
fn contains_u16(v: &Vec<u16>, x: u16) -> (r: bool)
    ensures
        r == v@.contains(x),
{
    let mut i: usize = 0;
    while i < v.len()
        invariant
            i <= v@.len(),
            forall|j: int| 0 <= j < i ==> v@[j] != x,
        decreases v@.len() - i,
    {
        if v[i] == x {
            return true;
        }
        i = i + 1;
    }
    false
}

/// Whether `v` holds `x`.
fn contains_usize(v: &Vec<usize>, x: usize) -> (r: bool)
    ensures
        r == v@.contains(x),
{
    let mut i: usize = 0;
    while i < v.len()
        invariant
            i <= v@.len(),
            forall|j: int| 0 <= j < i ==> v@[j] != x,
        decreases v@.len() - i,
    {
        if v[i] == x {
            return true;
        }
        i = i + 1;
    }
    false
}

/// Classifies one probe outcome under the run's rules.
pub fn classify(o: &ProbeOutcome, config: &RunConfig, baseline: &Option<Baseline>) -> (c:
    Classification)
    ensures
        c == spec_classify(
            *o,
            config.mode,
            config.deny_status@,
            config.deny_sizes@,
            config.size_tolerance,
            *baseline,
        ),
{
    match o {
        ProbeOutcome::Filtered => Classification {
            report: false,
            counts_found: false,
            is_error: false,
        },
        ProbeOutcome::TransientFailure { .. } => Classification {
            report: false,
            counts_found: false,
            is_error: true,
        },
        ProbeOutcome::FatalFailure { .. } => Classification {
            report: false,
            counts_found: false,
            is_error: true,
        },
        ProbeOutcome::Success { payload, .. } => {
            let reported: bool = match payload {
                ProbePayload::Http { status, size, .. } => match config.mode {
                    Mode::Dir | Mode::Fuzz => !contains_u16(&config.deny_status, *status)
                        && !contains_usize(&config.deny_sizes, *size),
                    Mode::Vhost => match baseline {
                        Some(base) => {
                            let gap = if *size >= base.size {
                                *size - base.size
                            } else {
                                base.size - *size
                            };
                            *status != base.status || gap > config.size_tolerance
                        },
                        None => !contains_u16(&config.deny_status, *status),
                    },
                    _ => false,
                },
                ProbePayload::Dns { addresses, cnames } => match config.mode {
                    Mode::Dns => addresses.len() > 0 || cnames.len() > 0,
                    _ => false,
                },
                ProbePayload::Bucket { .. } => match config.mode {
                    Mode::Bucket => true,
                    _ => false,
                },
                ProbePayload::Tftp { .. } => match config.mode {
                    Mode::Tftp => true,
                    _ => false,
                },
            };
            let counts_found: bool = match payload {
                ProbePayload::Bucket { access, .. } => match config.mode {
                    Mode::Bucket => reported && !matches!(access, BucketAccess::NotFound),
                    _ => reported,
                },
                _ => reported,
            };
            Classification { report: reported, counts_found, is_error: false }
        },
    }
}

} // verus!

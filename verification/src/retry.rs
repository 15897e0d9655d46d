//! Bounded retry for datagram probes.
//!
//! A TFTP read request rides an unreliable transport: a lost datagram is
//! retransmitted after the timeout, up to the configured retry count, with
//! an optional backoff pause before each retransmission. An answer is
//! terminal; a received error datagram is authoritative and never retried.
//! The total time spent waiting is bounded by
//! `(retries + 1) * timeout + retries * backoff`.

use vstd::prelude::*;
use vstd::arithmetic::mul::lemma_mul_inequality;
use vstd::arithmetic::mul::lemma_mul_is_distributive_add;
use crate::outcome::FailureCause;
use crate::outcome::ProbeOutcome;
use crate::outcome::ProbePayload;

verus! {

/// What one transmission attempt observed.
#[derive(Clone, Copy, Debug, PartialEq, Eq, Structural)]
pub enum AttemptResult {
    /// The peer answered with data: the file exists and has this size.
    Answered { size: usize },
    /// The peer answered with an error datagram: the file is absent.
    ErrorDatagram,
    /// Nothing arrived before the timeout.
    Lost,
}

/// How many attempts at the front of `s` were lost, capped at `cap`.
pub open spec fn lost_prefix(s: Seq<AttemptResult>, cap: int) -> int
    decreases cap,
{
    if cap <= 0 || s.len() == 0 {
        0
    } else if s[0] is Lost {
        1 + lost_prefix(s.drop_first(), cap - 1)
    } else {
        0
    }
}

/// `lost_prefix` is the length of the maximal all-lost prefix, capped.
pub proof fn lemma_lost_prefix(s: Seq<AttemptResult>, cap: int)
    requires
        0 <= cap <= s.len(),
    ensures
        0 <= lost_prefix(s, cap) <= cap,
        forall|j: int| 0 <= j < lost_prefix(s, cap) ==> (#[trigger] s[j]) is Lost,
        lost_prefix(s, cap) < cap ==> !(s[lost_prefix(s, cap)] is Lost),
    decreases cap,
{
    if cap > 0 && s[0] is Lost {
        let t = s.drop_first();
        lemma_lost_prefix(t, cap - 1);
        assert forall|j: int| 0 <= j < lost_prefix(s, cap) implies (#[trigger] s[j]) is Lost by {
            if j > 0 {
                assert(t[j - 1] == s[j]);
            }
        }
        if lost_prefix(s, cap) < cap {
            assert(t[lost_prefix(t, cap - 1)] == s[lost_prefix(s, cap)]);
        }
    }
}

/// How many attempts the retry machine makes on script `s` with `tries`
/// transmissions allowed in all.
pub open spec fn attempts_used(s: Seq<AttemptResult>, tries: int) -> int {
    let lp = lost_prefix(s, tries);
    if lp >= tries {
        tries
    } else {
        lp + 1
    }
}

/// The total time the retry machine waits: a full timeout for every lost
/// attempt, and a backoff pause before each retransmission.
pub open spec fn retry_wait_ms(
    s: Seq<AttemptResult>,
    tries: int,
    timeout_ms: u64,
    backoff_ms: u64,
) -> int {
    lost_prefix(s, tries) * timeout_ms + (attempts_used(s, tries) - 1) * backoff_ms
}

/// The terminal classification of the retry machine: the first delivered
/// answer decides; all transmissions lost is a transient timeout.
pub open spec fn retry_outcome(
    s: Seq<AttemptResult>,
    tries: int,
    timeout_ms: u64,
    backoff_ms: u64,
) -> ProbeOutcome {
    let lp = lost_prefix(s, tries);
    if lp >= tries {
        ProbeOutcome::TransientFailure { cause: FailureCause::Timeout }
    } else {
        match s[lp] {
            AttemptResult::Answered { size } => ProbeOutcome::Success {
                payload: ProbePayload::Tftp { size },
                elapsed_ms: retry_wait_ms(s, tries, timeout_ms, backoff_ms) as u64,
            },
            AttemptResult::ErrorDatagram => ProbeOutcome::Filtered,
            AttemptResult::Lost => ProbeOutcome::TransientFailure { cause: FailureCause::Timeout },
        }
    }
}

/// Runs the bounded retry machine over a script of attempt observations:
/// at most `retries + 1` transmissions, each lost one waiting out the
/// timeout, a backoff pause before each retransmission. Returns the
/// terminal outcome, the attempts used, and the total wait, which never
/// exceeds `(retries + 1) * timeout + retries * backoff`.
pub fn run_retries(
    attempts: &Vec<AttemptResult>,
    retries: u32,
    timeout_ms: u64,
    backoff_ms: u64,
) -> (r: (ProbeOutcome, u32, u64))
    requires
        retries < u32::MAX,
        attempts@.len() >= retries as int + 1,
        (retries as int + 1) * (timeout_ms as int + backoff_ms as int) <= u64::MAX as int,
    ensures
        r.0 == retry_outcome(attempts@, retries as int + 1, timeout_ms, backoff_ms),
        r.1 as int == attempts_used(attempts@, retries as int + 1),
        r.2 as int == retry_wait_ms(attempts@, retries as int + 1, timeout_ms, backoff_ms),
        r.1 <= retries + 1,
        r.2 as int <= (retries as int + 1) * (timeout_ms as int) + (retries as int) * (
        backoff_ms as int),
{
    let tries: u32 = retries + 1;
    let mut k: u32 = 0;
    while k < tries && matches!(attempts[k as usize], AttemptResult::Lost)
        invariant
            k <= tries,
            tries == retries + 1,
            attempts@.len() >= tries as int,
            forall|j: int| 0 <= j < k ==> (#[trigger] attempts@[j]) is Lost,
        decreases tries - k,
    {
        k = k + 1;
    }
    proof {
        lemma_lost_prefix(attempts@, tries as int);
        let lp = lost_prefix(attempts@, tries as int);
        if lp < k as int {
            assert(attempts@[lp] is Lost);
        }
        if lp > k as int {
            assert(attempts@[k as int] is Lost);
        }
        assert(lp == k as int);
    }
    let used: u32 = if k < tries {
        k + 1
    } else {
        tries
    };
    proof {
        let t = tries as int;
        let to = timeout_ms as int;
        let bo = backoff_ms as int;
        lemma_mul_inequality(k as int, t, to);
        lemma_mul_inequality(used as int - 1, retries as int, bo);
        lemma_mul_inequality(retries as int, t, bo);
        lemma_mul_is_distributive_add(t, to, bo);
    }
    let waited: u64 = (k as u64) * timeout_ms + ((used - 1) as u64) * backoff_ms;
    let out: ProbeOutcome = if k == tries {
        ProbeOutcome::TransientFailure { cause: FailureCause::Timeout }
    } else {
        match attempts[k as usize] {
            AttemptResult::Answered { size } => ProbeOutcome::Success {
                payload: ProbePayload::Tftp { size: size },
                elapsed_ms: waited,
            },
            AttemptResult::ErrorDatagram => ProbeOutcome::Filtered,
            AttemptResult::Lost => ProbeOutcome::TransientFailure { cause: FailureCause::Timeout },
        }
    };
    (out, used, waited)
}

} // verus!

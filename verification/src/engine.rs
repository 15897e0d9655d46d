//! Scheduler, concurrency governor and aggregator for one enumeration run.
//!
//! The [`Engine`] is the run's only mutable shared state: it admits at most
//! `concurrency` probes in flight, hands out candidates in source order,
//! and counts completions. Its well-formedness invariant ties the counters
//! together; every transition preserves it. The run drivers at the bottom
//! pull the pieces into the `run` entry point the outer layer calls.

use vstd::prelude::*;
use vstd::string::*;
use crate::classify::Classification;
use crate::classify::classify;
use crate::classify::spec_classify;
use crate::config::RunConfig;
use crate::outcome::Baseline;
use crate::outcome::Finding;
use crate::outcome::ProbeOutcome;
use crate::wordlist::Candidate;

verus! {

/// The run's lifecycle state.
#[derive(Clone, Copy, Debug, PartialEq, Eq, Structural)]
pub enum Phase {
    /// Created, not yet dispatching.
    Idle,
    /// Admitting new probes.
    Running,
    /// Source exhausted and every probe resolved.
    Completed,
    /// Externally cancelled or stopped by a fatal failure; in-flight probes
    /// may still drain, no new ones are admitted.
    Cancelled,
    /// The candidate source itself failed.
    Aborted,
}

/// Final statistics of one run.
#[derive(Clone, Copy, Debug, PartialEq, Eq, Structural)]
pub struct RunSummary {
    /// Candidates dispatched and resolved.
    pub tested: usize,
    /// Outcomes the classifier counted as found.
    pub found: usize,
    /// Outcomes that failed (transiently past all retries, or fatally).
    pub errors: usize,
}

/// Scheduler and aggregator state for one run over `total` candidates.
pub struct Engine {
    /// Upper bound on probes in flight; at least 1.
    pub concurrency: usize,
    /// Number of candidates the source offers.
    pub total: usize,
    /// Index of the next candidate to dispatch; equals the number
    /// dispatched so far, since dispatch follows source order.
    pub next: usize,
    /// Probes dispatched and not yet resolved.
    pub in_flight: usize,
    /// Probes resolved, however they ended.
    pub tested: usize,
    /// Resolved probes the classifier counted as found.
    pub found: usize,
    /// Resolved probes that ended in a failure.
    pub errors: usize,
    /// Lifecycle state.
    pub phase: Phase,
}

impl Engine {
    /// The invariant every transition preserves. In particular: probes in
    /// flight never exceed the concurrency bound, every dispatched probe is
    /// either in flight or tested, and `found` and `errors` never outgrow
    /// `tested`.
    pub open spec fn wf(&self) -> bool {
        &&& self.concurrency >= 1
        &&& self.next <= self.total
        &&& self.in_flight <= self.concurrency
        &&& self.in_flight <= self.next
        &&& self.tested + self.in_flight == self.next
        &&& self.found <= self.tested
        &&& self.errors <= self.tested
        &&& (self.phase is Idle ==> self.next == 0 && self.in_flight == 0)
        &&& (self.phase is Completed ==> self.in_flight == 0 && self.next == self.total)
    }

    /// A new candidate may be admitted: the run is live, a concurrency slot
    /// is free, and the source is not exhausted.
    pub open spec fn spec_can_dispatch(&self) -> bool {
        self.phase is Running && self.in_flight < self.concurrency && self.next < self.total
    }

    /// A fresh engine for a run over `total` candidates.
    pub fn new(concurrency: usize, total: usize) -> (e: Engine)
        requires
            concurrency >= 1,
        ensures
            e.wf(),
            e.phase is Idle,
            e.concurrency == concurrency,
            e.total == total,
            e.next == 0,
            e.in_flight == 0,
            e.tested == 0,
            e.found == 0,
            e.errors == 0,
    {
        Engine {
            concurrency,
            total,
            next: 0,
            in_flight: 0,
            tested: 0,
            found: 0,
            errors: 0,
            phase: Phase::Idle,
        }
    }

    /// Starts dispatching.
    pub fn start(&mut self)
        requires
            old(self).wf(),
            old(self).phase is Idle,
        ensures
            final(self).wf(),
            final(self).phase is Running,
            final(self).concurrency == old(self).concurrency,
            final(self).total == old(self).total,
            final(self).next == old(self).next,
            final(self).in_flight == old(self).in_flight,
            final(self).tested == old(self).tested,
            final(self).found == old(self).found,
            final(self).errors == old(self).errors,
    {
        self.phase = Phase::Running;
    }

    /// Whether a new candidate may be admitted right now.
    pub fn can_dispatch(&self) -> (r: bool)
        ensures
            r == self.spec_can_dispatch(),
    {
        matches!(self.phase, Phase::Running) && self.in_flight < self.concurrency && self.next
            < self.total
    }

    /// Admits the next candidate: one more probe in flight, and the
    /// returned index is the candidate's position in the source.
    pub fn dispatch(&mut self) -> (idx: usize)
        requires
            old(self).wf(),
            old(self).spec_can_dispatch(),
        ensures
            final(self).wf(),
            idx == old(self).next,
            final(self).next == old(self).next + 1,
            final(self).in_flight == old(self).in_flight + 1,
            final(self).phase == old(self).phase,
            final(self).concurrency == old(self).concurrency,
            final(self).total == old(self).total,
            final(self).tested == old(self).tested,
            final(self).found == old(self).found,
            final(self).errors == old(self).errors,
    {
        let idx = self.next;
        self.next = self.next + 1;
        self.in_flight = self.in_flight + 1;
        idx
    }

    /// Admits candidates until the concurrency window is full or the source
    /// is exhausted: the governor's counting-semaphore discipline. On
    /// return the window holds as many probes as the bound and the
    /// remaining candidates allow.
    pub fn fill_window(&mut self)
        requires
            old(self).wf(),
            old(self).phase is Running,
        ensures
            final(self).wf(),
            final(self).phase is Running,
            !final(self).spec_can_dispatch(),
            final(self).tested == old(self).tested,
            final(self).found == old(self).found,
            final(self).errors == old(self).errors,
            final(self).concurrency == old(self).concurrency,
            final(self).total == old(self).total,
            final(self).in_flight == if old(self).in_flight + old(self).total - old(self).next
                <= old(self).concurrency {
                (old(self).in_flight + old(self).total - old(self).next) as int
            } else {
                old(self).concurrency as int
            },
            final(self).next - old(self).next == final(self).in_flight - old(self).in_flight,
    {
        while self.can_dispatch()
            invariant
                self.wf(),
                self.phase is Running,
                self.tested == old(self).tested,
                self.found == old(self).found,
                self.errors == old(self).errors,
                self.concurrency == old(self).concurrency,
                self.total == old(self).total,
                self.next >= old(self).next,
                self.next - old(self).next == self.in_flight - old(self).in_flight,
            decreases self.total - self.next,
        {
            let _idx = self.dispatch();
        }
    }

    /// Resolves one in-flight probe with its classification: `tested`
    /// always advances, `found` and `errors` as the classification says.
    pub fn complete(&mut self, c: Classification)
        requires
            old(self).wf(),
            old(self).in_flight >= 1,
        ensures
            final(self).wf(),
            final(self).in_flight == old(self).in_flight - 1,
            final(self).tested == old(self).tested + 1,
            final(self).found == old(self).found + (if c.counts_found {
                1int
            } else {
                0int
            }),
            final(self).errors == old(self).errors + (if c.is_error {
                1int
            } else {
                0int
            }),
            final(self).phase == old(self).phase,
            final(self).concurrency == old(self).concurrency,
            final(self).total == old(self).total,
            final(self).next == old(self).next,
    {
        self.in_flight = self.in_flight - 1;
        self.tested = self.tested + 1;
        if c.counts_found {
            self.found = self.found + 1;
        }
        if c.is_error {
            self.errors = self.errors + 1;
        }
    }

    /// Cancels the run: no further candidate is admitted; probes already in
    /// flight may still resolve through `complete`.
    pub fn cancel(&mut self)
        requires
            old(self).wf(),
            old(self).phase is Running,
        ensures
            final(self).wf(),
            final(self).phase is Cancelled,
            !final(self).spec_can_dispatch(),
            final(self).concurrency == old(self).concurrency,
            final(self).total == old(self).total,
            final(self).next == old(self).next,
            final(self).in_flight == old(self).in_flight,
            final(self).tested == old(self).tested,
            final(self).found == old(self).found,
            final(self).errors == old(self).errors,
    {
        self.phase = Phase::Cancelled;
    }

    /// Aborts the run after a candidate-source failure; terminal like
    /// cancellation.
    pub fn abort(&mut self)
        requires
            old(self).wf(),
            old(self).phase is Running,
        ensures
            final(self).wf(),
            final(self).phase is Aborted,
            !final(self).spec_can_dispatch(),
            final(self).concurrency == old(self).concurrency,
            final(self).total == old(self).total,
            final(self).next == old(self).next,
            final(self).in_flight == old(self).in_flight,
            final(self).tested == old(self).tested,
            final(self).found == old(self).found,
            final(self).errors == old(self).errors,
    {
        self.phase = Phase::Aborted;
    }

    /// Moves a drained, exhausted run to `Completed`; reports whether it
    /// did. In every other state nothing changes.
    pub fn try_finish(&mut self) -> (done: bool)
        requires
            old(self).wf(),
        ensures
            final(self).wf(),
            done == (old(self).phase is Running && old(self).next == old(self).total && old(
                self,
            ).in_flight == 0),
            final(self).phase == (if done {
                Phase::Completed
            } else {
                old(self).phase
            }),
            final(self).concurrency == old(self).concurrency,
            final(self).total == old(self).total,
            final(self).next == old(self).next,
            final(self).in_flight == old(self).in_flight,
            final(self).tested == old(self).tested,
            final(self).found == old(self).found,
            final(self).errors == old(self).errors,
    {
        if matches!(self.phase, Phase::Running) && self.next == self.total && self.in_flight == 0 {
            self.phase = Phase::Completed;
            true
        } else {
            false
        }
    }

    /// A snapshot of the counters, safe at any point of the run.
    pub fn summary(&self) -> (s: RunSummary)
        ensures
            s.tested == self.tested,
            s.found == self.found,
            s.errors == self.errors,
    {
        RunSummary { tested: self.tested, found: self.found, errors: self.errors }
    }
}

/// For every concurrency bound and every reachable state, the number of
/// probes simultaneously in flight never exceeds the bound.
pub proof fn lemma_in_flight_bounded(e: Engine)
    requires
        e.wf(),
    ensures
        e.in_flight <= e.concurrency,
{
}

/// Once every dispatched probe has resolved, `tested` equals the number of
/// candidates actually dispatched.
pub proof fn lemma_tested_counts_dispatched(e: Engine)
    requires
        e.wf(),
        e.in_flight == 0,
    ensures
        e.tested == e.next,
{
}

/// `found` and `errors` never exceed `tested`.
pub proof fn lemma_found_le_tested(e: Engine)
    requires
        e.wf(),
    ensures
        e.found <= e.tested,
        e.errors <= e.tested,
{
}

/// A cancelled or aborted engine admits no further dispatch: cancellation
/// stops new dispatch immediately.
pub proof fn lemma_cancelled_stops_dispatch(e: Engine)
    requires
        e.phase is Cancelled || e.phase is Aborted,
    ensures
        !e.spec_can_dispatch(),
{
}

/// The classification of one outcome under a run's configuration.
pub open spec fn outcome_class(o: ProbeOutcome, config: RunConfig, baseline: Option<
    Baseline,
>) -> Classification {
    spec_classify(
        o,
        config.mode,
        config.deny_status@,
        config.deny_sizes@,
        config.size_tolerance,
        baseline,
    )
}

/// How many candidates a run may dispatch at most: the wordlist length,
/// capped by the cancellation point if one is set.
pub open spec fn dispatch_limit(n: int, cancel_at: Option<usize>) -> int {
    match cancel_at {
        None => n,
        Some(k) => if k < n {
            k as int
        } else {
            n
        },
    }
}

/// The `(tested, found, errors)` counts of a run that dispatches candidates
/// in order, resolves each through the classifier, and stops after `lim`
/// candidates or immediately after a fatal failure.
pub open spec fn scripted_counts(
    outs: Seq<ProbeOutcome>,
    config: RunConfig,
    baseline: Option<Baseline>,
    lim: int,
) -> (int, int, int)
    decreases lim,
{
    if lim <= 0 || outs.len() == 0 {
        (0int, 0int, 0int)
    } else {
        let c = outcome_class(outs[0], config, baseline);
        let f: int = if c.counts_found {
            1int
        } else {
            0int
        };
        let e: int = if c.is_error {
            1int
        } else {
            0int
        };
        if outs[0] is FatalFailure {
            (1int, f, e)
        } else {
            let rest = scripted_counts(outs.drop_first(), config, baseline, lim - 1);
            (1 + rest.0, f + rest.1, e + rest.2)
        }
    }
}

/// Without a fatal failure among the first `lim` outcomes, the run tests
/// every candidate up to the limit.
pub proof fn lemma_scripted_full(
    outs: Seq<ProbeOutcome>,
    config: RunConfig,
    baseline: Option<Baseline>,
    lim: int,
)
    requires
        0 <= lim <= outs.len(),
        forall|j: int| 0 <= j < lim ==> !((#[trigger] outs[j]) is FatalFailure),
    ensures
        scripted_counts(outs, config, baseline, lim).0 == lim,
    decreases lim,
{
    if lim > 0 {
        let t = outs.drop_first();
        assert forall|j: int| 0 <= j < lim - 1 implies !((#[trigger] t[j]) is FatalFailure) by {
            assert(t[j] == outs[j + 1]);
        }
        lemma_scripted_full(t, config, baseline, lim - 1);
    }
}

/// Re-running the same candidate set against the same scripted outcomes and
/// configuration yields identical counts: the summary is a function of the
/// inputs alone.
pub proof fn lemma_rerun_identical(
    outs: Seq<ProbeOutcome>,
    config: RunConfig,
    baseline: Option<Baseline>,
    lim: int,
    r1: (int, int, int),
    r2: (int, int, int),
)
    requires
        r1 == scripted_counts(outs, config, baseline, lim),
        r2 == scripted_counts(outs, config, baseline, lim),
    ensures
        r1 == r2,
{
}

/// The mode-specific unit of work: maps one candidate and the run
/// configuration to a classified outcome. Implementations own all
/// protocol-specific I/O, timeouts and retransmission.
pub trait Probe {
    fn probe(&self, candidate: &Candidate, config: &RunConfig) -> ProbeOutcome;
}

/// Runs the engine over `candidates` with one scripted outcome per
/// candidate, stopping at `cancel_at` dispatches if set and on the first
/// fatal failure. Returns the summary, the findings in dispatch order, and
/// the terminal phase.
///
/// The counts equal `scripted_counts` of the inputs exactly, so two runs
/// over the same script agree.
pub fn run_scripted(
    candidates: &Vec<Candidate>,
    outcomes: &Vec<ProbeOutcome>,
    config: &RunConfig,
    baseline: &Option<Baseline>,
    cancel_at: Option<usize>,
) -> (r: (RunSummary, Vec<Finding>, Phase))
    requires
        config.wf(),
        outcomes@.len() == candidates@.len(),
    ensures
        r.0.tested as int == scripted_counts(
            outcomes@,
            *config,
            *baseline,
            dispatch_limit(candidates@.len() as int, cancel_at),
        ).0,
        r.0.found as int == scripted_counts(
            outcomes@,
            *config,
            *baseline,
            dispatch_limit(candidates@.len() as int, cancel_at),
        ).1,
        r.0.errors as int == scripted_counts(
            outcomes@,
            *config,
            *baseline,
            dispatch_limit(candidates@.len() as int, cancel_at),
        ).2,
        r.0.found <= r.0.tested,
        r.0.errors <= r.0.tested,
        r.0.tested as int <= dispatch_limit(candidates@.len() as int, cancel_at),
        cancel_at matches Some(k) ==> (k < candidates@.len() ==> r.0.tested
            < candidates@.len()),
        r.2 is Completed || r.2 is Cancelled,
        (r.2 is Completed) <==> (dispatch_limit(candidates@.len() as int, cancel_at)
            == candidates@.len() && (forall|j: int|
            0 <= j < dispatch_limit(candidates@.len() as int, cancel_at) ==> !((
            #[trigger] outcomes@[j]) is FatalFailure))),
        (forall|j: int|
            0 <= j < dispatch_limit(candidates@.len() as int, cancel_at) ==> !((
            #[trigger] outcomes@[j]) is FatalFailure)) ==> r.0.tested as int == dispatch_limit(
            candidates@.len() as int,
            cancel_at,
        ),
        forall|j: int| 0 <= j < r.1@.len() ==> (#[trigger] r.1@[j]).index < r.0.tested,
        forall|j: int|
            0 <= j < r.1@.len() ==> outcome_class(
                outcomes@[(#[trigger] r.1@[j]).index as int],
                *config,
                *baseline,
            ).report,
        forall|j: int|
            0 <= j < r.1@.len() ==> (#[trigger] r.1@[j]).word@ == candidates@[r.1@[j].index as int].word@,
        forall|j1: int, j2: int|
            0 <= j1 < j2 < r.1@.len() ==> (#[trigger] r.1@[j1]).index < (#[trigger] r.1@[j2]).index,
        forall|t: int|
            0 <= t < r.0.tested && outcome_class(outcomes@[t], *config, *baseline).report
                ==> exists|j: int|
                0 <= j < r.1@.len() && (#[trigger] r.1@[j]).index == t,
{
    let n = candidates.len();
    let lim: usize = match cancel_at {
        None => n,
        Some(k) => if k < n {
            k
        } else {
            n
        },
    };
    let mut eng = Engine::new(config.concurrency, n);
    eng.start();
    let mut findings: Vec<Finding> = Vec::new();
    let mut i: usize = 0;
    let mut fatal = false;
    proof {
        assert(outcomes@.subrange(0, n as int) =~= outcomes@);
    }
    while i < lim && !fatal
        invariant
            i <= lim,
            lim <= n,
            lim as int == dispatch_limit(n as int, cancel_at),
            n == candidates@.len(),
            n == outcomes@.len(),
            config.wf(),
            eng.wf(),
            eng.concurrency == config.concurrency,
            eng.total == n,
            eng.in_flight == 0,
            eng.next == i,
            eng.tested == i,
            fatal ==> eng.phase is Cancelled,
            !fatal ==> eng.phase is Running,
            fatal ==> scripted_counts(outcomes@, *config, *baseline, lim as int) == (
            i as int,
            eng.found as int,
            eng.errors as int,
            ),
            !fatal ==> scripted_counts(outcomes@, *config, *baseline, lim as int) == {
                let rest = scripted_counts(
                    outcomes@.subrange(i as int, n as int),
                    *config,
                    *baseline,
                    lim - i,
                );
                (i + rest.0, eng.found + rest.1, eng.errors + rest.2)
            },
            !fatal ==> (forall|j: int| 0 <= j < i ==> !((#[trigger] outcomes@[j]) is FatalFailure)),
            fatal ==> i >= 1 && outcomes@[i - 1] is FatalFailure,
            forall|j: int| 0 <= j < findings@.len() ==> (#[trigger] findings@[j]).index < i,
            forall|j: int|
                0 <= j < findings@.len() ==> outcome_class(
                    outcomes@[(#[trigger] findings@[j]).index as int],
                    *config,
                    *baseline,
                ).report,
            forall|j: int|
                0 <= j < findings@.len() ==> (#[trigger] findings@[j]).word@
                    == candidates@[findings@[j].index as int].word@,
            forall|j1: int, j2: int|
                0 <= j1 < j2 < findings@.len() ==> (#[trigger] findings@[j1]).index < (
                #[trigger] findings@[j2]).index,
            forall|t: int|
                0 <= t < i && outcome_class(outcomes@[t], *config, *baseline).report
                    ==> exists|j: int|
                    0 <= j < findings@.len() && (#[trigger] findings@[j]).index == t,
        decreases lim - i,
    {
        let idx = eng.dispatch();
        let c = classify(&outcomes[idx], config, baseline);
        let ghost pre_findings = findings@;
        if c.report {
            let w = String::from_str(candidates[idx].word.as_str());
            findings.push(Finding { index: idx, word: w });
        }
        eng.complete(c);
        let this_fatal = matches!(&outcomes[idx], ProbeOutcome::FatalFailure { .. });
        if this_fatal {
            eng.cancel();
            fatal = true;
        }
        proof {
            let sub = outcomes@.subrange(i as int, n as int);
            assert(sub.len() == n - i);
            assert(sub[0] == outcomes@[i as int]);
            assert(sub.drop_first() =~= outcomes@.subrange(i + 1, n as int));
            let cs = outcome_class(sub[0], *config, *baseline);
            let f: int = if cs.counts_found {
                1int
            } else {
                0int
            };
            let e: int = if cs.is_error {
                1int
            } else {
                0int
            };
            if this_fatal {
                assert(scripted_counts(sub, *config, *baseline, lim - i) == (1int, f, e));
            } else {
                assert(scripted_counts(sub, *config, *baseline, lim - i) == {
                    let rest = scripted_counts(sub.drop_first(), *config, *baseline, lim - i - 1);
                    (1 + rest.0, f + rest.1, e + rest.2)
                });
            }
            assert(c == outcome_class(outcomes@[i as int], *config, *baseline));
            assert forall|t: int|
                0 <= t < i + 1 && outcome_class(outcomes@[t], *config, *baseline).report
                    implies exists|j: int|
                    0 <= j < findings@.len() && (#[trigger] findings@[j]).index == t by {
                if t < i as int {
                    let j0 = choose|j: int|
                        0 <= j < pre_findings.len() && (#[trigger] pre_findings[j]).index == t;
                    assert(findings@[j0] == pre_findings[j0]);
                    assert(findings@[j0].index == t);
                } else {
                    assert(findings@[pre_findings.len() as int].index == i);
                }
            }
        }
        i = i + 1;
    }
    proof {
        if !fatal {
            assert(i == lim);
            assert(scripted_counts(
                outcomes@.subrange(lim as int, n as int),
                *config,
                *baseline,
                0,
            ) == (0int, 0int, 0int));
        }
        if forall|j: int| 0 <= j < lim as int ==> !((#[trigger] outcomes@[j]) is FatalFailure) {
            lemma_scripted_full(outcomes@, *config, *baseline, lim as int);
        }
    }
    if !fatal {
        if lim < n {
            eng.cancel();
        } else {
            let _completed = eng.try_finish();
        }
    }
    let s = eng.summary();
    proof {
        if fatal {
            assert(0 <= i - 1 < lim as int && outcomes@[i - 1] is FatalFailure);
        }
    }
    let ghost gf = findings@;
    let result = (s, findings, eng.phase);
    proof {
        assert(result.1@ == gf);
        assert forall|t: int|
            0 <= t < result.0.tested && outcome_class(outcomes@[t], *config, *baseline).report
                implies exists|j: int|
                0 <= j < result.1@.len() && (#[trigger] result.1@[j]).index == t by {
            assert(t < i);
            let j0 = choose|j: int| 0 <= j < gf.len() && (#[trigger] gf[j]).index == t;
            assert(0 <= j0 < result.1@.len() && result.1@[j0].index == t);
        }
    }
    result
}

/// Runs the engine over `candidates`, probing each through `probe` and
/// classifying every answer. Whatever the probe returns: every dispatched
/// candidate is tested exactly once, at most the whole wordlist is tested,
/// `found` and `errors` never exceed `tested`, each finding names a tested
/// candidate the classifier reported, in dispatch order, and the run ends
/// `Completed` — with the whole wordlist tested — unless a fatal failure
/// cancelled it.
pub fn run<P: Probe>(
    probe: &P,
    candidates: &Vec<Candidate>,
    config: &RunConfig,
    baseline: &Option<Baseline>,
) -> (r: (RunSummary, Vec<Finding>, Phase))
    requires
        config.wf(),
    ensures
        r.0.tested <= candidates@.len(),
        r.0.found <= r.0.tested,
        r.0.errors <= r.0.tested,
        r.2 is Completed || r.2 is Cancelled,
        r.2 is Completed ==> r.0.tested == candidates@.len(),
        candidates@.len() == 0 ==> r.2 is Completed,
        r.2 is Cancelled ==> r.0.tested >= 1 && r.0.errors >= 1,
        forall|j: int| 0 <= j < r.1@.len() ==> (#[trigger] r.1@[j]).index < r.0.tested,
        forall|j: int|
            0 <= j < r.1@.len() ==> (#[trigger] r.1@[j]).word@ == candidates@[r.1@[j].index as int].word@,
        forall|j1: int, j2: int|
            0 <= j1 < j2 < r.1@.len() ==> (#[trigger] r.1@[j1]).index < (#[trigger] r.1@[j2]).index,
{
    let n = candidates.len();
    let mut eng = Engine::new(config.concurrency, n);
    eng.start();
    let mut findings: Vec<Finding> = Vec::new();
    let mut i: usize = 0;
    let mut fatal = false;
    while i < n && !fatal
        invariant
            i <= n,
            n == candidates@.len(),
            config.wf(),
            eng.wf(),
            eng.concurrency == config.concurrency,
            eng.total == n,
            eng.in_flight == 0,
            eng.next == i,
            eng.tested == i,
            fatal ==> eng.phase is Cancelled,
            !fatal ==> eng.phase is Running,
            fatal ==> eng.tested >= 1 && eng.errors >= 1,
            forall|j: int| 0 <= j < findings@.len() ==> (#[trigger] findings@[j]).index < i,
            forall|j: int|
                0 <= j < findings@.len() ==> (#[trigger] findings@[j]).word@
                    == candidates@[findings@[j].index as int].word@,
            forall|j1: int, j2: int|
                0 <= j1 < j2 < findings@.len() ==> (#[trigger] findings@[j1]).index < (
                #[trigger] findings@[j2]).index,
        decreases n - i,
    {
        let idx = eng.dispatch();
        let outcome = probe.probe(&candidates[idx], config);
        let c = classify(&outcome, config, baseline);
        if c.report {
            let w = String::from_str(candidates[idx].word.as_str());
            findings.push(Finding { index: idx, word: w });
        }
        eng.complete(c);
        if matches!(&outcome, ProbeOutcome::FatalFailure { .. }) {
            eng.cancel();
            fatal = true;
        }
        i = i + 1;
    }
    if !fatal {
        let _completed = eng.try_finish();
    }
    let s = eng.summary();
    (s, findings, eng.phase)
}

} // verus!

use rbuster::classify::classify;
use rbuster::config::Mode;
use rbuster::config::RunConfig;
use rbuster::engine::run;
use rbuster::engine::run_scripted;
use rbuster::engine::Engine;
use rbuster::engine::Phase;
use rbuster::engine::Probe;
use rbuster::outcome::Baseline;
use rbuster::outcome::BucketAccess;
use rbuster::outcome::FailureCause;
use rbuster::outcome::ProbeOutcome;
use rbuster::outcome::ProbePayload;
use rbuster::wordlist::filter_candidates;
use rbuster::wordlist::Candidate;

fn http_outcome(status: u16, size: usize) -> ProbeOutcome {
    ProbeOutcome::Success {
        payload: ProbePayload::Http { status, size, redirect: None, words: 0, lines: 0 },
        elapsed_ms: 5,
    }
}

fn candidates_of(words: &[&str]) -> Vec<Candidate> {
    words
        .iter()
        .enumerate()
        .map(|(index, w)| Candidate { index, word: (*w).to_string() })
        .collect()
}

#[test]
fn dir_scenario_counts_and_findings() {
    let lines: Vec<String> = vec![
        "admin".to_string(),
        "#comment".to_string(),
        "".to_string(),
        "login".to_string(),
    ];
    let cands = filter_candidates(&lines);
    assert_eq!(cands.len(), 2);
    assert_eq!(cands[0].word, "admin");
    assert_eq!(cands[1].word, "login");

    let outcomes = vec![http_outcome(200, 1000), http_outcome(404, 300)];
    let config = RunConfig::new(Mode::Dir, 4);
    let (summary, findings, phase) = run_scripted(&cands, &outcomes, &config, &None, None);
    assert_eq!(summary.tested, 2);
    assert_eq!(summary.found, 1);
    assert_eq!(summary.errors, 0);
    assert_eq!(findings.len(), 1);
    assert_eq!(findings[0].index, 0);
    assert_eq!(findings[0].word, "admin");
    assert_eq!(phase, Phase::Completed);
}

#[test]
fn dns_scenario_found_subdomain() {
    let cands = candidates_of(&["www", "mail"]);
    let outcomes = vec![
        ProbeOutcome::Success {
            payload: ProbePayload::Dns {
                addresses: vec!["93.184.216.34".to_string()],
                cnames: vec![],
            },
            elapsed_ms: 3,
        },
        ProbeOutcome::Success {
            payload: ProbePayload::Dns { addresses: vec![], cnames: vec![] },
            elapsed_ms: 3,
        },
    ];
    let config = RunConfig::new(Mode::Dns, 2);
    let (summary, findings, phase) = run_scripted(&cands, &outcomes, &config, &None, None);
    assert_eq!(summary.tested, 2);
    assert_eq!(summary.found, 1);
    assert_eq!(findings.len(), 1);
    let full = rbuster::compose::dns_target(&findings[0].word, "example.com");
    assert_eq!(full, "www.example.com");
    assert_eq!(phase, Phase::Completed);
}

#[test]
fn vhost_scenario_baseline_suppresses_all() {
    let cands = candidates_of(&["app", "dev", "stage"]);
    let baseline = Some(Baseline { status: 200, size: 5120 });
    let outcomes = vec![
        http_outcome(200, 5120),
        http_outcome(200, 5120),
        http_outcome(200, 5120),
    ];
    let config = RunConfig::new(Mode::Vhost, 3);
    let (summary, findings, phase) = run_scripted(&cands, &outcomes, &config, &baseline, None);
    assert_eq!(summary.tested, 3);
    assert_eq!(summary.found, 0);
    assert!(findings.is_empty());
    assert_eq!(phase, Phase::Completed);
}

#[test]
fn vhost_divergent_response_is_found() {
    let cands = candidates_of(&["intranet"]);
    let baseline = Some(Baseline { status: 200, size: 5120 });
    let outcomes = vec![http_outcome(200, 9000)];
    let config = RunConfig::new(Mode::Vhost, 1);
    let (summary, findings, phase) = run_scripted(&cands, &outcomes, &config, &baseline, None);
    assert_eq!(summary.found, 1);
    assert_eq!(findings[0].word, "intranet");
    assert_eq!(phase, Phase::Completed);
}

#[test]
fn rerun_same_script_is_identical() {
    let cands = candidates_of(&["a", "b", "c", "d"]);
    let make_outcomes = || {
        vec![
            http_outcome(200, 10),
            http_outcome(404, 20),
            ProbeOutcome::TransientFailure { cause: FailureCause::Timeout },
            http_outcome(301, 30),
        ]
    };
    let config = RunConfig::new(Mode::Dir, 2);
    let (s1, f1, _p1) = run_scripted(&cands, &make_outcomes(), &config, &None, None);
    let (s2, f2, _p2) = run_scripted(&cands, &make_outcomes(), &config, &None, None);
    assert_eq!(s1, s2);
    assert_eq!(s1.tested, 4);
    assert_eq!(s1.found, 2);
    assert_eq!(s1.errors, 1);
    assert_eq!(f1.len(), f2.len());
    for (a, b) in f1.iter().zip(f2.iter()) {
        assert_eq!(a.index, b.index);
        assert_eq!(a.word, b.word);
    }
}

#[test]
fn cancel_mid_run_stops_dispatch() {
    let cands = candidates_of(&["a", "b", "c", "d", "e"]);
    let outcomes = vec![
        http_outcome(200, 1),
        http_outcome(200, 2),
        http_outcome(200, 3),
        http_outcome(200, 4),
        http_outcome(200, 5),
    ];
    let config = RunConfig::new(Mode::Dir, 2);
    let (summary, findings, phase) = run_scripted(&cands, &outcomes, &config, &None, Some(2));
    assert_eq!(summary.tested, 2);
    assert!(summary.tested < cands.len());
    assert_eq!(summary.found, 2);
    assert_eq!(findings.len(), 2);
    assert_eq!(phase, Phase::Cancelled);
}

#[test]
fn fatal_failure_cancels_run() {
    let cands = candidates_of(&["a", "b", "c", "d"]);
    let outcomes = vec![
        http_outcome(200, 1),
        ProbeOutcome::FatalFailure { cause: FailureCause::BadUrl },
        http_outcome(200, 3),
        http_outcome(200, 4),
    ];
    let config = RunConfig::new(Mode::Dir, 4);
    let (summary, _findings, phase) = run_scripted(&cands, &outcomes, &config, &None, None);
    assert_eq!(summary.tested, 2);
    assert_eq!(summary.found, 1);
    assert_eq!(summary.errors, 1);
    assert_eq!(phase, Phase::Cancelled);
}

#[test]
fn bucket_not_found_reported_but_not_counted() {
    let cands = candidates_of(&["assets", "backups"]);
    let outcomes = vec![
        ProbeOutcome::Success {
            payload: ProbePayload::Bucket { access: BucketAccess::Public, sample: vec![] },
            elapsed_ms: 1,
        },
        ProbeOutcome::Success {
            payload: ProbePayload::Bucket { access: BucketAccess::NotFound, sample: vec![] },
            elapsed_ms: 1,
        },
    ];
    let config = RunConfig::new(Mode::Bucket, 2);
    let (summary, findings, phase) = run_scripted(&cands, &outcomes, &config, &None, None);
    assert_eq!(summary.tested, 2);
    assert_eq!(summary.found, 1);
    assert_eq!(findings.len(), 2);
    assert_eq!(phase, Phase::Completed);
}

struct FakeHttpProbe;

impl Probe for FakeHttpProbe {
    fn probe(&self, candidate: &Candidate, _config: &RunConfig) -> ProbeOutcome {
        if candidate.word == "admin" {
            http_outcome(200, 1234)
        } else {
            http_outcome(404, 7)
        }
    }
}

#[test]
fn trait_probe_run_matches_scenario() {
    let lines: Vec<String> = vec![
        "admin".to_string(),
        "#comment".to_string(),
        "".to_string(),
        "login".to_string(),
    ];
    let cands = filter_candidates(&lines);
    let config = RunConfig::new(Mode::Dir, 4);
    let (summary, findings, phase) = run(&FakeHttpProbe, &cands, &config, &None);
    assert_eq!(summary.tested, 2);
    assert_eq!(summary.found, 1);
    assert_eq!(findings.len(), 1);
    assert_eq!(findings[0].word, "admin");
    assert_eq!(phase, Phase::Completed);
}

#[test]
fn engine_bounds_in_flight() {
    let mut eng = Engine::new(2, 5);
    eng.start();
    assert!(eng.can_dispatch());
    let i0 = eng.dispatch();
    let i1 = eng.dispatch();
    assert_eq!(i0, 0);
    assert_eq!(i1, 1);
    assert_eq!(eng.in_flight, 2);
    assert!(!eng.can_dispatch());
    let c = classify(&http_outcome(200, 1), &RunConfig::new(Mode::Dir, 2), &None);
    eng.complete(c);
    assert!(eng.can_dispatch());
    assert!(eng.found <= eng.tested);
}

#[test]
fn engine_window_fills_to_bound_and_refills() {
    let config = RunConfig::new(Mode::Dir, 3);
    let mut eng = Engine::new(3, 5);
    eng.start();
    eng.fill_window();
    assert_eq!(eng.in_flight, 3);
    assert!(!eng.can_dispatch());
    let c = classify(&http_outcome(200, 1), &config, &None);
    eng.complete(c);
    assert_eq!(eng.in_flight, 2);
    eng.fill_window();
    assert_eq!(eng.in_flight, 3);
    assert_eq!(eng.next, 4);
    let c2 = classify(&http_outcome(200, 1), &config, &None);
    eng.complete(c2);
    eng.fill_window();
    // Source exhausted: the window holds only what is left.
    assert_eq!(eng.next, 5);
    assert_eq!(eng.in_flight, 3);
}

#[test]
fn engine_cancel_then_drain() {
    let config = RunConfig::new(Mode::Dir, 3);
    let mut eng = Engine::new(3, 10);
    eng.start();
    let _ = eng.dispatch();
    let _ = eng.dispatch();
    eng.cancel();
    assert!(!eng.can_dispatch());
    assert_eq!(eng.phase, Phase::Cancelled);
    let c = classify(&http_outcome(200, 1), &config, &None);
    eng.complete(c);
    let c2 = classify(&http_outcome(404, 1), &config, &None);
    eng.complete(c2);
    assert_eq!(eng.in_flight, 0);
    assert_eq!(eng.tested, 2);
    assert!(eng.tested < 10);
}

#[test]
fn engine_completes_when_drained() {
    let config = RunConfig::new(Mode::Dir, 1);
    let mut eng = Engine::new(1, 1);
    eng.start();
    let _ = eng.dispatch();
    let c = classify(&http_outcome(200, 1), &config, &None);
    eng.complete(c);
    assert!(eng.try_finish());
    assert_eq!(eng.phase, Phase::Completed);
    let s = eng.summary();
    assert_eq!(s.tested, 1);
}

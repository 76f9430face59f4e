use std::collections::HashSet;

use sigma2splunk::dispatcher::Dispatcher;
use sigma2splunk::response::JobStatus;
use sigma2splunk::source::{rule_inputs, WalkEntry};
use sigma2splunk::config::StartupError;
use sigma2splunk::task::{Failure, Outcome};

fn outcome_of(i: usize) -> Outcome {
    match i % 3 {
        0 => Outcome::Skipped,
        1 => Outcome::Succeeded(JobStatus::Done),
        _ => Outcome::Failed(Failure::MalformedRule),
    }
}

/// Drives a batch: workers take rules in turn, and they come back in an
/// order that differs from the order in which they were handed out.
fn run_batch(total: usize, workers: usize) -> Dispatcher {
    let mut d = Dispatcher::new(total, workers);
    let mut turn = 0usize;
    while !d.is_finished() {
        for w in 0..d.workers() {
            if d.current(w).is_none() {
                d.take(w);
            }
        }
        let busy: Vec<usize> = (0..d.workers()).filter(|w| d.current(*w).is_some()).collect();
        let w = busy[(turn * 7 + 3) % busy.len()];
        let item = d.current(w).unwrap();
        d.record(w, outcome_of(item));
        turn += 1;
    }
    d
}

#[test]
fn every_rule_gets_one_outcome() {
    for workers in [1usize, 2, 4, 9] {
        let d = run_batch(7, workers);
        assert_eq!(d.report().len(), 7);
        let items: HashSet<usize> = d.report().iter().map(|e| e.0).collect();
        assert_eq!(items, (0..7).collect::<HashSet<usize>>());
    }
}

#[test]
fn worker_count_does_not_change_outcomes() {
    let one = run_batch(6, 1);
    let many = run_batch(6, 6);
    let mut a = one.report().clone();
    let mut b = many.report().clone();
    a.sort_by_key(|e| e.0);
    b.sort_by_key(|e| e.0);
    assert_eq!(a, b);
}

#[test]
fn take_respects_the_worker_cap() {
    let mut d = Dispatcher::new(5, 2);
    assert_eq!(d.take(0), Some(0));
    assert_eq!(d.take(1), Some(1));
    assert_eq!(d.current(0), Some(0));
    d.record(1, Outcome::Skipped);
    assert_eq!(d.take(1), Some(2));
    assert!(!d.is_finished());
    assert_eq!(d.report(), &vec![(1usize, Outcome::Skipped)]);
}

#[test]
fn empty_batch_is_finished_at_once() {
    let mut d = Dispatcher::new(0, 3);
    assert!(d.is_finished());
    assert_eq!(d.take(0), None);
    assert_eq!(d.total(), 0);
    assert!(d.report().is_empty());
}

#[test]
fn nonexistent_rules_path_is_not_found() {
    match rule_inputs("no/such/dir", false, false, &Vec::new()) {
        Err(StartupError::NotFound(e)) => assert_eq!(e.file, "no/such/dir"),
        other => panic!("unexpected {:?}", other),
    }
}

#[test]
fn single_rule_file_is_one_input() {
    let r = rule_inputs("rule.yml", true, true, &Vec::new()).unwrap();
    assert_eq!(r, vec!["rule.yml".to_string()]);
}

#[test]
fn directory_walk_keeps_regular_files_in_order() {
    let walked = vec![
        WalkEntry { path: "rules".to_string(), is_file: false },
        WalkEntry { path: "rules/a.yml".to_string(), is_file: true },
        WalkEntry { path: "rules/sub".to_string(), is_file: false },
        WalkEntry { path: "rules/sub/b.yml".to_string(), is_file: true },
        WalkEntry { path: "rules/link.yml".to_string(), is_file: false },
    ];
    let r = rule_inputs("rules", true, false, &walked).unwrap();
    assert_eq!(r, vec!["rules/a.yml".to_string(), "rules/sub/b.yml".to_string()]);
}

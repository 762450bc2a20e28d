use eth_ingest::crawl::{Action, BlockOutcome, Crawler, Outcome};
use std::collections::{HashMap, HashSet};

/// Runs a crawl against an in-memory store and a provider whose first
/// `failures[n]` fetches of `n` fail; returns the summary and every fetch made.
fn drive(
    from: u64,
    to: u64,
    store: &mut HashSet<u64>,
    failures: &HashMap<u64, u32>,
) -> (Vec<BlockOutcome>, Vec<u64>) {
    let mut c = Crawler::new(from, to);
    let mut fetches: Vec<u64> = Vec::new();
    let mut tried: HashMap<u64, u32> = HashMap::new();
    loop {
        match c.action() {
            Action::CheckStore(n) => c.record_lookup(store.contains(&n)),
            Action::FetchBlock { number, attempt } => {
                fetches.push(number);
                let k = tried.entry(number).or_insert(0);
                assert_eq!(*k, attempt as u32);
                *k += 1;
                let ok = attempt as u32 >= failures.get(&number).copied().unwrap_or(0);
                if ok {
                    assert!(store.insert(number), "duplicate insert");
                }
                c.record_fetch(ok);
            }
            Action::Finished => break,
        }
    }
    assert!(c.is_finished());
    (c.summary, fetches)
}

#[test]
fn rerun_fetches_nothing_again() {
    let mut store = HashSet::new();
    let failures: HashMap<u64, u32> = [(12, 5)].into_iter().collect();
    let (first, fetches) = drive(10, 14, &mut store, &failures);
    assert_eq!(first.len(), 5);
    assert_eq!(fetches.len(), 4 + 3);
    let before = store.clone();
    let (second, fetches2) = drive(10, 14, &mut store, &HashMap::new());
    assert!(fetches2.iter().all(|n| !before.contains(n)));
    assert_eq!(fetches2, vec![12]);
    assert_eq!(second.iter().filter(|o| o.outcome == Outcome::Found).count(), 4);
    assert_eq!(store.len(), 5);
}

#[test]
fn every_number_stored_when_provider_succeeds() {
    let mut store = HashSet::new();
    let failures: HashMap<u64, u32> = [(3, 1), (4, 2)].into_iter().collect();
    let (summary, _) = drive(1, 6, &mut store, &failures);
    for n in 1..=6 {
        assert!(store.contains(&n));
    }
    assert_eq!(summary[2], BlockOutcome { number: 3, outcome: Outcome::Stored, attempts: 2 });
    assert_eq!(summary[3], BlockOutcome { number: 4, outcome: Outcome::Stored, attempts: 3 });
}

#[test]
fn always_failing_number_tried_three_times() {
    let mut store = HashSet::new();
    let failures: HashMap<u64, u32> = [(8, u32::MAX)].into_iter().collect();
    let (summary, fetches) = drive(7, 9, &mut store, &failures);
    assert_eq!(fetches.iter().filter(|&&n| n == 8).count(), 3);
    assert_eq!(summary[1], BlockOutcome { number: 8, outcome: Outcome::Skipped, attempts: 3 });
    assert!(!store.contains(&8));
    assert!(store.contains(&7) && store.contains(&9));
}

#[test]
fn single_number_range() {
    let mut store = HashSet::new();
    let (summary, fetches) = drive(42, 42, &mut store, &HashMap::new());
    assert_eq!(summary.len(), 1);
    assert_eq!(summary[0].number, 42);
    assert_eq!(fetches, vec![42]);
}

#[test]
fn inverted_range_does_nothing() {
    let c = Crawler::new(5, 4);
    assert_eq!(c.action(), Action::Finished);
    let mut store = HashSet::new();
    let (summary, fetches) = drive(5, 4, &mut store, &HashMap::new());
    assert!(summary.is_empty());
    assert!(fetches.is_empty());
}

#[test]
fn seeded_number_is_not_fetched() {
    let mut store: HashSet<u64> = [21].into_iter().collect();
    let (summary, fetches) = drive(20, 22, &mut store, &HashMap::new());
    assert!(!fetches.contains(&21));
    assert_eq!(summary[1], BlockOutcome { number: 21, outcome: Outcome::Found, attempts: 0 });
    assert_eq!(fetches, vec![20, 22]);
}

#[test]
fn range_ending_at_the_largest_number() {
    let mut store = HashSet::new();
    let (summary, fetches) = drive(u64::MAX - 1, u64::MAX, &mut store, &HashMap::new());
    assert_eq!(summary.len(), 2);
    assert_eq!(fetches, vec![u64::MAX - 1, u64::MAX]);
}

#[test]
fn retry_is_announced_by_attempt_number() {
    let mut c = Crawler::new(3, 3);
    c.record_lookup(false);
    assert_eq!(c.action(), Action::FetchBlock { number: 3, attempt: 0 });
    c.record_fetch(false);
    assert_eq!(c.action(), Action::FetchBlock { number: 3, attempt: 1 });
    c.record_fetch(true);
    assert_eq!(c.action(), Action::Finished);
}

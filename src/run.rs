use vstd::prelude::*;
use crate::crawl::{
    CrawlState, Phase, Outcome, BlockOutcome, FETCH_ATTEMPTS, initial, advance, lookup_step,
    fetch_step,
};

verus! {

/// One step of a crawl against a store that holds the numbers in `store` and a provider
/// whose first `failures(n)` fetches of number `n` fail and whose later ones succeed.
pub open spec fn respond(s: CrawlState, store: Set<u64>, failures: spec_fn(u64) -> nat) -> CrawlState {
    match s.phase {
        Phase::Lookup => lookup_step(s, store.contains(s.next)),
        Phase::Fetch => fetch_step(s, (FETCH_ATTEMPTS - s.retries_left) >= failures(s.next)),
        Phase::Done => s,
    }
}

/// The state after `fuel` steps against that store and provider.
pub open spec fn run(s: CrawlState, store: Set<u64>, failures: spec_fn(u64) -> nat, fuel: nat) -> CrawlState
    decreases fuel,
{
    if fuel == 0 {
        s
    } else {
        run(respond(s, store, failures), store, failures, (fuel - 1) as nat)
    }
}

/// Enough steps to finish a crawl over `[from, to]`.
pub open spec fn steps_for(from: u64, to: u64) -> nat {
    if from <= to {
        (4 * (to - from + 1)) as nat
    } else {
        0
    }
}

/// What a complete crawl over `[from, to]` leaves behind.
pub open spec fn crawl(from: u64, to: u64, store: Set<u64>, failures: spec_fn(u64) -> nat) -> CrawlState {
    run(initial(from, to), store, failures, steps_for(from, to))
}

/// The outcome that number `n` gets.
pub open spec fn expected(n: u64, store: Set<u64>, failures: spec_fn(u64) -> nat) -> BlockOutcome {
    if store.contains(n) {
        BlockOutcome { number: n, outcome: Outcome::Found, attempts: 0 }
    } else if failures(n) < FETCH_ATTEMPTS {
        BlockOutcome { number: n, outcome: Outcome::Stored, attempts: (failures(n) + 1) as u8 }
    } else {
        BlockOutcome { number: n, outcome: Outcome::Skipped, attempts: FETCH_ATTEMPTS }
    }
}

/// The outcomes of the numbers `from ..= to`, in ascending order.
pub open spec fn expected_run(from: u64, to: u64, store: Set<u64>, failures: spec_fn(u64) -> nat) -> Seq<BlockOutcome> {
    if from <= to {
        Seq::new((to - from + 1) as nat, |i: int| expected((from + i) as u64, store, failures))
    } else {
        Seq::empty()
    }
}

/// The store after a run that began on `store` and produced `summary`.
pub open spec fn stored_after(store: Set<u64>, summary: Seq<BlockOutcome>) -> Set<u64> {
    store.union(Set::new(|n: u64| exists|i: int| 0 <= i < summary.len()
        && summary[i].number == n && summary[i].outcome == Outcome::Stored))
}

/// The number of fetch calls spent on `n` in `summary`.
pub open spec fn fetches_of(summary: Seq<BlockOutcome>, n: u64) -> nat
    decreases summary.len(),
{
    if summary.len() == 0 {
        0
    } else {
        let last = summary.last();
        fetches_of(summary.drop_last(), n) + if last.number == n {
            last.attempts as nat
        } else {
            0
        }
    }
}

/// The number of steps a crawl spends on `n`: one lookup, then its fetches.
pub open spec fn cost(n: u64, store: Set<u64>, failures: spec_fn(u64) -> nat) -> nat {
    if store.contains(n) {
        1
    } else if failures(n) < FETCH_ATTEMPTS {
        failures(n) + 2
    } else {
        4
    }
}

proof fn lemma_run_done(s: CrawlState, store: Set<u64>, failures: spec_fn(u64) -> nat, fuel: nat)
    requires
        s.phase == Phase::Done,
    ensures
        run(s, store, failures, fuel) == s,
    decreases fuel,
{
    if fuel > 0 {
        lemma_run_done(s, store, failures, (fuel - 1) as nat);
    }
}

proof fn lemma_run_unfold(s: CrawlState, store: Set<u64>, failures: spec_fn(u64) -> nat, fuel: nat)
    requires
        fuel > 0,
    ensures
        run(s, store, failures, fuel) == run(respond(s, store, failures), store, failures, (fuel - 1) as nat),
{
}

/// From a lookup of `n`, the crawl reaches `advance(s, expected(n))` within four steps.
proof fn lemma_one_number(s: CrawlState, store: Set<u64>, failures: spec_fn(u64) -> nat, fuel: nat)
    requires
        s.wf(),
        s.phase == Phase::Lookup,
        fuel >= 4,
    ensures
        run(s, store, failures, fuel) == run(
            advance(s, expected(s.next, store, failures)),
            store,
            failures,
            (fuel - cost(s.next, store, failures)) as nat,
        ),
{
    let n = s.next;
    let e = expected(n, store, failures);
    lemma_run_unfold(s, store, failures, fuel);
    if store.contains(n) {
        assert(respond(s, store, failures) == advance(s, e));
    } else {
        let s1 = respond(s, store, failures);
        assert(s1 == CrawlState { phase: Phase::Fetch, retries_left: 3, ..s });
        lemma_run_unfold(s1, store, failures, (fuel - 1) as nat);
        if failures(n) == 0 {
            assert(respond(s1, store, failures) == advance(s, e));
            } else {
            let s2 = respond(s1, store, failures);
            assert(s2 == CrawlState { phase: Phase::Fetch, retries_left: 2, ..s });
            lemma_run_unfold(s2, store, failures, (fuel - 2) as nat);
            if failures(n) == 1 {
                assert(respond(s2, store, failures) == advance(s, e));
                    } else {
                let s3 = respond(s2, store, failures);
                assert(s3 == CrawlState { phase: Phase::Fetch, retries_left: 1, ..s });
                lemma_run_unfold(s3, store, failures, (fuel - 3) as nat);
                assert(respond(s3, store, failures) == advance(s, e));
                    }
        }
    }
}

/// The state in which a crawl over a range ending at `to` finishes.
pub open spec fn finished(to: u64, summary: Seq<BlockOutcome>) -> CrawlState {
    CrawlState {
        next: to,
        to,
        phase: Phase::Done,
        retries_left: FETCH_ATTEMPTS as nat,
        summary,
    }
}

proof fn lemma_run_rest(s: CrawlState, store: Set<u64>, failures: spec_fn(u64) -> nat, fuel: nat)
    requires
        s.wf(),
        s.phase == Phase::Lookup,
        fuel >= 4 * (s.to - s.next + 1),
    ensures
        run(s, store, failures, fuel) == finished(
            s.to,
            s.summary + expected_run(s.next, s.to, store, failures),
        ),
    decreases s.to - s.next,
{
    let e = expected(s.next, store, failures);
    lemma_one_number(s, store, failures, fuel);
    let a = advance(s, e);
    let rest = (fuel - cost(s.next, store, failures)) as nat;
    let tail = expected_run(s.next, s.to, store, failures);
    if s.next >= s.to {
        lemma_run_done(a, store, failures, rest);
        assert(tail =~= seq![e]);
        assert(s.summary.push(e) =~= s.summary + tail);
        assert(a == finished(s.to, s.summary + tail));
    } else {
        lemma_run_rest(a, store, failures, rest);
        let tail2 = expected_run(a.next, s.to, store, failures);
        assert(tail =~= seq![e] + tail2);
        assert(s.summary.push(e) + tail2 =~= s.summary + tail);
    }
}

/// A complete crawl over `[from, to]` ends finished, with one outcome per number of the
/// range, in ascending order, each the one that `expected` gives.
pub proof fn lemma_crawl(from: u64, to: u64, store: Set<u64>, failures: spec_fn(u64) -> nat)
    ensures
        crawl(from, to, store, failures).phase == Phase::Done,
        crawl(from, to, store, failures).summary == expected_run(from, to, store, failures),
{
    let s = initial(from, to);
    if from <= to {
        lemma_run_rest(s, store, failures, steps_for(from, to));
        assert(s.summary + expected_run(from, to, store, failures) =~= expected_run(from, to, store, failures));
    } else {
        lemma_run_done(s, store, failures, 0);
    }
}

proof fn lemma_fetches_of_run(from: u64, to: u64, store: Set<u64>, failures: spec_fn(u64) -> nat, n: u64)
    ensures
        fetches_of(expected_run(from, to, store, failures), n) == if from <= n <= to {
            expected(n, store, failures).attempts as nat
        } else {
            0
        },
    decreases to,
{
    let r = expected_run(from, to, store, failures);
    if from <= to {
        assert(r.last() == expected(to, store, failures));
        if from == to {
            assert(r.drop_last() =~= Seq::<BlockOutcome>::empty());
            assert(fetches_of(r.drop_last(), n) == 0);
        } else {
            let to1 = (to - 1) as u64;
            assert(r.drop_last() =~= expected_run(from, to1, store, failures));
            lemma_fetches_of_run(from, to1, store, failures, n);
        }
    }
}

/// The outcome of number `n` of `[from, to]` stands at index `n - from` of the summary.
proof fn lemma_entry(from: u64, to: u64, store: Set<u64>, failures: spec_fn(u64) -> nat, n: u64)
    requires
        from <= n <= to,
    ensures
        crawl(from, to, store, failures).summary.len() == to - from + 1,
        crawl(from, to, store, failures).summary[n - from] == expected(n, store, failures),
{
    lemma_crawl(from, to, store, failures);
}

/// A crawl writes a number only where the store lacked it, and reports each number of
/// its range once: the store never gets a second record for a number.
pub proof fn law_writes_only_absent(from: u64, to: u64, store: Set<u64>, failures: spec_fn(u64) -> nat)
    ensures
        forall|i: int| #![auto] 0 <= i < crawl(from, to, store, failures).summary.len()
            && crawl(from, to, store, failures).summary[i].outcome == Outcome::Stored
            ==> !store.contains(crawl(from, to, store, failures).summary[i].number),
        forall|i: int, j: int| #![auto] 0 <= i < j < crawl(from, to, store, failures).summary.len()
            ==> crawl(from, to, store, failures).summary[i].number
            != crawl(from, to, store, failures).summary[j].number,
{
    lemma_crawl(from, to, store, failures);
}

/// A number of the range that the provider never fails for is in the store after the
/// crawl, whether it was there before or has just been written.
pub proof fn law_complete_on_success(
    from: u64,
    to: u64,
    store: Set<u64>,
    failures: spec_fn(u64) -> nat,
    n: u64,
)
    requires
        from <= n <= to,
        failures(n) == 0,
    ensures
        stored_after(store, crawl(from, to, store, failures).summary).contains(n),
{
    lemma_entry(from, to, store, failures, n);
    let summary = crawl(from, to, store, failures).summary;
    if !store.contains(n) {
        let i = n - from;
        assert(0 <= i < summary.len() && summary[i].number == n && summary[i].outcome
            == Outcome::Stored);
    }
}

/// A number that is absent from the store and whose every fetch fails is fetched
/// exactly `FETCH_ATTEMPTS` times, then reported skipped and left unwritten.
pub proof fn law_retry_bound(
    from: u64,
    to: u64,
    store: Set<u64>,
    failures: spec_fn(u64) -> nat,
    n: u64,
)
    requires
        from <= n <= to,
        !store.contains(n),
        failures(n) >= FETCH_ATTEMPTS,
    ensures
        fetches_of(crawl(from, to, store, failures).summary, n) == FETCH_ATTEMPTS,
        crawl(from, to, store, failures).summary[n - from].outcome == Outcome::Skipped,
        !stored_after(store, crawl(from, to, store, failures).summary).contains(n),
{
    lemma_entry(from, to, store, failures, n);
    lemma_crawl(from, to, store, failures);
    lemma_fetches_of_run(from, to, store, failures, n);
    let summary = crawl(from, to, store, failures).summary;
    assert forall|i: int| 0 <= i < summary.len() && summary[i].number == n implies summary[i].outcome
        != Outcome::Stored by {
        assert(summary[i] == expected((from + i) as u64, store, failures));
    }
}

/// A number that the store already holds is never fetched and never written.
pub proof fn law_seeded_number_untouched(
    from: u64,
    to: u64,
    store: Set<u64>,
    failures: spec_fn(u64) -> nat,
    n: u64,
)
    requires
        store.contains(n),
    ensures
        fetches_of(crawl(from, to, store, failures).summary, n) == 0,
        forall|i: int| #![auto] 0 <= i < crawl(from, to, store, failures).summary.len()
            && crawl(from, to, store, failures).summary[i].number == n
            ==> crawl(from, to, store, failures).summary[i].outcome == Outcome::Found,
{
    lemma_crawl(from, to, store, failures);
    lemma_fetches_of_run(from, to, store, failures, n);
}

/// The range `[n, n]` reports exactly the number `n`, and fetches no other.
pub proof fn law_single_number_range(store: Set<u64>, failures: spec_fn(u64) -> nat, n: u64)
    ensures
        crawl(n, n, store, failures).summary.len() == 1,
        crawl(n, n, store, failures).summary[0].number == n,
        forall|m: u64| m != n ==> fetches_of(crawl(n, n, store, failures).summary, m) == 0,
{
    lemma_entry(n, n, store, failures, n);
    lemma_crawl(n, n, store, failures);
    assert forall|m: u64| m != n implies fetches_of(crawl(n, n, store, failures).summary, m) == 0 by {
        lemma_fetches_of_run(n, n, store, failures, m);
    }
}

/// An inverted range is finished from the start: it asks for no work and fetches nothing.
pub proof fn law_inverted_range(from: u64, to: u64, store: Set<u64>, failures: spec_fn(u64) -> nat)
    requires
        from > to,
    ensures
        initial(from, to).phase == Phase::Done,
        crawl(from, to, store, failures).summary.len() == 0,
        forall|m: u64| fetches_of(crawl(from, to, store, failures).summary, m) == 0,
{
    lemma_crawl(from, to, store, failures);
}

/// Running the same range again over the store that the first run left fetches nothing
/// for any number the store then holds, and writes no number twice.
pub proof fn law_rerun_idempotent(
    from: u64,
    to: u64,
    store: Set<u64>,
    failures: spec_fn(u64) -> nat,
    failures_again: spec_fn(u64) -> nat,
)
    ensures
        forall|n: u64| #[trigger]
            stored_after(store, crawl(from, to, store, failures).summary).contains(n) ==> fetches_of(
                crawl(
                    from,
                    to,
                    stored_after(store, crawl(from, to, store, failures).summary),
                    failures_again,
                ).summary,
                n,
            ) == 0,
        forall|i: int| #![auto] 0 <= i < crawl(
            from,
            to,
            stored_after(store, crawl(from, to, store, failures).summary),
            failures_again,
        ).summary.len() && crawl(
            from,
            to,
            stored_after(store, crawl(from, to, store, failures).summary),
            failures_again,
        ).summary[i].outcome == Outcome::Stored ==> !stored_after(
            store,
            crawl(from, to, store, failures).summary,
        ).contains(
            crawl(
                from,
                to,
                stored_after(store, crawl(from, to, store, failures).summary),
                failures_again,
            ).summary[i].number,
        ),
{
    let first = stored_after(store, crawl(from, to, store, failures).summary);
    assert forall|n: u64| #[trigger] first.contains(n) implies fetches_of(
        crawl(from, to, first, failures_again).summary,
        n,
    ) == 0 by {
        law_seeded_number_untouched(from, to, first, failures_again, n);
    }
    law_writes_only_absent(from, to, first, failures_again);
}

} // verus!

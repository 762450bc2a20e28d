use vstd::prelude::*;

verus! {

/// How many times one block number is fetched before it is given up for the run.
pub const FETCH_ATTEMPTS: u8 = 3;

/// Where a crawl stands for its current block number.
#[derive(Clone, Copy, Debug, PartialEq, Eq, Structural)]
pub enum Phase {
    /// The store is to be asked whether the number is already persisted.
    Lookup,
    /// The provider is to be asked for the block.
    Fetch,
    /// Every number of the range has an outcome.
    Done,
}

/// The terminal result for one block number.
#[derive(Clone, Copy, Debug, PartialEq, Eq, Structural)]
pub enum Outcome {
    /// The store already held the number: it was neither fetched nor written.
    Found,
    /// The block was fetched and persisted.
    Stored,
    /// Every fetch failed: nothing was persisted for the number.
    Skipped,
}

/// One line of a run's summary: a block number, its outcome, and how many fetch
/// calls were spent on it.
#[derive(Clone, Copy, Debug, PartialEq, Eq, Structural)]
pub struct BlockOutcome {
    pub number: u64,
    pub outcome: Outcome,
    pub attempts: u8,
}

/// The next piece of outside work a crawl asks for.
#[derive(Clone, Copy, Debug, PartialEq, Eq, Structural)]
pub enum Action {
    /// Ask the store whether this block number is persisted.
    CheckStore(u64),
    /// Fetch this block number with its transactions; `attempt` counts from zero,
    /// and a non-zero one is a retry that follows a short delay.
    FetchBlock { number: u64, attempt: u8 },
    /// The range is exhausted.
    Finished,
}

/// The mathematical state of a crawl.
pub struct CrawlState {
    pub next: u64,
    pub to: u64,
    pub phase: Phase,
    pub retries_left: nat,
    pub summary: Seq<BlockOutcome>,
}

impl CrawlState {
    pub open spec fn wf(self) -> bool {
        &&& self.phase != Phase::Done ==> self.next <= self.to
        &&& self.phase == Phase::Fetch ==> 1 <= self.retries_left <= FETCH_ATTEMPTS
        &&& self.phase == Phase::Lookup ==> self.retries_left == FETCH_ATTEMPTS
    }
}

/// The state in which a crawl over the inclusive range `[from, to]` starts.
pub open spec fn initial(from: u64, to: u64) -> CrawlState {
    CrawlState {
        next: from,
        to,
        phase: if from <= to {
            Phase::Lookup
        } else {
            Phase::Done
        },
        retries_left: FETCH_ATTEMPTS as nat,
        summary: Seq::empty(),
    }
}

/// Records `o` for the current number and moves to the next one, or ends the run.
pub open spec fn advance(s: CrawlState, o: BlockOutcome) -> CrawlState {
    if s.next >= s.to {
        CrawlState {
            phase: Phase::Done,
            retries_left: FETCH_ATTEMPTS as nat,
            summary: s.summary.push(o),
            ..s
        }
    } else {
        CrawlState {
            next: (s.next + 1) as u64,
            phase: Phase::Lookup,
            retries_left: FETCH_ATTEMPTS as nat,
            summary: s.summary.push(o),
            ..s
        }
    }
}

/// The store answered whether the current number is persisted.
pub open spec fn lookup_step(s: CrawlState, present: bool) -> CrawlState {
    if present {
        advance(s, BlockOutcome { number: s.next, outcome: Outcome::Found, attempts: 0 })
    } else {
        CrawlState { phase: Phase::Fetch, retries_left: FETCH_ATTEMPTS as nat, ..s }
    }
}

/// The provider answered a fetch of the current number; `fetched` means that the block
/// came back and was persisted.
pub open spec fn fetch_step(s: CrawlState, fetched: bool) -> CrawlState {
    let attempts = (FETCH_ATTEMPTS - s.retries_left + 1) as u8;
    if fetched {
        advance(s, BlockOutcome { number: s.next, outcome: Outcome::Stored, attempts })
    } else if s.retries_left <= 1 {
        advance(s, BlockOutcome { number: s.next, outcome: Outcome::Skipped, attempts })
    } else {
        CrawlState { retries_left: (s.retries_left - 1) as nat, ..s }
    }
}

/// The work that state `s` asks for.
pub open spec fn action_of(s: CrawlState) -> Action {
    match s.phase {
        Phase::Lookup => Action::CheckStore(s.next),
        Phase::Fetch => Action::FetchBlock {
            number: s.next,
            attempt: (FETCH_ATTEMPTS - s.retries_left) as u8,
        },
        Phase::Done => Action::Finished,
    }
}

/// A crawl over an inclusive range of block numbers, in ascending order: for each
/// number the store is asked first, and only an absent number is fetched, at most
/// `FETCH_ATTEMPTS` times. The caller performs each requested action and reports back.
pub struct Crawler {
    pub next: u64,
    pub to: u64,
    pub phase: Phase,
    pub retries_left: u8,
    pub summary: Vec<BlockOutcome>,
}

impl View for Crawler {
    type V = CrawlState;

    open spec fn view(&self) -> CrawlState {
        CrawlState {
            next: self.next,
            to: self.to,
            phase: self.phase,
            retries_left: self.retries_left as nat,
            summary: self.summary@,
        }
    }
}

impl Crawler {
    pub open spec fn wf(&self) -> bool {
        self@.wf()
    }

    /// A crawl over `[from, to]`; an inverted range is finished from the start.
    pub fn new(from: u64, to: u64) -> (r: Crawler)
        ensures
            r@ == initial(from, to),
            r.wf(),
    {
        Crawler {
            next: from,
            to,
            phase: if from <= to {
                Phase::Lookup
            } else {
                Phase::Done
            },
            retries_left: FETCH_ATTEMPTS,
            summary: Vec::new(),
        }
    }

    /// The next piece of work to perform.
    pub fn action(&self) -> (r: Action)
        requires
            self.wf(),
        ensures
            r == action_of(self@),
    {
        match self.phase {
            Phase::Lookup => Action::CheckStore(self.next),
            Phase::Fetch => Action::FetchBlock {
                number: self.next,
                attempt: FETCH_ATTEMPTS - self.retries_left,
            },
            Phase::Done => Action::Finished,
        }
    }

    pub fn is_finished(&self) -> (r: bool)
        ensures
            r == (self@.phase == Phase::Done),
    {
        match self.phase {
            Phase::Done => true,
            _ => false,
        }
    }

    fn advance(&mut self, o: BlockOutcome)
        requires
            old(self).wf(),
            old(self).phase != Phase::Done,
        ensures
            final(self)@ == advance(old(self)@, o),
            final(self).wf(),
    {
        self.summary.push(o);
        self.retries_left = FETCH_ATTEMPTS;
        if self.next >= self.to {
            self.phase = Phase::Done;
        } else {
            self.next = self.next + 1;
            self.phase = Phase::Lookup;
        }
    }

    /// Reports the store's answer to `Action::CheckStore`.
    pub fn record_lookup(&mut self, present: bool)
        requires
            old(self).wf(),
            old(self)@.phase == Phase::Lookup,
        ensures
            final(self)@ == lookup_step(old(self)@, present),
            final(self).wf(),
    {
        if present {
            let o = BlockOutcome { number: self.next, outcome: Outcome::Found, attempts: 0 };
            self.advance(o);
        } else {
            self.phase = Phase::Fetch;
            self.retries_left = FETCH_ATTEMPTS;
        }
    }

    /// Reports the result of `Action::FetchBlock`: `fetched` when the block came back
    /// and was persisted, false when the fetch failed.
    pub fn record_fetch(&mut self, fetched: bool)
        requires
            old(self).wf(),
            old(self)@.phase == Phase::Fetch,
        ensures
            final(self)@ == fetch_step(old(self)@, fetched),
            final(self).wf(),
    {
        let attempts = FETCH_ATTEMPTS - self.retries_left + 1;
        if fetched {
            let o = BlockOutcome { number: self.next, outcome: Outcome::Stored, attempts };
            self.advance(o);
        } else if self.retries_left <= 1 {
            let o = BlockOutcome { number: self.next, outcome: Outcome::Skipped, attempts };
            self.advance(o);
        } else {
            self.retries_left = self.retries_left - 1;
        }
    }
}

} // verus!

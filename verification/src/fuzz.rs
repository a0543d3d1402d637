//! The fuzzing engine's verified core: the run configuration, the
//! per-candidate decision (filter, then render one output line), and the
//! bookkeeping of a bounded-concurrency run, whose invariant keeps at
//! most `limit` probes in flight.

use vstd::prelude::*;
use crate::error::FuzzError;
use crate::filters::ProbeResponseFilters;
use crate::probe::HttpProbe;
use crate::probe::ProbeResponse;

verus! {

/// The configuration of one run: the probe, the filters, a per-worker
/// delay in milliseconds (0 meaning none), the worker count, and the
/// verbosity flag.
pub struct HttpFuzzer {
    pub http_probe: HttpProbe,
    pub filters: ProbeResponseFilters,
    pub delay_ms: u64,
    pub num_threads: usize,
    pub verbose: bool,
}

impl HttpFuzzer {
    pub fn new(
        http_probe: HttpProbe,
        filters: ProbeResponseFilters,
        delay_ms: u64,
        num_threads: usize,
        verbose: bool,
    ) -> (r: HttpFuzzer)
        requires
            num_threads >= 1,
        ensures
            r == (HttpFuzzer { http_probe, filters, delay_ms, num_threads, verbose }),
    {
        HttpFuzzer { http_probe, filters, delay_ms, num_threads, verbose }
    }

    /// The per-candidate decision once a response arrives: a filtered
    /// response yields nothing; a surviving one yields exactly its
    /// rendered output line.
    pub fn handle_response(&self, response: ProbeResponse) -> (r: Option<String>)
        ensures
            match r {
                Some(line) => !self.filters.ignores(response) && line@ == response.display_spec(
                    self.verbose,
                ),
                None => self.filters.ignores(response),
            },
    {
        match self.filters.filter(response) {
            Some(kept) => Some(kept.display(self.verbose)),
            None => None,
        }
    }
}

/// The lifecycle of one run.
#[derive(Clone, Copy, Debug, PartialEq, Eq)]
pub enum RunState {
    Idle,
    Running,
    Completed,
    Aborted,
}

/// Bookkeeping of one bounded-concurrency run. It counts dispatched and
/// completed units, remembers the first error observed, and its invariant
/// keeps the number of in-flight probes at or under `limit`.
pub struct FuzzRun {
    pub limit: usize,
    pub total: usize,
    pub state: RunState,
    pub dispatched: usize,
    pub completed: usize,
    pub first_error: Option<FuzzError>,
}

impl FuzzRun {
    /// Units dispatched and not yet completed.
    pub open spec fn in_flight(self) -> int {
        self.dispatched - self.completed
    }

    /// The run's invariant; every operation preserves it.
    pub open spec fn wf(self) -> bool {
        &&& self.limit >= 1
        &&& self.completed <= self.dispatched <= self.total
        &&& self.in_flight() <= self.limit
        &&& (self.state is Idle ==> self.dispatched == 0 && self.completed == 0
            && self.first_error is None)
        &&& (self.state is Completed ==> self.dispatched == self.total && self.completed
            == self.total && self.first_error is None)
        &&& (self.state is Aborted ==> self.dispatched == self.total && self.completed
            == self.total && self.first_error is Some)
    }

    /// A fresh run over `total` candidates under a concurrency cap.
    pub fn new(limit: usize, total: usize) -> (r: FuzzRun)
        requires
            limit >= 1,
        ensures
            r.wf(),
            r == (FuzzRun {
                limit,
                total,
                state: RunState::Idle,
                dispatched: 0,
                completed: 0,
                first_error: None,
            }),
    {
        FuzzRun {
            limit,
            total,
            state: RunState::Idle,
            dispatched: 0,
            completed: 0,
            first_error: None,
        }
    }

    pub fn start(&mut self)
        requires
            old(self).wf(),
            old(self).state is Idle,
        ensures
            final (self).wf(),
            *final (self) == (FuzzRun { state: RunState::Running, ..*old(self) }),
    {
        self.state = RunState::Running;
    }

    /// Another unit may be dispatched: the run is underway, a worker
    /// slot is free, and candidates remain.
    pub open spec fn can_dispatch(self) -> bool {
        self.state is Running && self.in_flight() < self.limit && self.dispatched < self.total
    }

    /// Claims the next unit of work if the cap and the wordlist allow.
    pub fn try_dispatch(&mut self) -> (r: bool)
        requires
            old(self).wf(),
        ensures
            final (self).wf(),
            r == old(self).can_dispatch(),
            r ==> *final (self) == (FuzzRun {
                dispatched: (old(self).dispatched + 1) as usize,
                ..*old(self)
            }),
            !r ==> *final (self) == *old(self),
    {
        let running = match self.state {
            RunState::Running => true,
            _ => false,
        };
        if running && self.dispatched - self.completed < self.limit && self.dispatched
            < self.total {
            self.dispatched = self.dispatched + 1;
            true
        } else {
            false
        }
    }

    /// Reconciles one completed unit, remembering the first error.
    pub fn on_unit_complete(&mut self, result: Result<(), FuzzError>)
        requires
            old(self).wf(),
            old(self).state is Running,
            old(self).in_flight() > 0,
        ensures
            final (self).wf(),
            final (self).completed == old(self).completed + 1,
            final (self).dispatched == old(self).dispatched,
            final (self).limit == old(self).limit,
            final (self).total == old(self).total,
            final (self).state == old(self).state,
            final (self).first_error == (match (old(self).first_error, result) {
                (Some(e), _) => Some(e),
                (None, Err(e)) => Some(e),
                (None, Ok(_)) => None::<FuzzError>,
            }),
    {
        self.completed = self.completed + 1;
        if self.first_error.is_none() {
            if let Err(e) = result {
                self.first_error = Some(e);
            }
        }
    }

    /// Closes the run: `Completed`, or `Aborted` if any unit failed.
    pub fn finish(&mut self)
        requires
            old(self).wf(),
            old(self).state is Running,
            old(self).dispatched == old(self).total,
            old(self).completed == old(self).total,
        ensures
            final (self).wf(),
            *final (self) == (FuzzRun {
                state: if old(self).first_error is Some {
                    RunState::Aborted
                } else {
                    RunState::Completed
                },
                ..*old(self)
            }),
    {
        if self.first_error.is_some() {
            self.state = RunState::Aborted;
        } else {
            self.state = RunState::Completed;
        }
    }

    /// The aggregate result of the run: the first error observed while
    /// reconciling units, if any.
    pub fn into_result(self) -> (r: Result<(), FuzzError>)
        ensures
            match r {
                Ok(_) => self.first_error is None,
                Err(e) => self.first_error == Some(e),
            },
    {
        match self.first_error {
            Some(e) => Err(e),
            None => Ok(()),
        }
    }
}

/// In every reachable run state, at most `limit` probes are in flight:
/// the bound is part of the invariant that each operation preserves.
pub proof fn lemma_in_flight_bounded(r: FuzzRun)
    requires
        r.wf(),
    ensures
        r.in_flight() <= r.limit,
{
}

} // verus!

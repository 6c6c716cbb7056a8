//! The progress of a mutational push stage: which corpus entry it works on
//! and how many mutated inputs it still hands out. Scheduling, mutating and
//! executing are done by the caller, which feeds the results back here.

use vstd::prelude::*;

verus! {

/// The most mutated inputs a stage hands out for one corpus entry.
pub const DEFAULT_MUTATIONAL_MAX_ITERATIONS: usize = 128;

/// The number of inputs to hand out for one corpus entry, from a random
/// draw below `DEFAULT_MUTATIONAL_MAX_ITERATIONS`.
pub fn iterations(draw: usize) -> (r: usize)
    requires
        draw < DEFAULT_MUTATIONAL_MAX_ITERATIONS,
    ensures
        r == 1 + draw,
        1 <= r <= DEFAULT_MUTATIONAL_MAX_ITERATIONS,
{
    1 + draw
}

/// The state of a mutational push stage between its steps.
pub struct StdMutationalPushStage {
    current_corpus_id: Option<usize>,
    testcases_to_do: usize,
    testcases_done: usize,
}

impl StdMutationalPushStage {
    pub closed spec fn spec_current(&self) -> Option<usize> {
        self.current_corpus_id
    }

    pub closed spec fn spec_to_do(&self) -> usize {
        self.testcases_to_do
    }

    pub closed spec fn spec_done(&self) -> usize {
        self.testcases_done
    }

    /// A stage with no corpus entry and nothing to do.
    pub fn new() -> (r: StdMutationalPushStage)
        ensures
            r.spec_current() is None,
            r.spec_to_do() == 0,
            r.spec_done() == 0,
    {
        StdMutationalPushStage { current_corpus_id: None, testcases_to_do: 0, testcases_done: 0 }
    }

    /// Fixes the corpus entry to work on next.
    pub fn set_current_corpus_id(&mut self, current_corpus_id: usize)
        ensures
            final(self).spec_current() == Some(current_corpus_id),
            final(self).spec_to_do() == old(self).spec_to_do(),
            final(self).spec_done() == old(self).spec_done(),
    {
        self.current_corpus_id = Some(current_corpus_id);
    }

    /// The corpus entry being worked on.
    pub fn current_corpus_id(&self) -> (r: Option<usize>)
        ensures
            r == self.spec_current(),
    {
        self.current_corpus_id
    }

    /// Whether `init` needs an entry from the scheduler.
    pub fn needs_scheduling(&self) -> (r: bool)
        ensures
            r == self.spec_current() is None,
    {
        self.current_corpus_id.is_none()
    }

    /// Starts a round: keeps the entry set before, else takes `scheduled`
    /// (the scheduler's pick), and plans `1 + draw` inputs.
    pub fn init(&mut self, scheduled: usize, draw: usize)
        requires
            draw < DEFAULT_MUTATIONAL_MAX_ITERATIONS,
        ensures
            final(self).spec_current() == (match old(self).spec_current() {
                Some(id) => Some(id),
                None => Some(scheduled),
            }),
            final(self).spec_to_do() == 1 + draw,
            final(self).spec_done() == 0,
    {
        if self.current_corpus_id.is_none() {
            self.current_corpus_id = Some(scheduled);
        }
        self.testcases_to_do = iterations(draw);
        self.testcases_done = 0;
    }

    /// Before an execution: the corpus entry whose input is to be cloned
    /// and mutated, or nothing where the round is over.
    pub fn pre_exec(&self) -> (r: Option<usize>)
        ensures
            r == (if self.spec_done() < self.spec_to_do() {
                self.spec_current()
            } else {
                None
            }),
    {
        if self.testcases_done >= self.testcases_to_do {
            return None;
        }
        self.current_corpus_id
    }

    /// After an execution has been evaluated: one more input is done.
    pub fn post_exec(&mut self)
        requires
            old(self).spec_done() < usize::MAX,
        ensures
            final(self).spec_done() == old(self).spec_done() + 1,
            final(self).spec_to_do() == old(self).spec_to_do(),
            final(self).spec_current() == old(self).spec_current(),
    {
        self.testcases_done = self.testcases_done + 1;
    }

    /// Ends the round: the next one asks the scheduler again.
    pub fn deinit(&mut self)
        ensures
            final(self).spec_current() is None,
            final(self).spec_to_do() == old(self).spec_to_do(),
            final(self).spec_done() == old(self).spec_done(),
    {
        self.current_corpus_id = None;
    }
}

} // verus!

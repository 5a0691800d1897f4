//! The execution engine: the stages of one line run strictly in order, each
//! reading what the one before it wrote; only the last stage's output reaches
//! the terminal.
use vstd::prelude::*;
use crate::errors::Error;
use crate::shell::{Output, OutputView};

verus! {

/// The progress of one line through its stages.
///
/// The caller asks `next_stage` for the stage to run and its input, runs it,
/// and hands its output to `complete`, or its fatal error to `fail`; when
/// `next_stage` has nothing more, `finish` gives what the line produced.
pub struct Pipeline {
    /// How many stages the line has.
    pub stages: usize,
    /// The index of the next stage to run.
    pub next: usize,
    /// The output of the last stage that ran; before the first, an empty
    /// output with code 0. Its `stdout` is handed to the next stage.
    pub last: Output,
    /// A stage has been handed out and has not completed.
    pub running: bool,
    /// The fatal error of a stage, which abandoned the rest of the line.
    pub failed: Option<Error>,
}

impl Pipeline {
    pub open spec fn wf(&self) -> bool {
        self.next <= self.stages && (self.running ==> self.next < self.stages && self.failed is None)
    }

    /// No further stage runs: all have run, one failed, or one asked for the
    /// process to end.
    pub open spec fn is_over(&self) -> bool {
        self.failed is Some || self.last.exit || self.next >= self.stages
    }

    /// A line of `stages` stages, none run yet.
    pub fn new(stages: usize) -> (r: Pipeline)
        ensures
            r.wf(),
            r.stages == stages,
            r.next == 0,
            !r.running,
            r.failed is None,
            r.last@ == (OutputView { exit: false, code: 0, stdout: None }),
    {
        Pipeline { stages, next: 0, last: Output::empty(0), running: false, failed: None }
    }

    /// The next stage to run, with its input: the output of the stage before
    /// it, which the pipeline gives up. `None` once the line is over.
    pub fn next_stage(&mut self) -> (r: Option<(usize, Option<Vec<u8>>)>)
        requires
            old(self).wf(),
            !old(self).running,
        ensures
            final(self).wf(),
            old(self).is_over() ==> r is None && *final(self) == *old(self),
            !old(self).is_over() ==> r == Some((old(self).next as usize, old(self).last.stdout)),
            !old(self).is_over() ==> final(self).running,
            !old(self).is_over() ==> final(self).next == old(self).next,
            !old(self).is_over() ==> final(self).stages == old(self).stages,
            !old(self).is_over() ==> final(self).last.stdout is None,
            !old(self).is_over() ==> final(self).last.exit == old(self).last.exit,
            !old(self).is_over() ==> final(self).last.code == old(self).last.code,
            !old(self).is_over() ==> final(self).failed is None,
    {
        if self.failed.is_some() || self.last.exit || self.next >= self.stages {
            return None;
        }
        let carry = self.last.stdout.take();
        self.running = true;
        Some((self.next, carry))
    }

    /// Records the output of the stage that `next_stage` handed out.
    pub fn complete(&mut self, out: Output)
        requires
            old(self).wf(),
            old(self).running,
        ensures
            final(self).wf(),
            !final(self).running,
            final(self).stages == old(self).stages,
            final(self).next == old(self).next + 1,
            final(self).last == out,
            final(self).failed is None,
    {
        self.last = out;
        self.next = self.next + 1;
        self.running = false;
    }

    /// Records that the stage that `next_stage` handed out failed: the rest of
    /// the line is abandoned.
    pub fn fail(&mut self, e: Error)
        requires
            old(self).wf(),
            old(self).running,
        ensures
            final(self).wf(),
            !final(self).running,
            final(self).stages == old(self).stages,
            final(self).next == old(self).next,
            final(self).failed == Some(e),
            final(self).is_over(),
    {
        self.failed = Some(e);
        self.running = false;
    }

    /// What the line produced. After a failed stage, its error: nothing is
    /// written to the terminal. Else the output of the last stage that ran:
    /// its `stdout` is the only thing written to the terminal, and with `exit`
    /// set the process then ends with `code`.
    pub fn finish(self) -> (r: Result<Output, Error>)
        ensures
            self.failed matches Some(e) ==> r == Err::<Output, Error>(e),
            self.failed is None ==> r == Ok::<Output, Error>(self.last),
    {
        match self.failed {
            Some(e) => Err(e),
            None => Ok(self.last),
        }
    }
}

} // verus!

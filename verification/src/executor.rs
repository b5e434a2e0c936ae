//! The cooperative, single-threaded task queue that drives one request.
//!
//! Tasks run to their next suspension point without preemption, in FIFO
//! order among the runnable; a task suspends only at an explicit
//! await-readiness point, parking on a host readiness handle. When nothing
//! is runnable the executor either blocks on the union of all outstanding
//! readiness handles (`Stalled`) or re-checks each handle in turn
//! (`Polling`). Waking a handle moves every task parked on it back to the
//! runnable queue, in its parking order: no task is lost or reordered.

use vstd::prelude::*;

verus! {

/// How the executor behaves when no task is immediately runnable.
#[derive(PartialEq, Eq, Structural, Clone, Copy, Debug)]
pub enum Mode {
    /// Block on a host-level "wait for any of these handles" call.
    Stalled,
    /// Spin, re-checking each outstanding handle's readiness in turn.
    Polling,
}

/// What the executor's loop must do next.
pub enum SchedulerAction {
    /// Drive the named task to its next suspension point.
    Run(u64),
    /// Block on the union of these readiness handles, then re-poll.
    WaitAny(Vec<u64>),
    /// Check each of these readiness handles in turn.
    PollEach(Vec<u64>),
    /// Nothing runnable and nothing suspended: the root future is done.
    Idle,
}

/// The task ids of a parking list, in order.
pub open spec fn tasks_of(s: Seq<(u64, u64)>) -> Seq<u64> {
    s.map_values(|p: (u64, u64)| p.0)
}

/// The readiness handles of a parking list, in order.
pub open spec fn handles_of(s: Seq<(u64, u64)>) -> Seq<u64> {
    s.map_values(|p: (u64, u64)| p.1)
}

/// The tasks of `s` parked on handle `h`, in their parking order.
pub open spec fn woken(s: Seq<(u64, u64)>, h: u64) -> Seq<u64>
    decreases s.len(),
{
    if s.len() == 0 {
        Seq::empty()
    } else if s.last().1 == h {
        woken(s.drop_last(), h).push(s.last().0)
    } else {
        woken(s.drop_last(), h)
    }
}

/// The entries of `s` not parked on handle `h`, in their order.
pub open spec fn still_parked(s: Seq<(u64, u64)>, h: u64) -> Seq<(u64, u64)>
    decreases s.len(),
{
    if s.len() == 0 {
        s
    } else if s.last().1 == h {
        still_parked(s.drop_last(), h)
    } else {
        still_parked(s.drop_last(), h).push(s.last())
    }
}

/// The per-request task queue: runnable tasks in FIFO order, and suspended
/// tasks each parked on the readiness handle it awaits. Tasks are owned by
/// the executor for the duration of one request invocation.
pub struct Executor {
    mode: Mode,
    runnable: Vec<u64>,
    suspended: Vec<(u64, u64)>,
}

impl Executor {
    /// The executor's operating mode.
    pub closed spec fn mode_of(&self) -> Mode {
        self.mode
    }

    /// Which mode the executor was built with.
    pub fn mode(&self) -> (r: Mode)
        ensures
            r == self.mode_of(),
    {
        self.mode
    }

    /// The runnable tasks, front of the queue first.
    pub closed spec fn runnable(&self) -> Seq<u64> {
        self.runnable@
    }

    /// The suspended tasks, each with the readiness handle it awaits, in
    /// parking order.
    pub closed spec fn suspended(&self) -> Seq<(u64, u64)> {
        self.suspended@
    }

    /// An executor with no tasks.
    pub fn new(mode: Mode) -> (r: Executor)
        ensures
            r.mode_of() == mode,
            r.runnable() == Seq::<u64>::empty(),
            r.suspended() == Seq::<(u64, u64)>::empty(),
    {
        Executor { mode, runnable: Vec::new(), suspended: Vec::new() }
    }

    /// Enqueue a unit of work at the back of the runnable queue.
    pub fn schedule(&mut self, task: u64)
        ensures
            final(self).runnable() == old(self).runnable().push(task),
            final(self).suspended() == old(self).suspended(),
            final(self).mode_of() == old(self).mode_of(),
    {
        self.runnable.push(task);
    }

    /// Dequeue the task that has waited longest, if any: FIFO among
    /// runnable tasks.
    pub fn take_next(&mut self) -> (r: Option<u64>)
        ensures
            final(self).suspended() == old(self).suspended(),
            final(self).mode_of() == old(self).mode_of(),
            old(self).runnable().len() == 0 ==> r is None && final(self).runnable() == old(
                self,
            ).runnable(),
            old(self).runnable().len() > 0 ==> {
                &&& r == Some(old(self).runnable()[0])
                &&& final(self).runnable() == old(self).runnable().drop_first()
            },
    {
        if self.runnable.len() == 0 {
            None
        } else {
            let t = self.runnable.remove(0);
            proof {
                assert(self.runnable@ =~= old(self).runnable().drop_first());
            }
            Some(t)
        }
    }

    /// Park a task on the readiness handle it awaits.
    pub fn suspend(&mut self, task: u64, handle: u64)
        ensures
            final(self).runnable() == old(self).runnable(),
            final(self).suspended() == old(self).suspended().push((task, handle)),
            final(self).mode_of() == old(self).mode_of(),
    {
        self.suspended.push((task, handle));
    }

    /// A readiness handle became ready: every task parked on it moves to
    /// the back of the runnable queue, in its parking order; the others
    /// stay parked, in theirs. No task is lost or duplicated.
    pub fn wake(&mut self, handle: u64)
        ensures
            final(self).runnable() == old(self).runnable() + woken(old(self).suspended(), handle),
            final(self).suspended() == still_parked(old(self).suspended(), handle),
            final(self).mode_of() == old(self).mode_of(),
    {
        let ghost all = self.suspended@;
        let ghost run0 = self.runnable@;
        let mut kept: Vec<(u64, u64)> = Vec::new();
        let mut i: usize = 0;
        while i < self.suspended.len()
            invariant
                i <= all.len(),
                self.mode_of() == old(self).mode_of(),
                self.suspended@ == all,
                self.runnable@ == run0 + woken(all.subrange(0, i as int), handle),
                kept@ == still_parked(all.subrange(0, i as int), handle),
            decreases all.len() - i,
        {
            let ghost pre = all.subrange(0, i as int);
            proof {
                assert(all.subrange(0, i + 1).drop_last() =~= pre);
                assert(all.subrange(0, i + 1).last() == all[i as int]);
            }
            let (task, h) = self.suspended[i];
            if h == handle {
                let ghost r_pre = self.runnable@;
                self.runnable.push(task);
                proof {
                    assert(self.runnable@ =~= run0 + woken(all.subrange(0, i + 1), handle)) by {
                        assert(woken(all.subrange(0, i + 1), handle) =~= woken(pre, handle).push(
                            task,
                        ));
                        assert(self.runnable@ =~= r_pre.push(task));
                    }
                }
            } else {
                kept.push((task, h));
            }
            i += 1;
        }
        proof {
            assert(all.subrange(0, all.len() as int) =~= all);
        }
        self.suspended = kept;
    }

    /// The executor's next decision: run the longest-waiting runnable task;
    /// with nothing runnable, wait on (Stalled) or poll (Polling) all
    /// outstanding readiness handles, in parking order; with nothing
    /// suspended either, the per-request scope is done.
    pub fn next_action(&self) -> (r: SchedulerAction)
        ensures
            self.runnable().len() > 0 ==> r == SchedulerAction::Run(self.runnable()[0]),
            self.runnable().len() == 0 && self.suspended().len() > 0 ==> {
                &&& self.mode_of() == Mode::Stalled ==> (r matches SchedulerAction::WaitAny(hs)
                    && hs@ == handles_of(self.suspended()))
                &&& self.mode_of() == Mode::Polling ==> (r matches SchedulerAction::PollEach(hs)
                    && hs@ == handles_of(self.suspended()))
            },
            self.runnable().len() == 0 && self.suspended().len() == 0 ==> r
                == SchedulerAction::Idle,
    {
        if self.runnable.len() > 0 {
            return SchedulerAction::Run(self.runnable[0]);
        }
        if self.suspended.len() == 0 {
            return SchedulerAction::Idle;
        }
        let mut handles: Vec<u64> = Vec::new();
        let mut i: usize = 0;
        while i < self.suspended.len()
            invariant
                i <= self.suspended@.len(),
                handles@ == handles_of(self.suspended@.subrange(0, i as int)),
            decreases self.suspended@.len() - i,
        {
            handles.push(self.suspended[i].1);
            proof {
                assert(handles@ =~= handles_of(self.suspended@.subrange(0, i + 1)));
            }
            i += 1;
        }
        proof {
            assert(self.suspended@.subrange(0, self.suspended@.len() as int) =~= self.suspended@);
        }
        match self.mode {
            Mode::Stalled => SchedulerAction::WaitAny(handles),
            Mode::Polling => SchedulerAction::PollEach(handles),
        }
    }
}

} // verus!

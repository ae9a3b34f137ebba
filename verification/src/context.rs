//! The execution context.
//!
//! Each process owns one cooperative task runtime.  A plugin hands it units
//! of asynchronous work and the host's tick advances them; the runtime is
//! modelled here as an explicit queue of tasks, each carrying the number of
//! cooperative steps it still needs.  Three operations exist:
//!
//! * [`Context::spawn_task`] queues work and never blocks the caller;
//! * [`Context::poll`] advances ready work for a fixed step budget, so one
//!   call per tick lets background work progress without the tick ever
//!   blocking on it;
//! * [`Context::block_on_async`] runs one piece of work to completion and is
//!   meant for one-time construction-phase setup only — calling it from a
//!   per-tick path can stall the host for as long as the work takes.
//!
//! At teardown, [`Context::shutdown`] reports how many tasks completed and
//! how many are abandoned; together they account for every task ever
//! spawned.

use vstd::prelude::*;

verus! {

/// How many cooperative steps one [`Context::poll`] call may advance.  The
/// bound is what keeps a poll effectively free for the host: however much
/// work is queued, a single pass costs at most this many steps.
pub const POLL_BUDGET: u64 = 64;

/// One unit of asynchronous work: an abstract count of the cooperative
/// steps it needs before it completes.
#[derive(Clone, Copy, PartialEq, Eq, Structural, Debug)]
pub struct Task {
    /// Cooperative steps still needed before the task completes.
    pub steps: u64,
}

/// The cooperative steps still pending over a whole queue.
pub open spec fn spec_pending_steps(tasks: Seq<Task>) -> int
    decreases tasks.len(),
{
    if tasks.len() == 0 {
        0
    } else {
        tasks[0].steps + spec_pending_steps(tasks.drop_first())
    }
}

/// One bounded drain pass: tasks are advanced from the front of the queue
/// until the step budget runs out.  Yields the remaining queue and how many
/// tasks ran to completion.
pub open spec fn spec_drain(tasks: Seq<Task>, budget: u64) -> (Seq<Task>, int)
    decreases tasks.len(),
{
    if tasks.len() == 0 {
        (tasks, 0)
    } else if tasks[0].steps <= budget {
        let (rest, completed) = spec_drain(tasks.drop_first(), (budget - tasks[0].steps) as u64);
        (rest, completed + 1)
    } else {
        (seq![Task { steps: (tasks[0].steps - budget) as u64 }] + tasks.drop_first(), 0)
    }
}

/// A drain pass advances at most `budget` steps, however much work is
/// pending: a poll never costs more than its fixed budget.
pub proof fn lemma_drain_bounded(tasks: Seq<Task>, budget: u64)
    ensures
        0 <= spec_pending_steps(tasks) - spec_pending_steps(spec_drain(tasks, budget).0),
        spec_pending_steps(tasks) - spec_pending_steps(spec_drain(tasks, budget).0) <= budget,
    decreases tasks.len(),
{
    if tasks.len() == 0 {
    } else if tasks[0].steps <= budget {
        lemma_drain_bounded(tasks.drop_first(), (budget - tasks[0].steps) as u64);
    } else {
        let rest = spec_drain(tasks, budget).0;
        assert(rest.drop_first() =~= tasks.drop_first());
        assert(spec_pending_steps(rest) == rest[0].steps + spec_pending_steps(rest.drop_first()));
    }
}

/// Owns the process's cooperative task runtime.  Tasks either run to
/// completion across polls or are abandoned when the context shuts down;
/// nothing is ever dropped silently, which the well-formedness invariant
/// records as an exact count.
pub struct Context {
    /// Queued work, oldest first.
    tasks: Vec<Task>,
    /// How many tasks were ever handed to this context.
    spawned: u64,
    /// How many of them have run to completion.
    completed: u64,
}

impl Context {
    /// Queued work, oldest first.
    pub closed spec fn spec_tasks(self) -> Seq<Task> {
        self.tasks@
    }

    /// How many tasks were ever handed to this context.
    pub closed spec fn spec_spawned(self) -> u64 {
        self.spawned
    }

    /// How many tasks have run to completion.
    pub closed spec fn spec_completed(self) -> u64 {
        self.completed
    }

    /// Context invariant: every task ever spawned has either completed or is
    /// still queued.
    pub open spec fn wf(self) -> bool {
        self.spec_spawned() == self.spec_completed() + self.spec_tasks().len()
    }

    /// A fresh runtime with no work.  Creating the model runtime cannot
    /// fail; a host whose real runtime cannot be created has no context to
    /// hand plugins at all.
    pub fn new() -> (context: Context)
        ensures
            context.wf(),
            context.spec_tasks().len() == 0,
            context.spec_spawned() == 0,
            context.spec_completed() == 0,
    {
        Context { tasks: Vec::new(), spawned: 0, completed: 0 }
    }

    /// Queue `task` for future execution.  The caller is never blocked and
    /// no queued work is advanced: the task only joins the end of the queue.
    pub fn spawn_task(&mut self, task: Task)
        requires
            old(self).wf(),
            old(self).spec_spawned() < u64::MAX,
        ensures
            final(self).wf(),
            final(self).spec_tasks() == old(self).spec_tasks().push(task),
            final(self).spec_spawned() == old(self).spec_spawned() + 1,
            final(self).spec_completed() == old(self).spec_completed(),
    {
        self.tasks.push(task);
        self.spawned = self.spawned + 1;
    }

    /// Advance ready work for at most [`POLL_BUDGET`] cooperative steps.
    /// Called once per host tick; combined with [`lemma_drain_bounded`] this
    /// caps what a tick can spend on background work.
    pub fn poll(&mut self)
        requires
            old(self).wf(),
        ensures
            final(self).wf(),
            final(self).spec_tasks() == spec_drain(old(self).spec_tasks(), POLL_BUDGET).0,
            final(self).spec_completed() == old(self).spec_completed() + spec_drain(
                old(self).spec_tasks(),
                POLL_BUDGET,
            ).1,
            final(self).spec_spawned() == old(self).spec_spawned(),
    {
        let ghost orig = self.tasks@;
        let mut budget: u64 = POLL_BUDGET;
        let mut done: u64 = 0;
        loop
            invariant
                spec_drain(orig, POLL_BUDGET).0 == spec_drain(self.tasks@, budget).0,
                spec_drain(orig, POLL_BUDGET).1 == done + spec_drain(self.tasks@, budget).1,
                done + self.tasks@.len() == orig.len(),
                self.spawned == old(self).spawned,
                self.completed == old(self).completed,
                self.completed + orig.len() == self.spawned,
            ensures
                spec_drain(orig, POLL_BUDGET).0 == self.tasks@,
                spec_drain(orig, POLL_BUDGET).1 == done,
                self.spawned == old(self).spawned,
                self.completed == old(self).completed,
                done + self.tasks@.len() == orig.len(),
            decreases self.tasks@.len(),
        {
            if self.tasks.len() == 0 {
                break;
            }
            let ghost before = self.tasks@;
            let front_steps = self.tasks[0].steps;
            if front_steps <= budget {
                budget = budget - front_steps;
                let _ = self.tasks.remove(0);
                proof {
                    assert(self.tasks@ =~= before.drop_first());
                }
                done = done + 1;
            } else {
                let slowed = Task { steps: front_steps - budget };
                let _ = self.tasks.remove(0);
                self.tasks.insert(0, slowed);
                proof {
                    assert(self.tasks@ =~= spec_drain(before, budget).0);
                }
                budget = 0;
                break;
            }
        }
        self.completed = self.completed + done;
    }

    /// Run `task` to completion right now, blocking the caller for however
    /// many steps it takes.  Returns the steps spent.  This is the only
    /// operation allowed to block, and only during instance construction;
    /// queued work is left untouched.
    pub fn block_on_async(&mut self, task: Task) -> (steps: u64)
        requires
            old(self).wf(),
            old(self).spec_spawned() < u64::MAX,
        ensures
            final(self).wf(),
            steps == task.steps,
            final(self).spec_tasks() == old(self).spec_tasks(),
            final(self).spec_spawned() == old(self).spec_spawned() + 1,
            final(self).spec_completed() == old(self).spec_completed() + 1,
    {
        self.spawned = self.spawned + 1;
        self.completed = self.completed + 1;
        task.steps
    }

    /// Tear the runtime down.  Reports `(completed, abandoned)`: every task
    /// ever spawned either ran to completion or is abandoned here — none is
    /// lost any other way.
    pub fn shutdown(self) -> (report: (u64, u64))
        requires
            self.wf(),
        ensures
            report.0 == self.spec_completed(),
            report.1 == self.spec_tasks().len(),
            report.0 + report.1 == self.spec_spawned(),
    {
        let abandoned = self.tasks.len();
        (self.completed, abandoned as u64)
    }

    /// How many tasks are still queued.
    pub fn pending_len(&self) -> (n: usize)
        ensures
            n == self.spec_tasks().len(),
    {
        self.tasks.len()
    }

    /// How many tasks have run to completion.
    pub fn completed_count(&self) -> (n: u64)
        ensures
            n == self.spec_completed(),
    {
        self.completed
    }

    /// How many tasks were ever spawned.
    pub fn spawned_count(&self) -> (n: u64)
        ensures
            n == self.spec_spawned(),
    {
        self.spawned
    }
}

/// Every task a well-formed context ever accepted is accounted for: it has
/// either completed or is still queued.
pub proof fn lemma_task_accounting(context: Context)
    requires
        context.wf(),
    ensures
        context.spec_spawned() == context.spec_completed() + context.spec_tasks().len(),
{
}

} // verus!

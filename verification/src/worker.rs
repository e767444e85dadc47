//! A worker's bookkeeping: what running a task means, and what is recorded
//! about it.
use crate::metrics::{Completion, WorkerBusy};
use crate::task::{Task, TaskKind};
use crate::time::Duration;
use vstd::prelude::*;

verus! {

/// How a task is simulated.
#[derive(Debug, Clone, Copy, PartialEq, Eq, Structural)]
pub enum Work {
    /// Keep the thread computing for this long.
    Spin(Duration),
    /// Let the thread sleep for this long.
    Sleep(Duration),
}

/// A worker and the time that it has spent on tasks so far.
#[derive(Debug, Clone, Copy, PartialEq, Eq, Structural)]
pub struct Worker {
    pub id: usize,
    pub total_busy: Duration,
}

/// Nanoseconds between a task's queueing and its start; zero for a task that
/// was never queued.
pub open spec fn wait_nanos(task: Task, start: Duration) -> nat {
    match task.enqueue_time {
        Some(since) => crate::time::elapsed_nanos(start, since),
        None => 0,
    }
}

/// What running a task means: CPU tasks burn the thread, IO tasks sleep.
pub open spec fn work_of(task: Task) -> Work {
    match task.kind {
        TaskKind::Cpu => Work::Spin(task.duration),
        TaskKind::Io => Work::Sleep(task.duration),
    }
}

/// The work is done once `spent` has been spent on it.
pub open spec fn work_done(work: Work, spent: Duration) -> bool {
    match work {
        Work::Spin(target) => spent.nanos >= target.nanos,
        Work::Sleep(target) => spent.nanos >= target.nanos,
    }
}

impl Worker {
    /// What is recorded about a task that was started at `start` and is done at
    /// `now`.
    pub open spec fn completion(self, task: Task, start: Duration, now: Duration) -> Completion {
        let wait = wait_nanos(task, start);
        let busy = crate::time::elapsed_nanos(now, start);
        Completion {
            id: task.id,
            kind: task.kind,
            worker_id: self.id,
            wait: Duration { nanos: wait as u128 },
            turnaround: Duration { nanos: (wait + busy) as u128 },
            busy: Duration { nanos: busy as u128 },
        }
    }

    /// The spans to be recorded can be represented.
    pub open spec fn can_record(self, task: Task, start: Duration, now: Duration) -> bool {
        let busy = crate::time::elapsed_nanos(now, start);
        &&& self.total_busy.nanos + busy <= crate::time::MAX_NANOS
        &&& wait_nanos(task, start) + busy <= crate::time::MAX_NANOS
    }

    /// A worker that has done nothing yet.
    pub fn new(id: usize) -> (worker: Worker)
        ensures
            worker == (Worker { id, total_busy: Duration { nanos: 0 } }),
    {
        Worker { id, total_busy: Duration::zero() }
    }

    /// Notes that a task starts, and says how to run it: CPU tasks burn the
    /// thread, IO tasks sleep.
    pub fn begin(task: &mut Task, start: Duration) -> (work: Work)
        ensures
            *final(task) == (Task { start_time: Some(start), ..*old(task) }),
            work == work_of(*old(task)),
    {
        task.start_time = Some(start);
        match task.kind {
            TaskKind::Cpu => Work::Spin(task.duration),
            TaskKind::Io => Work::Sleep(task.duration),
        }
    }

    /// Whether [`Worker::finish`] can record the spans.
    pub fn can_finish(&self, task: &Task, start: Duration, now: Duration) -> (fits: bool)
        ensures
            fits == self.can_record(*task, start, now),
    {
        let busy: u128 = now.since(start).nanos;
        let wait: u128 = match task.enqueue_time {
            Some(since) => start.since(since).nanos,
            None => 0,
        };
        busy <= crate::time::MAX_NANOS && self.total_busy.nanos <= crate::time::MAX_NANOS - busy
            && wait <= crate::time::MAX_NANOS - busy
    }

    /// Records that the task that was started at `start` is done at `now`.
    pub fn finish(&mut self, task: &Task, start: Duration, now: Duration) -> (done: Completion)
        requires
            old(self).can_record(*task, start, now),
        ensures
            done == old(self).completion(*task, start, now),
            done.id == task.id,
            done.kind == task.kind,
            done.worker_id == old(self).id,
            done.wait.nanos == wait_nanos(*task, start),
            done.busy.nanos == crate::time::elapsed_nanos(now, start),
            done.turnaround.nanos == done.wait.nanos + done.busy.nanos,
            final(self).id == old(self).id,
            final(self).total_busy.nanos == old(self).total_busy.nanos + done.busy.nanos,
    {
        let busy: Duration = now.since(start);
        self.total_busy = self.total_busy.plus(busy);
        let wait: Duration = match task.enqueue_time {
            Some(since) => start.since(since),
            None => Duration::zero(),
        };
        Completion {
            id: task.id,
            kind: task.kind,
            worker_id: self.id,
            wait,
            turnaround: wait.plus(busy),
            busy,
        }
    }

    /// The busy time at the end of the run.
    pub fn into_busy(self) -> (busy: WorkerBusy)
        ensures
            busy == (WorkerBusy { worker_id: self.id, total_busy: self.total_busy }),
    {
        WorkerBusy { worker_id: self.id, total_busy: self.total_busy }
    }
}

/// The record names what was run and who ran it: the task's number and kind, and
/// the worker's number.
pub proof fn law_completion_names_task_and_worker(
    worker: Worker,
    task: Task,
    start: Duration,
    now: Duration,
)
    ensures
        worker.completion(task, start, now).id == task.id,
        worker.completion(task, start, now).kind == task.kind,
        worker.completion(task, start, now).worker_id == worker.id,
{
}

/// The record measures the task by the clock: it waited from queueing to start, was
/// busy from start to end, and was around from queueing to end. A task that was
/// never queued waited for nothing.
pub proof fn law_completion_measures_by_the_clock(
    worker: Worker,
    task: Task,
    queued: Duration,
    start: Duration,
    end: Duration,
)
    requires
        queued.nanos <= start.nanos <= end.nanos <= crate::time::MAX_NANOS,
    ensures
        ({
            let done = worker.completion(task, start, end);
            &&& start.nanos + done.busy.nanos == end.nanos
            &&& task.enqueue_time == Some(queued) ==> {
                &&& queued.nanos + done.wait.nanos == start.nanos
                &&& queued.nanos + done.turnaround.nanos == end.nanos
            }
            &&& task.enqueue_time is None ==> {
                &&& done.wait.nanos == 0
                &&& done.turnaround == done.busy
            }
            &&& worker.total_busy.nanos + end.nanos <= crate::time::MAX_NANOS ==> worker.can_record(
                task,
                start,
                end,
            )
        }),
{
}

/// A CPU task is spun and an IO task is slept, for its own duration; either is done
/// once that much time is spent and not before.
pub proof fn law_work_lasts_for_the_duration(task: Task, spent: Duration)
    ensures
        task.kind == TaskKind::Cpu ==> work_of(task) == Work::Spin(task.duration),
        task.kind == TaskKind::Io ==> work_of(task) == Work::Sleep(task.duration),
        work_done(work_of(task), spent) <==> spent.nanos >= task.duration.nanos,
{
}

/// The record of a task accounts for all of it, whatever its kind: it was busy for
/// at least its duration, it waited from queueing to start (not at all if it was
/// never queued), and its turnaround is both together. The work itself took
/// `spent`, some time between `start` and `now`.
pub proof fn law_completion_accounts_for_task(
    worker: Worker,
    task: Task,
    start: Duration,
    spent: Duration,
    now: Duration,
)
    requires
        worker.can_record(task, start, now),
        work_done(work_of(task), spent),
        start.nanos + spent.nanos <= now.nanos,
    ensures
        worker.completion(task, start, now).busy.nanos >= task.duration.nanos,
        worker.completion(task, start, now).wait.nanos == match task.enqueue_time {
            Some(since) => crate::time::elapsed_nanos(start, since),
            None => 0,
        },
        worker.completion(task, start, now).turnaround.nanos == worker.completion(
            task,
            start,
            now,
        ).wait.nanos + worker.completion(task, start, now).busy.nanos,
{
}

/// A worker's total busy time is the sum of the busy times of the tasks that it
/// completed: `states[i]` is the worker before the completion `done[i]`.
pub proof fn law_busy_time_adds_up(states: Seq<Worker>, done: Seq<Completion>)
    requires
        states.len() == done.len() + 1,
        states[0].total_busy.nanos == 0,
        forall|i: int|
            0 <= i < done.len() ==> states[i + 1].total_busy.nanos
                == states[i].total_busy.nanos + (#[trigger] done[i]).busy.nanos,
    ensures
        states.last().total_busy.nanos == crate::time::total_nanos(
            done.map_values(|c: Completion| c.busy),
        ),
    decreases done.len(),
{
    if done.len() > 0 {
        let n = done.len() - 1;
        assert forall|i: int| 0 <= i < n implies states.drop_last()[i + 1].total_busy.nanos
            == states.drop_last()[i].total_busy.nanos + (#[trigger] done.drop_last()[i]).busy.nanos by {
            assert(done.drop_last()[i] == done[i]);
        }
        law_busy_time_adds_up(states.drop_last(), done.drop_last());
        assert(done.map_values(|c: Completion| c.busy).drop_last() =~= done.drop_last().map_values(
            |c: Completion| c.busy,
        ));
        assert(done[n].busy == done.last().busy);
    }
}

/// Where the arithmetic of a simulated CPU task starts.
pub const SPIN_SEED: u64 = 0xcbf2_9ce4_8422_2325;

/// How many steps are computed between two looks at the clock.
pub const SPIN_STEPS: u64 = 5_000;

/// The accumulator after `steps` steps.
pub open spec fn spun(acc: u64, steps: nat) -> u64
    decreases steps,
{
    if steps == 0 {
        acc
    } else {
        spun(acc, (steps - 1) as nat).wrapping_mul(0x100000001b3).wrapping_add((steps - 1) as u64)
    }
}

/// One stretch of a simulated CPU task: nothing once `target` has elapsed,
/// otherwise the accumulator after another [`SPIN_STEPS`] steps.
pub fn simulate_cpu(acc: u64, elapsed: Duration, target: Duration) -> (next: Option<u64>)
    ensures
        next == if work_done(Work::Spin(target), elapsed) {
            None
        } else {
            Some(spun(acc, SPIN_STEPS as nat))
        },
{
    if elapsed.nanos >= target.nanos {
        return None;
    }
    let mut value: u64 = acc;
    for i in 0..SPIN_STEPS
        invariant
            value == spun(acc, i as nat),
    {
        value = value.wrapping_mul(0x100000001b3).wrapping_add(i);
    }
    Some(value)
}

/// Spinning is 64-bit arithmetic from a fixed start: each step multiplies by a
/// prime and adds the number of the step. The clock is looked at every 5000 steps.
pub proof fn law_spinning_multiplies_and_adds(acc: u64, steps: nat)
    ensures
        SPIN_SEED == 14_695_981_039_346_656_037,
        SPIN_STEPS == 5_000,
        spun(acc, 0) == acc,
        steps <= u64::MAX ==> spun(acc, steps + 1) == (spun(acc, steps) * 1_099_511_628_211 + steps)
            % 0x1_0000_0000_0000_0000,
{
    if steps <= u64::MAX {
        let before = spun(acc, steps) as int;
        let product = before * 1_099_511_628_211;
        let m = 0x1_0000_0000_0000_0000int;
        vstd::arithmetic::div_mod::lemma_add_mod_noop(product, steps as int, m);
        vstd::arithmetic::div_mod::lemma_add_mod_noop(product % m, steps as int, m);
        vstd::arithmetic::div_mod::lemma_mod_twice(product, m);
        assert(spun(acc, steps).wrapping_mul(1_099_511_628_211) == product % m);
    }
}

} // verus!

//! The two ready queues: one for CPU tasks and one for IO tasks.
//!
//! The dispatcher decides which queue to pull from next; workers never touch
//! the queues. Whoever shares them between threads holds one lock around the
//! whole structure, so that both queues are always seen together.
use crate::task::{Task, TaskKind};
use crate::time::Duration;
use std::collections::VecDeque;
use vstd::prelude::*;

verus! {

/// A mean that has not been divided out: `sum / count`, or zero if nothing was
/// counted.
#[derive(Debug, Clone, Copy, PartialEq, Eq, Structural)]
pub struct Average {
    pub sum: u128,
    pub count: u64,
}

/// The ready queues, whether more tasks may come, and queue-length statistics
/// sampled on each push and pop.
pub struct ReadyQueues {
    cpu: VecDeque<Task>,
    io: VecDeque<Task>,
    /// Once this is set and both queues are drained, the dispatcher is done.
    closed: bool,
    cpu_max_len: usize,
    io_max_len: usize,
    cpu_len_sum: u64,
    io_len_sum: u64,
    samples: u64,
}

/// What the dispatcher sees of the queues at one moment.
#[derive(Debug, Clone, Copy, PartialEq, Eq, Structural)]
pub struct QueueSnapshot {
    pub cpu_len: usize,
    pub io_len: usize,
    pub closed: bool,
}

/// Longest and mean queue lengths over a run.
#[derive(Debug, Clone, Copy, PartialEq, Eq, Structural)]
pub struct QueueStats {
    pub cpu_max_len: usize,
    pub io_max_len: usize,
    pub cpu_avg_len: Average,
    pub io_avg_len: Average,
}

/// The mathematical content of [`ReadyQueues`]. The front of a queue is its
/// first element.
#[verifier::ext_equal]
pub struct QueuesModel {
    pub cpu: Seq<Task>,
    pub io: Seq<Task>,
    pub closed: bool,
    pub cpu_max_len: nat,
    pub io_max_len: nat,
    pub cpu_len_sum: nat,
    pub io_len_sum: nat,
    pub samples: nat,
}

/// The task as it stands in a queue.
pub open spec fn stamped(task: Task, now: Duration) -> Task {
    Task { enqueue_time: Some(now), ..task }
}

/// Only tasks of this kind, each with the time at which it was queued.
pub open spec fn holds_only(queue: Seq<Task>, kind: TaskKind) -> bool {
    forall|i: int|
        0 <= i < queue.len() ==> (#[trigger] queue[i]).kind == kind && queue[i].enqueue_time is Some
}

impl QueuesModel {
    pub open spec fn empty() -> QueuesModel {
        QueuesModel {
            cpu: Seq::empty(),
            io: Seq::empty(),
            closed: false,
            cpu_max_len: 0,
            io_max_len: 0,
            cpu_len_sum: 0,
            io_len_sum: 0,
            samples: 0,
        }
    }

    pub open spec fn queue(self, kind: TaskKind) -> Seq<Task> {
        match kind {
            TaskKind::Cpu => self.cpu,
            TaskKind::Io => self.io,
        }
    }

    pub open spec fn with_queue(self, kind: TaskKind, queue: Seq<Task>) -> QueuesModel {
        match kind {
            TaskKind::Cpu => QueuesModel { cpu: queue, ..self },
            TaskKind::Io => QueuesModel { io: queue, ..self },
        }
    }

    /// One more sample of the current lengths.
    pub open spec fn sampled(self) -> QueuesModel {
        QueuesModel {
            cpu_len_sum: self.cpu_len_sum + self.cpu.len(),
            io_len_sum: self.io_len_sum + self.io.len(),
            samples: self.samples + 1,
            ..self
        }
    }

    /// The longest lengths, the current ones included.
    pub open spec fn remeasured(self) -> QueuesModel {
        QueuesModel {
            cpu_max_len: if self.cpu.len() > self.cpu_max_len {
                self.cpu.len()
            } else {
                self.cpu_max_len
            },
            io_max_len: if self.io.len() > self.io_max_len {
                self.io.len()
            } else {
                self.io_max_len
            },
            ..self
        }
    }

    /// After `task` arrived at `now`: it is last in the queue of its kind.
    pub open spec fn pushed(self, task: Task, now: Duration) -> QueuesModel {
        self.with_queue(
            task.kind,
            self.queue(task.kind).push(stamped(task, now)),
        ).remeasured().sampled()
    }

    /// After the front task of `kind` was taken. Taking from an empty queue
    /// changes nothing.
    pub open spec fn popped(self, kind: TaskKind) -> QueuesModel {
        if self.queue(kind).len() == 0 {
            self
        } else {
            self.with_queue(kind, self.queue(kind).drop_first()).sampled()
        }
    }

    /// The statistics have not outgrown their counters.
    pub open spec fn fits(self) -> bool {
        &&& self.cpu_len_sum <= u64::MAX
        &&& self.io_len_sum <= u64::MAX
        &&& self.samples <= u64::MAX
    }

    /// What every history of pushes, pops and closing keeps.
    pub open spec fn wf(self) -> bool {
        &&& holds_only(self.cpu, TaskKind::Cpu)
        &&& holds_only(self.io, TaskKind::Io)
        &&& self.cpu.len() <= self.cpu_max_len
        &&& self.io.len() <= self.io_max_len
        &&& self.cpu_len_sum <= self.samples * self.cpu_max_len
        &&& self.io_len_sum <= self.samples * self.io_max_len
        &&& self.cpu_max_len <= usize::MAX
        &&& self.io_max_len <= usize::MAX
        &&& self.fits()
    }

    pub open spec fn snapshot(self) -> QueueSnapshot {
        QueueSnapshot {
            cpu_len: self.cpu.len() as usize,
            io_len: self.io.len() as usize,
            closed: self.closed,
        }
    }

    /// How long the front task of `kind` has waited at `now`.
    pub open spec fn head_wait(self, kind: TaskKind, now: Duration) -> Option<Duration> {
        if self.queue(kind).len() == 0 {
            None
        } else {
            match self.queue(kind)[0].enqueue_time {
                Some(since) => Some(
                    Duration { nanos: crate::time::elapsed_nanos(now, since) as u128 },
                ),
                None => None,
            }
        }
    }
}

impl View for ReadyQueues {
    type V = QueuesModel;

    closed spec fn view(&self) -> QueuesModel {
        QueuesModel {
            cpu: self.cpu@,
            io: self.io@,
            closed: self.closed,
            cpu_max_len: self.cpu_max_len as nat,
            io_max_len: self.io_max_len as nat,
            cpu_len_sum: self.cpu_len_sum as nat,
            io_len_sum: self.io_len_sum as nat,
            samples: self.samples as nat,
        }
    }
}

/// Room in the statistics for one more sample of the given lengths.
fn sample_fits(sum: u64, len: usize) -> (fits: bool)
    ensures
        fits == (sum + len <= u64::MAX),
{
    len as u64 <= u64::MAX - sum
}

impl Default for ReadyQueues {
    fn default() -> (q: ReadyQueues)
        ensures
            q@ == QueuesModel::empty(),
    {
        ReadyQueues::new()
    }
}

impl ReadyQueues {
    /// Two empty queues that are open for tasks.
    pub fn new() -> (q: ReadyQueues)
        ensures
            q@ == QueuesModel::empty(),
            q@.wf(),
    {
        let q = ReadyQueues {
            cpu: VecDeque::new(),
            io: VecDeque::new(),
            closed: false,
            cpu_max_len: 0,
            io_max_len: 0,
            cpu_len_sum: 0,
            io_len_sum: 0,
            samples: 0,
        };
        assert(q@ =~= QueuesModel::empty());
        q
    }

    /// Whether the statistics have room for pushing a task of `kind`.
    pub fn push_fits(&self, kind: TaskKind) -> (fits: bool)
        requires
            self@.wf(),
        ensures
            forall|task: Task, now: Duration|
                task.kind == kind ==> fits == (#[trigger] self@.pushed(task, now)).fits(),
    {
        let cpu_len: usize = self.cpu.len();
        let io_len: usize = self.io.len();
        if self.samples == u64::MAX {
            return false;
        }
        match kind {
            TaskKind::Cpu => {
                self.cpu_len_sum < u64::MAX && sample_fits(self.cpu_len_sum + 1, cpu_len)
                    && sample_fits(self.io_len_sum, io_len)
            },
            TaskKind::Io => {
                self.io_len_sum < u64::MAX && sample_fits(self.cpu_len_sum, cpu_len)
                    && sample_fits(self.io_len_sum + 1, io_len)
            },
        }
    }

    /// Whether the statistics have room for taking a task of `kind`.
    pub fn pop_fits(&self, kind: TaskKind) -> (fits: bool)
        requires
            self@.wf(),
        ensures
            fits == self@.popped(kind).fits(),
    {
        let cpu_len: usize = self.cpu.len();
        let io_len: usize = self.io.len();
        match kind {
            TaskKind::Cpu => {
                cpu_len == 0 || (self.samples < u64::MAX && sample_fits(
                    self.cpu_len_sum,
                    cpu_len - 1,
                ) && sample_fits(self.io_len_sum, io_len))
            },
            TaskKind::Io => {
                io_len == 0 || (self.samples < u64::MAX && sample_fits(self.cpu_len_sum, cpu_len)
                    && sample_fits(self.io_len_sum, io_len - 1))
            },
        }
    }

    /// Puts an arrived task at the end of the queue of its kind, stamped with
    /// the time of its arrival, and samples the queue lengths.
    pub fn push(&mut self, task: Task, now: Duration)
        requires
            old(self)@.wf(),
            old(self)@.pushed(task, now).fits(),
        ensures
            final(self)@ == old(self)@.pushed(task, now),
            final(self)@.wf(),
            task.kind == TaskKind::Cpu ==> final(self)@.io == old(self)@.io && final(self)@.cpu
                == old(self)@.cpu.push(Task { enqueue_time: Some(now), ..task }),
            task.kind == TaskKind::Io ==> final(self)@.cpu == old(self)@.cpu && final(self)@.io
                == old(self)@.io.push(Task { enqueue_time: Some(now), ..task }),
            final(self)@.closed == old(self)@.closed,
    {
        let mut task: Task = task;
        task.enqueue_time = Some(now);
        match task.kind {
            TaskKind::Cpu => self.cpu.push_back(task),
            TaskKind::Io => self.io.push_back(task),
        }
        let cpu_len: usize = self.cpu.len();
        let io_len: usize = self.io.len();
        if cpu_len > self.cpu_max_len {
            self.cpu_max_len = cpu_len;
        }
        if io_len > self.io_max_len {
            self.io_max_len = io_len;
        }
        self.cpu_len_sum = self.cpu_len_sum + cpu_len as u64;
        self.io_len_sum = self.io_len_sum + io_len as u64;
        self.samples = self.samples + 1;
        assert(self@ =~= old(self)@.pushed(task, now));
        proof {
            lemma_sum_bound(
                old(self)@.samples,
                old(self)@.cpu_max_len,
                old(self)@.cpu_len_sum,
                self@.cpu_max_len,
                self@.cpu.len(),
            );
            lemma_sum_bound(
                old(self)@.samples,
                old(self)@.io_max_len,
                old(self)@.io_len_sum,
                self@.io_max_len,
                self@.io.len(),
            );
        }
    }

    /// No more tasks will come.
    pub fn close(&mut self)
        requires
            old(self)@.wf(),
        ensures
            final(self)@ == (QueuesModel { closed: true, ..old(self)@ }),
            final(self)@.wf(),
    {
        self.closed = true;
        assert(self@ =~= (QueuesModel { closed: true, ..old(self)@ }));
    }

    /// What the dispatcher has to look at: queue lengths and the closed flag,
    /// taken together. `None` means that there is nothing yet: the queues are
    /// empty but open, and the caller has to wait for a push or the closing.
    pub fn wait_until_ready(&self) -> (snap: Option<QueueSnapshot>)
        requires
            self@.wf(),
        ensures
            snap is None <==> self@.cpu.len() == 0 && self@.io.len() == 0 && !self@.closed,
            snap matches Some(s) ==> s == self@.snapshot() && s.cpu_len == self@.cpu.len()
                && s.io_len == self@.io.len() && s.closed == self@.closed,
    {
        if self.cpu.len() == 0 && self.io.len() == 0 && !self.closed {
            None
        } else {
            Some(
                QueueSnapshot {
                    cpu_len: self.cpu.len(),
                    io_len: self.io.len(),
                    closed: self.closed,
                },
            )
        }
    }

    /// Takes the task of the given kind that has waited longest, and samples
    /// the queue lengths. An empty queue gives `None` and nothing changes.
    pub fn try_pop(&mut self, kind: TaskKind) -> (popped: Option<Task>)
        requires
            old(self)@.wf(),
            old(self)@.popped(kind).fits(),
        ensures
            popped is None <==> old(self)@.queue(kind).len() == 0,
            popped matches Some(task) ==> task == old(self)@.queue(kind)[0] && task.kind == kind
                && task.enqueue_time is Some,
            final(self)@ == old(self)@.popped(kind),
            final(self)@.wf(),
            kind == TaskKind::Cpu ==> {
                &&& popped == if old(self)@.cpu.len() > 0 {
                    Some(old(self)@.cpu[0])
                } else {
                    None
                }
                &&& old(self)@.cpu.len() > 0 ==> final(self)@.cpu == old(self)@.cpu.skip(1)
                &&& final(self)@.io == old(self)@.io
            },
            kind == TaskKind::Io ==> {
                &&& popped == if old(self)@.io.len() > 0 {
                    Some(old(self)@.io[0])
                } else {
                    None
                }
                &&& old(self)@.io.len() > 0 ==> final(self)@.io == old(self)@.io.skip(1)
                &&& final(self)@.cpu == old(self)@.cpu
            },
            final(self)@.closed == old(self)@.closed,
    {
        let popped: Option<Task> = match kind {
            TaskKind::Cpu => self.cpu.pop_front(),
            TaskKind::Io => self.io.pop_front(),
        };
        if popped.is_some() {
            self.cpu_len_sum = self.cpu_len_sum + self.cpu.len() as u64;
            self.io_len_sum = self.io_len_sum + self.io.len() as u64;
            self.samples = self.samples + 1;
            proof {
                assert(self@ =~= old(self)@.popped(kind));
                lemma_sum_bound(
                    old(self)@.samples,
                    old(self)@.cpu_max_len,
                    old(self)@.cpu_len_sum,
                    self@.cpu_max_len,
                    self@.cpu.len(),
                );
                lemma_sum_bound(
                    old(self)@.samples,
                    old(self)@.io_max_len,
                    old(self)@.io_len_sum,
                    self@.io_max_len,
                    self@.io.len(),
                );
            }
        }
        assert(self@ =~= old(self)@.popped(kind));
        popped
    }

    /// How long the front task of a queue has waited, without taking it.
    pub fn head_wait(&self, kind: TaskKind, now: Duration) -> (wait: Option<Duration>)
        requires
            self@.wf(),
        ensures
            wait == self@.head_wait(kind, now),
            wait is Some <==> self@.queue(kind).len() > 0,
    {
        let queue: &VecDeque<Task> = match kind {
            TaskKind::Cpu => &self.cpu,
            TaskKind::Io => &self.io,
        };
        if queue.len() == 0 {
            None
        } else {
            let front: &Task = &queue[0];
            assert(*front == self@.queue(kind)[0]);
            match front.enqueue_time {
                Some(since) => Some(now.since(since)),
                None => None,
            }
        }
    }

    /// The statistics so far.
    pub fn stats(&self) -> (stats: QueueStats)
        ensures
            stats.cpu_max_len == self@.cpu_max_len,
            stats.io_max_len == self@.io_max_len,
            stats.cpu_avg_len.sum == self@.cpu_len_sum,
            stats.cpu_avg_len.count == self@.samples,
            stats.io_avg_len.sum == self@.io_len_sum,
            stats.io_avg_len.count == self@.samples,
    {
        QueueStats {
            cpu_max_len: self.cpu_max_len,
            io_max_len: self.io_max_len,
            cpu_avg_len: Average { sum: self.cpu_len_sum as u128, count: self.samples },
            io_avg_len: Average { sum: self.io_len_sum as u128, count: self.samples },
        }
    }
}

/// A sum of samples stays below their number times the longest of them.
pub proof fn lemma_sum_bound(samples: nat, max: nat, sum: nat, new_max: nat, len: nat)
    requires
        sum <= samples * max,
        max <= new_max,
        len <= new_max,
    ensures
        sum + len <= (samples + 1) * new_max,
{
    assert(samples * max <= samples * new_max) by (nonlinear_arith)
        requires
            max <= new_max,
    ;
    assert((samples + 1) * new_max == samples * new_max + new_max) by (nonlinear_arith);
}

} // verus!

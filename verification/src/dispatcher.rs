//! The scheduling policy: which queue is served next, and by which worker.
//!
//! The decision considers both queues at once (weighted dispatch, IO
//! reservation, aging), so it belongs to one component. Workers run whatever
//! they are handed.
use crate::queues::{QueueSnapshot, ReadyQueues};
use crate::task::{Task, TaskKind};
use crate::time::Duration;
use vstd::prelude::*;

verus! {

/// The knobs of the scheduling policy.
#[derive(Debug, Clone, Copy, PartialEq, Eq, Structural)]
pub struct PolicyConfig {
    /// Number of workers reserved for IO tasks, so that a flood of CPU work
    /// cannot occupy the whole pool. The others serve either kind.
    pub io_reserved_workers: usize,
    /// When both queues hold tasks, the dispatcher serves the CPU queue
    /// `cpu_weight` times, then the IO queue `io_weight` times, and repeats.
    pub cpu_weight: u32,
    pub io_weight: u32,
    /// A queue whose front task has waited longer than this is served at once,
    /// whatever the weights say.
    pub aging_threshold_ms: u64,
}

impl Default for PolicyConfig {
    fn default() -> (policy: PolicyConfig)
        ensures
            policy == (PolicyConfig {
                io_reserved_workers: 1,
                cpu_weight: 2,
                io_weight: 1,
                aging_threshold_ms: 200,
            }),
    {
        PolicyConfig {
            io_reserved_workers: 1,
            cpu_weight: 2,
            io_weight: 1,
            aging_threshold_ms: 200,
        }
    }
}

impl PolicyConfig {
    /// The length of one round of weighted dispatch.
    pub open spec fn period(self) -> int {
        if self.cpu_weight + self.io_weight == 0 {
            1
        } else {
            self.cpu_weight + self.io_weight
        }
    }

    /// The front task has waited longer than the policy tolerates.
    pub open spec fn overdue(self, head: Option<Duration>) -> bool {
        head matches Some(wait) && wait.nanos > self.aging_threshold_ms * 1_000_000
    }
}

/// How long a front task has waited; less than any wait if there is none.
pub open spec fn wait_or_less(head: Option<Duration>) -> int {
    match head {
        Some(wait) => wait.nanos as int,
        None => -1,
    }
}

/// The queue that the weights give to a tick of the round.
pub open spec fn weighted_kind(policy: PolicyConfig, tick: int) -> TaskKind {
    if tick < policy.cpu_weight {
        TaskKind::Cpu
    } else {
        TaskKind::Io
    }
}

/// The queue to serve, by order of concern: an overdue front task, the longer
/// wait first; then the only queue that holds tasks; then the weights.
pub open spec fn queue_to_serve(
    snap: QueueSnapshot,
    policy: PolicyConfig,
    tick: u32,
    period: u32,
    cpu_head: Option<Duration>,
    io_head: Option<Duration>,
) -> TaskKind {
    if policy.overdue(cpu_head) || policy.overdue(io_head) {
        if wait_or_less(cpu_head) >= wait_or_less(io_head) {
            TaskKind::Cpu
        } else {
            TaskKind::Io
        }
    } else if snap.cpu_len == 0 {
        TaskKind::Io
    } else if snap.io_len == 0 {
        TaskKind::Cpu
    } else if period > 0 {
        weighted_kind(policy, tick as int)
    } else {
        TaskKind::Io
    }
}

/// Decides which queue to dispatch from. `cpu_head` and `io_head` say how long
/// the front tasks have waited; they may be fresher than the snapshot.
pub fn choose_queue(
    snap: QueueSnapshot,
    policy: &PolicyConfig,
    tick: u32,
    period: u32,
    cpu_head: Option<Duration>,
    io_head: Option<Duration>,
) -> (kind: TaskKind)
    ensures
        kind == queue_to_serve(snap, *policy, tick, period, cpu_head, io_head),
{
    let aging: u128 = Duration::from_millis(policy.aging_threshold_ms).nanos;
    match (cpu_head, io_head) {
        (Some(cw), Some(iw)) => {
            if cw.nanos > aging && cw.nanos >= iw.nanos {
                return TaskKind::Cpu;
            }
            if iw.nanos > aging && iw.nanos > cw.nanos {
                return TaskKind::Io;
            }
        },
        (Some(cw), None) => {
            if cw.nanos > aging {
                return TaskKind::Cpu;
            }
        },
        (None, Some(iw)) => {
            if iw.nanos > aging {
                return TaskKind::Io;
            }
        },
        (None, None) => {},
    }
    if snap.cpu_len == 0 {
        return TaskKind::Io;
    }
    if snap.io_len == 0 {
        return TaskKind::Cpu;
    }
    if tick < policy.cpu_weight && period > 0 {
        TaskKind::Cpu
    } else {
        TaskKind::Io
    }
}

/// A place in one of the two worker pools.
#[derive(Debug, Clone, Copy, PartialEq, Eq, Structural)]
pub enum Seat {
    /// A worker that only handles IO tasks.
    IoOnly(usize),
    /// A worker that handles whatever the policy says.
    General(usize),
}

/// IO tasks go to the reserved pool if there is one. CPU tasks go to the
/// general pool, so that the reserved workers stay available for IO bursts;
/// only where every worker is reserved do they go there too.
pub open spec fn uses_reserved(kind: TaskKind, io_only: usize, general: usize) -> bool {
    match kind {
        TaskKind::Cpu => general == 0,
        TaskKind::Io => io_only > 0,
    }
}

/// The seat for the next task of `kind`: each pool hands out its seats in turn,
/// by a counter of its own.
pub open spec fn seat_for(
    kind: TaskKind,
    io_only: usize,
    general: usize,
    next_io_only: usize,
    next_general: usize,
) -> Seat {
    if uses_reserved(kind, io_only, general) {
        Seat::IoOnly(next_io_only % io_only)
    } else {
        Seat::General(next_general % general)
    }
}

/// Picks a worker for a task of `kind` among `io_only` reserved and `general`
/// other workers.
pub fn route(
    kind: TaskKind,
    io_only: usize,
    general: usize,
    next_io_only: usize,
    next_general: usize,
) -> (seat: Seat)
    requires
        io_only > 0 || general > 0,
    ensures
        seat == seat_for(kind, io_only, general, next_io_only, next_general),
        match seat {
            Seat::IoOnly(i) => i < io_only,
            Seat::General(i) => i < general,
        },
{
    match kind {
        TaskKind::Io => {
            if io_only > 0 {
                Seat::IoOnly(next_io_only % io_only)
            } else {
                Seat::General(next_general % general)
            }
        },
        TaskKind::Cpu => {
            if general == 0 {
                Seat::IoOnly(next_io_only % io_only)
            } else {
                Seat::General(next_general % general)
            }
        },
    }
}

/// What the dispatcher does after it has looked at the queues.
#[derive(Debug, Clone, Copy, PartialEq, Eq, Structural)]
pub enum Decision {
    /// The queues are drained and closed: shut down.
    Finish,
    /// Nothing to do after all: wait again.
    WaitAgain,
    /// Take a task of this kind, if one is still there.
    Serve(TaskKind),
}

/// The outcome of one turn of the dispatcher.
#[derive(Debug, Clone, Copy, PartialEq, Eq, Structural)]
pub enum Step {
    /// The queues are drained and closed: shut down.
    Finish,
    /// Nothing to do yet: wait again.
    WaitAgain,
    /// Pass the task on to the worker with this number.
    Hand(Task, usize),
}

/// The state of the dispatcher between two dispatches. Workers are numbered
/// from zero; the reserved ones come first.
#[derive(Debug, Clone, Copy, PartialEq, Eq, Structural)]
pub struct Dispatcher {
    pub policy: PolicyConfig,
    pub workers: usize,
    pub reserved: usize,
    pub next_io_only: usize,
    pub next_general: usize,
    pub tick: u32,
    pub period: u32,
}

/// How many of `workers` workers are reserved: as many as the policy asks for,
/// but always leaving one for everything else.
pub open spec fn reserved_count(policy: PolicyConfig, workers: usize) -> int {
    let most = if workers == 0 {
        0
    } else {
        workers - 1
    };
    if policy.io_reserved_workers < most {
        policy.io_reserved_workers as int
    } else {
        most
    }
}

impl Dispatcher {
    pub open spec fn wf(self) -> bool {
        &&& self.reserved == reserved_count(self.policy, self.workers)
        &&& self.period == self.policy.period()
        &&& self.tick < self.period
    }

    /// The state before the first dispatch.
    pub open spec fn fresh(policy: PolicyConfig, workers: usize) -> Dispatcher {
        Dispatcher {
            policy,
            workers,
            reserved: reserved_count(policy, workers) as usize,
            next_io_only: 0,
            next_general: 0,
            tick: 0,
            period: policy.period() as u32,
        }
    }

    /// The number of workers that are not reserved.
    pub open spec fn general(self) -> usize {
        (self.workers - self.reserved) as usize
    }

    /// The worker that the next task goes to, if it is of `kind`.
    pub open spec fn worker_for(self, kind: TaskKind) -> int {
        match seat_for(
            kind,
            self.reserved,
            self.general(),
            self.next_io_only,
            self.next_general,
        ) {
            Seat::IoOnly(i) => i as int,
            Seat::General(i) => self.reserved + i,
        }
    }

    /// The state after a task of `kind` was dispatched: the round advances by
    /// one tick, and so does the counter of the pool that was used.
    pub open spec fn after(self, kind: TaskKind) -> Dispatcher {
        let tick = ((self.tick + 1) % (self.period as int)) as u32;
        if uses_reserved(kind, self.reserved, self.general()) {
            Dispatcher { tick, next_io_only: self.next_io_only.wrapping_add(1), ..self }
        } else {
            Dispatcher { tick, next_general: self.next_general.wrapping_add(1), ..self }
        }
    }

    pub open spec fn decision(
        self,
        snap: QueueSnapshot,
        cpu_head: Option<Duration>,
        io_head: Option<Duration>,
    ) -> Decision {
        if snap.cpu_len == 0 && snap.io_len == 0 {
            if snap.closed {
                Decision::Finish
            } else {
                Decision::WaitAgain
            }
        } else {
            Decision::Serve(
                queue_to_serve(snap, self.policy, self.tick, self.period, cpu_head, io_head),
            )
        }
    }

    /// A dispatcher for `workers` workers that has dispatched nothing yet.
    pub fn new(policy: PolicyConfig, workers: usize) -> (dispatcher: Dispatcher)
        requires
            policy.cpu_weight + policy.io_weight <= u32::MAX,
        ensures
            dispatcher == Dispatcher::fresh(policy, workers),
            dispatcher.wf(),
            dispatcher.policy == policy,
            dispatcher.workers == workers,
            policy.io_reserved_workers < workers ==> dispatcher.reserved
                == policy.io_reserved_workers,
            policy.io_reserved_workers >= workers && workers > 0 ==> dispatcher.reserved == workers
                - 1,
            workers == 0 ==> dispatcher.reserved == 0,
            dispatcher.next_io_only == 0,
            dispatcher.next_general == 0,
            dispatcher.tick == 0,
            dispatcher.period == if policy.cpu_weight + policy.io_weight > 0 {
                policy.cpu_weight + policy.io_weight
            } else {
                1
            },
    {
        let most: usize = workers.saturating_sub(1);
        let reserved: usize = if policy.io_reserved_workers < most {
            policy.io_reserved_workers
        } else {
            most
        };
        let weights: u32 = policy.cpu_weight + policy.io_weight;
        let period: u32 = if weights == 0 {
            1
        } else {
            weights
        };
        Dispatcher {
            policy,
            workers,
            reserved,
            next_io_only: 0,
            next_general: 0,
            tick: 0,
            period,
        }
    }

    /// What to do about the queues as they stand.
    pub fn decide(
        &self,
        snap: QueueSnapshot,
        cpu_head: Option<Duration>,
        io_head: Option<Duration>,
    ) -> (decision: Decision)
        ensures
            decision == self.decision(snap, cpu_head, io_head),
    {
        if snap.cpu_len == 0 && snap.io_len == 0 {
            if snap.closed {
                Decision::Finish
            } else {
                Decision::WaitAgain
            }
        } else {
            Decision::Serve(
                choose_queue(snap, &self.policy, self.tick, self.period, cpu_head, io_head),
            )
        }
    }

    /// What to do about `queues` at the time `now`.
    pub open spec fn decision_on(self, queues: crate::queues::QueuesModel, now: Duration) -> Decision {
        self.decision(
            queues.snapshot(),
            queues.head_wait(TaskKind::Cpu, now),
            queues.head_wait(TaskKind::Io, now),
        )
    }

    /// There is a worker for what the turn would take, and room in the
    /// statistics for taking it.
    pub open spec fn steppable(self, queues: crate::queues::QueuesModel, now: Duration) -> bool {
        self.decision_on(queues, now) matches Decision::Serve(kind) ==> self.workers > 0
            && queues.popped(kind).fits()
    }

    /// Whether [`Dispatcher::step`] can take its turn.
    pub fn can_step(&self, queues: &ReadyQueues, now: Duration) -> (ok: bool)
        requires
            queues@.wf(),
        ensures
            ok == self.steppable(queues@, now),
    {
        match queues.wait_until_ready() {
            Some(snap) => {
                let cpu_head: Option<Duration> = queues.head_wait(TaskKind::Cpu, now);
                let io_head: Option<Duration> = queues.head_wait(TaskKind::Io, now);
                match self.decide(snap, cpu_head, io_head) {
                    Decision::Serve(kind) => self.workers > 0 && queues.pop_fits(kind),
                    _ => true,
                }
            },
            None => true,
        }
    }

    /// One turn: looks at both queues, decides, takes the task and picks its
    /// worker.
    pub fn step(&mut self, queues: &mut ReadyQueues, now: Duration) -> (step: Step)
        requires
            old(self).wf(),
            old(queues)@.wf(),
            old(self).steppable(old(queues)@, now),
        ensures
            match old(self).decision_on(old(queues)@, now) {
                Decision::Finish => {
                    &&& step == Step::Finish
                    &&& *final(self) == *old(self)
                    &&& final(queues)@ == old(queues)@
                },
                Decision::WaitAgain => {
                    &&& step == Step::WaitAgain
                    &&& *final(self) == *old(self)
                    &&& final(queues)@ == old(queues)@
                },
                Decision::Serve(kind) => {
                    &&& old(queues)@.queue(kind).len() > 0
                    &&& step == Step::Hand(
                        old(queues)@.queue(kind)[0],
                        old(self).worker_for(kind) as usize,
                    )
                    &&& *final(self) == old(self).after(kind)
                    &&& final(queues)@ == old(queues)@.popped(kind)
                },
            },
            step matches Step::Hand(task, worker) ==> worker < old(self).workers && worker
                == old(self).worker_for(task.kind),
            final(self).wf(),
            final(queues)@.wf(),
    {
        let snap: QueueSnapshot = match queues.wait_until_ready() {
            Some(snap) => snap,
            None => {
                return Step::WaitAgain;
            },
        };
        let cpu_head: Option<Duration> = queues.head_wait(TaskKind::Cpu, now);
        let io_head: Option<Duration> = queues.head_wait(TaskKind::Io, now);
        match self.decide(snap, cpu_head, io_head) {
            Decision::Finish => Step::Finish,
            Decision::WaitAgain => Step::WaitAgain,
            Decision::Serve(kind) => {
                match queues.try_pop(kind) {
                    Some(task) => {
                        let worker: usize = self.assign(task.kind);
                        Step::Hand(task, worker)
                    },
                    None => Step::WaitAgain,
                }
            },
        }
    }

    /// Picks the worker for a task of `kind` that was taken from its queue.
    pub fn assign(&mut self, kind: TaskKind) -> (worker: usize)
        requires
            old(self).wf(),
            old(self).workers > 0,
        ensures
            worker == old(self).worker_for(kind),
            worker < old(self).workers,
            *final(self) == old(self).after(kind),
            final(self).wf(),
            kind == TaskKind::Cpu || old(self).reserved == 0 ==> worker == old(self).reserved + old(
                self,
            ).next_general as int % (old(self).workers - old(self).reserved),
            kind == TaskKind::Io && old(self).reserved > 0 ==> worker == old(self).next_io_only
                % old(self).reserved,
    {
        let general: usize = self.workers - self.reserved;
        self.tick = (self.tick + 1) % self.period;
        match route(kind, self.reserved, general, self.next_io_only, self.next_general) {
            Seat::IoOnly(i) => {
                self.next_io_only = self.next_io_only.wrapping_add(1);
                i
            },
            Seat::General(i) => {
                self.next_general = self.next_general.wrapping_add(1);
                self.reserved + i
            },
        }
    }
}

} // verus!

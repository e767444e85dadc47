//! The unit of work that flows through the scheduler.
use crate::sorting::Keyed;
use crate::time::Duration;
use vstd::prelude::*;

verus! {

/// What kind of work a task does. CPU tasks burn the worker thread; IO tasks
/// mostly sleep, as if waiting on disk or network.
#[derive(Debug, Clone, Copy, PartialEq, Eq, Structural)]
pub enum TaskKind {
    Cpu,
    Io,
}

impl TaskKind {
    pub fn as_str(self) -> (name: &'static str)
        ensures
            name@ == match self {
                TaskKind::Cpu => "CPU"@,
                TaskKind::Io => "IO"@,
            },
    {
        match self {
            TaskKind::Cpu => "CPU",
            TaskKind::Io => "IO",
        }
    }
}

/// A unit of work.
///
/// `arrival_offset` is when the task is due to enter the system.
/// `enqueue_time` and `start_time` are filled in as the task moves along, so
/// that an unprocessed task differs from one that was handled at time zero.
#[derive(Debug, Clone, Copy, PartialEq, Eq, Structural)]
pub struct Task {
    pub id: u64,
    pub kind: TaskKind,
    pub arrival_offset: Duration,
    pub duration: Duration,
    pub priority: u8,
    pub enqueue_time: Option<Duration>,
    pub start_time: Option<Duration>,
}

impl Task {
    /// A task that has neither been queued nor started.
    pub fn new(
        id: u64,
        kind: TaskKind,
        arrival_offset: Duration,
        duration: Duration,
        priority: u8,
    ) -> (task: Task)
        ensures
            task == (Task {
                id,
                kind,
                arrival_offset,
                duration,
                priority,
                enqueue_time: None,
                start_time: None,
            }),
    {
        Task {
            id,
            kind,
            arrival_offset,
            duration,
            priority,
            enqueue_time: None,
            start_time: None,
        }
    }
}

/// Tasks are ordered by when they are due.
impl Keyed for Task {
    open spec fn key(&self) -> int {
        self.arrival_offset.nanos as int
    }

    fn sort_key(&self) -> (k: u128) {
        self.arrival_offset.nanos
    }
}

} // verus!

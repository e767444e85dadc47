//! What the ready queues guarantee over whole histories.
use crate::queues::QueuesModel;
use crate::task::{Task, TaskKind};
use crate::time::Duration;
use vstd::prelude::*;

verus! {

/// Something that happens to the queues.
pub enum QueueEvent {
    Push(Task, Duration),
    Pop(TaskKind),
    Close,
}

/// The queues after a history, from the start.
pub open spec fn replay(history: Seq<QueueEvent>) -> QueuesModel
    decreases history.len(),
{
    if history.len() == 0 {
        QueuesModel::empty()
    } else {
        let before = replay(history.drop_last());
        match history.last() {
            QueueEvent::Push(task, now) => before.pushed(task, now),
            QueueEvent::Pop(kind) => before.popped(kind),
            QueueEvent::Close => QueuesModel { closed: true, ..before },
        }
    }
}

/// The tasks of `kind` that were pushed, as they were queued, in order.
pub open spec fn pushed_tasks(history: Seq<QueueEvent>, kind: TaskKind) -> Seq<Task>
    decreases history.len(),
{
    if history.len() == 0 {
        Seq::empty()
    } else {
        let before = pushed_tasks(history.drop_last(), kind);
        match history.last() {
            QueueEvent::Push(task, now) => if task.kind == kind {
                before.push(crate::queues::stamped(task, now))
            } else {
                before
            },
            _ => before,
        }
    }
}

/// The tasks that pops of `kind` have handed out, in order.
pub open spec fn popped_tasks(history: Seq<QueueEvent>, kind: TaskKind) -> Seq<Task>
    decreases history.len(),
{
    if history.len() == 0 {
        Seq::empty()
    } else {
        let before = popped_tasks(history.drop_last(), kind);
        let queue = replay(history.drop_last()).queue(kind);
        match history.last() {
            QueueEvent::Pop(k) => if k == kind && queue.len() > 0 {
                before.push(queue[0])
            } else {
                before
            },
            _ => before,
        }
    }
}

/// First in, first out, per kind: what was taken, followed by what is still
/// queued, is exactly what was pushed. Nothing is lost, repeated or overtaken,
/// and the kinds do not mix.
pub proof fn law_first_in_first_out(history: Seq<QueueEvent>, kind: TaskKind)
    ensures
        popped_tasks(history, kind) + replay(history).queue(kind) == pushed_tasks(history, kind),
    decreases history.len(),
{
    if history.len() > 0 {
        law_first_in_first_out(history.drop_last(), kind);
        let before = replay(history.drop_last());
        let taken = popped_tasks(history.drop_last(), kind);
        match history.last() {
            QueueEvent::Push(task, now) => {
                if task.kind == kind {
                    assert(taken + before.queue(kind).push(crate::queues::stamped(task, now))
                        =~= (taken + before.queue(kind)).push(crate::queues::stamped(task, now)));
                }
            },
            QueueEvent::Pop(k) => {
                if k == kind && before.queue(kind).len() > 0 {
                    assert(taken.push(before.queue(kind)[0]) + before.queue(kind).drop_first()
                        =~= taken + before.queue(kind));
                }
            },
            QueueEvent::Close => {},
        }
    }
}

/// Once a queue is drained, every task that was pushed into it has been taken,
/// exactly once and in order.
pub proof fn law_drained_queue_served_all(history: Seq<QueueEvent>, kind: TaskKind)
    requires
        replay(history).queue(kind).len() == 0,
    ensures
        popped_tasks(history, kind) == pushed_tasks(history, kind),
{
    law_first_in_first_out(history, kind);
    assert(popped_tasks(history, kind) + replay(history).queue(kind) =~= popped_tasks(
        history,
        kind,
    ));
}

/// The number of pushes and successful pops.
pub open spec fn moves(history: Seq<QueueEvent>) -> nat {
    pushed_tasks(history, TaskKind::Cpu).len() + pushed_tasks(history, TaskKind::Io).len()
        + popped_tasks(history, TaskKind::Cpu).len() + popped_tasks(history, TaskKind::Io).len()
}

/// One sample is taken per push and per successful pop, the current lengths
/// never exceed the longest ones, and no mean length exceeds the longest.
pub proof fn law_statistics_describe_history(history: Seq<QueueEvent>)
    ensures
        replay(history).samples == moves(history),
        replay(history).cpu.len() <= replay(history).cpu_max_len,
        replay(history).io.len() <= replay(history).io_max_len,
        replay(history).cpu_len_sum <= replay(history).samples * replay(history).cpu_max_len,
        replay(history).io_len_sum <= replay(history).samples * replay(history).io_max_len,
    decreases history.len(),
{
    if history.len() > 0 {
        law_statistics_describe_history(history.drop_last());
        let before = replay(history.drop_last());
        let after = replay(history);
        if after.samples != before.samples {
            crate::queues::lemma_sum_bound(
                before.samples,
                before.cpu_max_len,
                before.cpu_len_sum,
                after.cpu_max_len,
                after.cpu.len(),
            );
            crate::queues::lemma_sum_bound(
                before.samples,
                before.io_max_len,
                before.io_len_sum,
                after.io_max_len,
                after.io.len(),
            );
        }
    }
}

/// The longest length was reached at some time, and no length ever exceeded it.
pub proof fn law_longest_length_is_tight(history: Seq<QueueEvent>, kind: TaskKind)
    ensures
        forall|n: int|
            0 <= n <= history.len() ==> (#[trigger] replay(history.take(n))).queue(kind).len()
                <= longest(replay(history), kind),
        exists|n: int|
            0 <= n <= history.len() && (#[trigger] replay(history.take(n))).queue(kind).len()
                == longest(replay(history), kind),
    decreases history.len(),
{
    assert(history.take(history.len() as int) =~= history);
    if history.len() > 0 {
        let front = history.drop_last();
        law_longest_length_is_tight(front, kind);
        law_statistics_describe_history(history);
        assert forall|n: int| 0 <= n <= history.len() implies (#[trigger] replay(
            history.take(n),
        )).queue(kind).len() <= longest(replay(history), kind) by {
            if n < history.len() {
                assert(front.take(n) =~= history.take(n));
                assert(replay(front.take(n)).queue(kind).len() <= longest(replay(front), kind));
            }
        }
        let n = choose|n: int|
            0 <= n <= front.len() && (#[trigger] replay(front.take(n))).queue(kind).len()
                == longest(replay(front), kind);
        assert(front.take(n) =~= history.take(n));
        if longest(replay(history), kind) == longest(replay(front), kind) {
            assert(replay(history.take(n)).queue(kind).len() == longest(replay(history), kind));
        } else {
            assert(replay(history.take(history.len() as int)).queue(kind).len() == longest(
                replay(history),
                kind,
            ));
        }
    } else {
        assert(history.take(0) =~= history);
    }
}

/// The longest length that the queue of `kind` has had.
pub open spec fn longest(queues: QueuesModel, kind: TaskKind) -> nat {
    match kind {
        TaskKind::Cpu => queues.cpu_max_len,
        TaskKind::Io => queues.io_max_len,
    }
}

/// Queueing a task changes nothing about it but the time of queueing. It comes last
/// in the queue of its kind; what stood there stays in place, the other queue and
/// the closed flag are not touched, and the statistics take in both lengths.
pub proof fn law_queueing_only_stamps(queues: QueuesModel, task: Task, now: Duration)
    ensures
        ({
            let after = queues.pushed(task, now);
            let (queue, grown, other, other_after) = if task.kind == TaskKind::Cpu {
                (queues.cpu, after.cpu, queues.io, after.io)
            } else {
                (queues.io, after.io, queues.cpu, after.cpu)
            };
            let queued = grown.last();
            &&& grown.len() == queue.len() + 1
            &&& grown.drop_last() == queue
            &&& other_after == other
            &&& queued.id == task.id
            &&& queued.kind == task.kind
            &&& queued.arrival_offset == task.arrival_offset
            &&& queued.duration == task.duration
            &&& queued.priority == task.priority
            &&& queued.start_time == task.start_time
            &&& queued.enqueue_time == Some(now)
            &&& after.closed == queues.closed
        }),
{
    let queue = queues.queue(task.kind);
    assert(queue.push(crate::queues::stamped(task, now)).drop_last() =~= queue);
}

/// Taking a task removes the front of its queue and nothing else. An empty queue
/// stays as it is, statistics included.
pub proof fn law_taking_removes_the_front(queues: QueuesModel, kind: TaskKind)
    ensures
        ({
            let after = queues.popped(kind);
            let (queue, rest, other, other_after) = if kind == TaskKind::Cpu {
                (queues.cpu, after.cpu, queues.io, after.io)
            } else {
                (queues.io, after.io, queues.cpu, after.cpu)
            };
            &&& queue.len() == 0 ==> after == queues
            &&& queue.len() > 0 ==> queue == seq![queue[0]] + rest
            &&& other_after == other
            &&& after.closed == queues.closed
            &&& after.cpu_max_len == queues.cpu_max_len
            &&& after.io_max_len == queues.io_max_len
        }),
{
    let queue = queues.queue(kind);
    if queue.len() > 0 {
        assert(queue =~= seq![queue[0]] + queue.drop_first());
    }
}

/// Each push, and each pop that finds a task, counts as one sample of both lengths
/// as they are afterwards. The longest lengths rise to a new length that exceeds
/// them and never fall.
pub proof fn law_every_move_is_sampled(
    queues: QueuesModel,
    task: Task,
    now: Duration,
    kind: TaskKind,
)
    ensures
        ({
            let after = queues.pushed(task, now);
            &&& after.samples == queues.samples + 1
            &&& after.cpu_len_sum == queues.cpu_len_sum + after.cpu.len()
            &&& after.io_len_sum == queues.io_len_sum + after.io.len()
            &&& after.cpu_max_len >= after.cpu.len()
            &&& after.cpu_max_len >= queues.cpu_max_len
            &&& after.cpu_max_len == after.cpu.len() || after.cpu_max_len == queues.cpu_max_len
            &&& after.io_max_len >= after.io.len()
            &&& after.io_max_len >= queues.io_max_len
            &&& after.io_max_len == after.io.len() || after.io_max_len == queues.io_max_len
        }),
        ({
            let after = queues.popped(kind);
            let found = if kind == TaskKind::Cpu {
                queues.cpu.len() > 0
            } else {
                queues.io.len() > 0
            };
            found ==> {
                &&& after.samples == queues.samples + 1
                &&& after.cpu_len_sum == queues.cpu_len_sum + after.cpu.len()
                &&& after.io_len_sum == queues.io_len_sum + after.io.len()
            }
        }),
{
}

/// New queues are empty, open and without statistics.
pub proof fn law_queues_start_empty()
    ensures
        ({
            let fresh = QueuesModel::empty();
            &&& fresh.cpu.len() == 0
            &&& fresh.io.len() == 0
            &&& !fresh.closed
            &&& fresh.cpu_max_len == 0
            &&& fresh.io_max_len == 0
            &&& fresh.cpu_len_sum == 0
            &&& fresh.io_len_sum == 0
            &&& fresh.samples == 0
        }),
{
}

/// The statistics have room as long as each counter is at most the greatest `u64`.
pub proof fn law_statistics_have_room(queues: QueuesModel)
    ensures
        queues.fits() <==> queues.cpu_len_sum <= u64::MAX && queues.io_len_sum <= u64::MAX
            && queues.samples <= u64::MAX,
{
}

/// The front of a queue has waited since it was queued: the time of queueing and
/// the wait add up to now. An empty queue has no wait.
pub proof fn law_front_has_waited_since_queueing(
    queues: QueuesModel,
    kind: TaskKind,
    now: Duration,
    since: Duration,
)
    ensures
        ({
            let queue = if kind == TaskKind::Cpu {
                queues.cpu
            } else {
                queues.io
            };
            let wait = queues.head_wait(kind, now);
            &&& queue.len() == 0 ==> wait is None
            &&& queue.len() > 0 && queue[0].enqueue_time == Some(since) ==> {
                &&& wait is Some
                &&& since.nanos <= now.nanos ==> since.nanos + wait->0.nanos == now.nanos
                &&& since.nanos >= now.nanos ==> wait->0.nanos == 0
            }
        }),
{
}

/// What comes out is what went in: the `i`-th task of `kind` that was taken is the
/// `i`-th of that kind that was pushed, the same in every field but for the time
/// of queueing. `n` is where in the history it was pushed.
pub proof fn law_tasks_come_out_as_they_went_in(
    history: Seq<QueueEvent>,
    kind: TaskKind,
    i: int,
) -> (n: int)
    requires
        0 <= i < popped_tasks(history, kind).len(),
    ensures
        0 <= n < history.len(),
        pushed_tasks(history.take(n), kind).len() == i,
        match history[n] {
            QueueEvent::Push(task, now) => {
                let out = popped_tasks(history, kind)[i];
                &&& task.kind == kind
                &&& out.id == task.id
                &&& out.kind == task.kind
                &&& out.arrival_offset == task.arrival_offset
                &&& out.duration == task.duration
                &&& out.priority == task.priority
                &&& out.start_time == task.start_time
                &&& out.enqueue_time == Some(now)
            },
            _ => false,
        },
{
    law_first_in_first_out(history, kind);
    assert(popped_tasks(history, kind)[i] == pushed_tasks(history, kind)[i]);
    lemma_pushed_task_has_event(history, kind, i)
}

proof fn lemma_pushed_task_has_event(history: Seq<QueueEvent>, kind: TaskKind, i: int) -> (n: int)
    requires
        0 <= i < pushed_tasks(history, kind).len(),
    ensures
        0 <= n < history.len(),
        pushed_tasks(history.take(n), kind).len() == i,
        match history[n] {
            QueueEvent::Push(task, now) => {
                &&& task.kind == kind
                &&& pushed_tasks(history, kind)[i] == (Task { enqueue_time: Some(now), ..task })
            },
            _ => false,
        },
    decreases history.len(),
{
    let front = history.drop_last();
    if i < pushed_tasks(front, kind).len() {
        let n = lemma_pushed_task_has_event(front, kind, i);
        assert(front.take(n) =~= history.take(n));
        n
    } else {
        let n = history.len() - 1;
        assert(history.take(n) =~= front);
        n
    }
}

/// Whatever was pushed and taken, the queues are well-formed, as long as their
/// lengths and statistics have room.
pub proof fn law_every_history_is_well_formed(history: Seq<QueueEvent>)
    requires
        replay(history).cpu_max_len <= usize::MAX,
        replay(history).io_max_len <= usize::MAX,
        replay(history).cpu_len_sum <= u64::MAX,
        replay(history).io_len_sum <= u64::MAX,
        replay(history).samples <= u64::MAX,
    ensures
        replay(history).wf(),
        forall|i: int|
            0 <= i < replay(history).cpu.len() ==> (#[trigger] replay(history).cpu[i]).kind
                == TaskKind::Cpu,
        forall|i: int|
            0 <= i < replay(history).io.len() ==> (#[trigger] replay(history).io[i]).kind
                == TaskKind::Io,
{
    law_statistics_describe_history(history);
    lemma_kinds_do_not_mix(history);
}

proof fn lemma_kinds_do_not_mix(history: Seq<QueueEvent>)
    ensures
        crate::queues::holds_only(replay(history).cpu, TaskKind::Cpu),
        crate::queues::holds_only(replay(history).io, TaskKind::Io),
    decreases history.len(),
{
    if history.len() > 0 {
        lemma_kinds_do_not_mix(history.drop_last());
    }
}

} // verus!

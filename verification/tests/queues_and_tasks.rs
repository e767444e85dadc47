use task_dispatcher::queues::{Average, QueueSnapshot, QueueStats, ReadyQueues};
use task_dispatcher::sorting::stable_sort;
use task_dispatcher::task::{Task, TaskKind};
use task_dispatcher::time::{checked_sum, sum, Duration, MAX_NANOS};

fn ns(nanos: u128) -> Duration {
    Duration { nanos }
}

fn task(id: u64, kind: TaskKind) -> Task {
    Task::new(id, kind, ns(0), Duration::from_millis(5), 1)
}

#[test]
fn kind_names() {
    assert_eq!(TaskKind::Cpu.as_str(), "CPU");
    assert_eq!(TaskKind::Io.as_str(), "IO");
}

#[test]
fn new_task_is_unprocessed() {
    let t = Task::new(7, TaskKind::Io, ns(3), ns(4), 2);
    assert_eq!(t.id, 7);
    assert_eq!(t.kind, TaskKind::Io);
    assert_eq!(t.arrival_offset, ns(3));
    assert_eq!(t.duration, ns(4));
    assert_eq!(t.priority, 2);
    assert_eq!(t.enqueue_time, None);
    assert_eq!(t.start_time, None);
}

#[test]
fn durations_convert() {
    assert_eq!(Duration::zero(), ns(0));
    assert_eq!(Duration::from_millis(3), ns(3_000_000));
    assert_eq!(Duration::from_micros(3), ns(3_000));
    assert_eq!(ns(2_999_999).as_millis(), 2);
    assert_eq!(ns(9).since(ns(4)), ns(5));
    assert_eq!(ns(4).since(ns(9)), ns(0));
    assert_eq!(ns(4).plus(ns(9)), ns(13));
    assert_eq!(MAX_NANOS, std::time::Duration::MAX.as_nanos());
}

#[test]
fn durations_sum() {
    assert_eq!(sum(&[]), ns(0));
    assert_eq!(sum(&[ns(1), ns(2), ns(3)]), ns(6));
    assert_eq!(checked_sum(&[ns(MAX_NANOS)]), Some(ns(MAX_NANOS)));
    assert_eq!(checked_sum(&[ns(MAX_NANOS), ns(1)]), None);
    assert_eq!(checked_sum(&[ns(u128::MAX)]), None);
}

#[test]
fn sorting_is_stable() {
    let mut tasks = Vec::new();
    for (id, due) in [(0u64, 5u128), (1, 3), (2, 5), (3, 0), (4, 3)] {
        tasks.push(Task::new(id, TaskKind::Cpu, ns(due), ns(1), 1));
    }
    let sorted = stable_sort(&tasks);
    let ids: Vec<u64> = sorted.iter().map(|t| t.id).collect();
    assert_eq!(ids, vec![3, 1, 4, 0, 2]);
    assert_eq!(stable_sort(&sorted), sorted);
}

#[test]
fn fresh_queues_are_empty_and_open() {
    let q = ReadyQueues::new();
    assert_eq!(q.wait_until_ready(), None);
    assert_eq!(q.head_wait(TaskKind::Cpu, ns(9)), None);
    assert_eq!(q.head_wait(TaskKind::Io, ns(9)), None);
    let zero = Average { sum: 0, count: 0 };
    assert_eq!(
        q.stats(),
        QueueStats { cpu_max_len: 0, io_max_len: 0, cpu_avg_len: zero, io_avg_len: zero }
    );
    assert_eq!(ReadyQueues::default().wait_until_ready(), None);
}

#[test]
fn push_stamps_and_pop_returns_in_order() {
    let mut q = ReadyQueues::new();
    q.push(task(0, TaskKind::Cpu), ns(10));
    q.push(task(1, TaskKind::Io), ns(11));
    q.push(task(2, TaskKind::Cpu), ns(12));
    assert_eq!(
        q.wait_until_ready(),
        Some(QueueSnapshot { cpu_len: 2, io_len: 1, closed: false })
    );
    assert_eq!(q.head_wait(TaskKind::Cpu, ns(30)), Some(ns(20)));
    assert_eq!(q.head_wait(TaskKind::Io, ns(30)), Some(ns(19)));
    assert_eq!(q.head_wait(TaskKind::Io, ns(5)), Some(ns(0)));
    let first = q.try_pop(TaskKind::Cpu).unwrap();
    assert_eq!(first.id, 0);
    assert_eq!(first.enqueue_time, Some(ns(10)));
    assert_eq!(q.try_pop(TaskKind::Cpu).unwrap().id, 2);
    assert_eq!(q.try_pop(TaskKind::Cpu), None);
    assert_eq!(q.try_pop(TaskKind::Io).unwrap().id, 1);
    assert_eq!(q.try_pop(TaskKind::Io), None);
    assert_eq!(q.wait_until_ready(), None);
}

#[test]
fn closing_is_visible() {
    let mut q = ReadyQueues::new();
    q.close();
    assert_eq!(
        q.wait_until_ready(),
        Some(QueueSnapshot { cpu_len: 0, io_len: 0, closed: true })
    );
}

#[test]
fn statistics_sample_pushes_and_pops() {
    let mut q = ReadyQueues::new();
    q.push(task(0, TaskKind::Cpu), ns(0)); // lengths 1, 0
    q.push(task(1, TaskKind::Cpu), ns(0)); // 2, 0
    q.push(task(2, TaskKind::Io), ns(0)); // 2, 1
    q.try_pop(TaskKind::Cpu); // 1, 1
    q.try_pop(TaskKind::Cpu); // 0, 1
    q.try_pop(TaskKind::Cpu); // nothing
    assert_eq!(
        q.stats(),
        QueueStats {
            cpu_max_len: 2,
            io_max_len: 1,
            cpu_avg_len: Average { sum: 6, count: 5 },
            io_avg_len: Average { sum: 3, count: 5 },
        }
    );
}

#[test]
fn statistics_have_room() {
    let mut q = ReadyQueues::new();
    assert!(q.push_fits(TaskKind::Cpu) && q.push_fits(TaskKind::Io));
    assert!(q.pop_fits(TaskKind::Cpu) && q.pop_fits(TaskKind::Io));
    q.push(task(0, TaskKind::Io), ns(0));
    assert!(q.pop_fits(TaskKind::Io));
}

#[test]
fn everything_pushed_is_popped_once_and_in_order() {
    let mut q = ReadyQueues::new();
    let mut pushed = Vec::new();
    let mut popped = Vec::new();
    for id in 0..50u64 {
        let kind = if id % 3 == 0 { TaskKind::Cpu } else { TaskKind::Io };
        q.push(task(id, kind), ns(id as u128));
        if kind == TaskKind::Io {
            pushed.push(id);
        }
        if id % 4 == 0 {
            if let Some(t) = q.try_pop(TaskKind::Io) {
                popped.push(t.id);
            }
        }
    }
    q.close();
    while let Some(t) = q.try_pop(TaskKind::Io) {
        popped.push(t.id);
    }
    assert_eq!(popped, pushed);
}

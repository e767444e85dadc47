use task_dispatcher::dispatcher::{
    choose_queue, route, Decision, Dispatcher, PolicyConfig, Seat, Step,
};
use task_dispatcher::queues::{QueueSnapshot, ReadyQueues};
use task_dispatcher::task::{Task, TaskKind};
use task_dispatcher::time::Duration;

fn ms(millis: u64) -> Duration {
    Duration::from_millis(millis)
}

fn policy(io_reserved_workers: usize, cpu_weight: u32, io_weight: u32, aging: u64) -> PolicyConfig {
    PolicyConfig { io_reserved_workers, cpu_weight, io_weight, aging_threshold_ms: aging }
}

fn snap(cpu_len: usize, io_len: usize, closed: bool) -> QueueSnapshot {
    QueueSnapshot { cpu_len, io_len, closed }
}

fn task(id: u64, kind: TaskKind) -> Task {
    Task::new(id, kind, ms(0), ms(1), 1)
}

#[test]
fn default_policy() {
    assert_eq!(PolicyConfig::default(), policy(1, 2, 1, 200));
}

#[test]
fn aging_comes_first() {
    let p = policy(0, 1, 1, 200);
    let s = snap(1, 1, false);
    // Exactly at the threshold is not overdue: the weights decide.
    assert_eq!(choose_queue(s, &p, 0, 2, Some(ms(200)), Some(ms(200))), TaskKind::Cpu);
    assert_eq!(choose_queue(s, &p, 1, 2, Some(ms(200)), Some(ms(200))), TaskKind::Io);
    assert_eq!(choose_queue(s, &p, 1, 2, Some(ms(201)), Some(ms(0))), TaskKind::Cpu);
    assert_eq!(choose_queue(s, &p, 0, 2, Some(ms(0)), Some(ms(201))), TaskKind::Io);
    // Both overdue: the longer wait, CPU on a tie.
    assert_eq!(choose_queue(s, &p, 0, 2, Some(ms(300)), Some(ms(301))), TaskKind::Io);
    assert_eq!(choose_queue(s, &p, 1, 2, Some(ms(301)), Some(ms(300))), TaskKind::Cpu);
    assert_eq!(choose_queue(s, &p, 1, 2, Some(ms(300)), Some(ms(300))), TaskKind::Cpu);
    // Heads fresher than the snapshot.
    assert_eq!(choose_queue(snap(0, 1, false), &p, 1, 2, Some(ms(500)), None), TaskKind::Cpu);
    assert_eq!(choose_queue(snap(1, 0, false), &p, 0, 2, None, Some(ms(500))), TaskKind::Io);
}

#[test]
fn single_filled_queue_is_served() {
    let p = policy(0, 1, 1, 200);
    assert_eq!(choose_queue(snap(0, 3, false), &p, 0, 2, None, Some(ms(1))), TaskKind::Io);
    assert_eq!(choose_queue(snap(3, 0, false), &p, 1, 2, Some(ms(1)), None), TaskKind::Cpu);
}

#[test]
fn weights_decide_last() {
    let p = policy(0, 2, 1, 200);
    let s = snap(5, 5, false);
    let kinds: Vec<TaskKind> =
        (0..3).map(|t| choose_queue(s, &p, t, 3, Some(ms(0)), Some(ms(0)))).collect();
    assert_eq!(kinds, vec![TaskKind::Cpu, TaskKind::Cpu, TaskKind::Io]);
    assert_eq!(choose_queue(s, &p, 0, 0, Some(ms(0)), Some(ms(0))), TaskKind::Io);
    let none = policy(0, 0, 0, 200);
    assert_eq!(choose_queue(s, &none, 0, 1, Some(ms(0)), Some(ms(0))), TaskKind::Io);
}

#[test]
fn routes() {
    assert_eq!(route(TaskKind::Io, 2, 3, 5, 7), Seat::IoOnly(1));
    assert_eq!(route(TaskKind::Io, 0, 3, 5, 7), Seat::General(1));
    assert_eq!(route(TaskKind::Cpu, 2, 3, 5, 7), Seat::General(1));
    assert_eq!(route(TaskKind::Cpu, 2, 0, 5, 7), Seat::IoOnly(1));
}

#[test]
fn reservation_leaves_one_worker() {
    assert_eq!(Dispatcher::new(policy(3, 1, 1, 0), 8).reserved, 3);
    assert_eq!(Dispatcher::new(policy(8, 1, 1, 0), 8).reserved, 7);
    assert_eq!(Dispatcher::new(policy(5, 1, 1, 0), 1).reserved, 0);
    assert_eq!(Dispatcher::new(policy(5, 1, 1, 0), 0).reserved, 0);
    assert_eq!(Dispatcher::new(policy(0, 0, 0, 0), 4).period, 1);
    assert_eq!(Dispatcher::new(policy(0, 2, 3, 0), 4).period, 5);
}

#[test]
fn decisions() {
    let d = Dispatcher::new(policy(0, 1, 1, 200), 4);
    assert_eq!(d.decide(snap(0, 0, true), None, None), Decision::Finish);
    assert_eq!(d.decide(snap(0, 0, false), None, None), Decision::WaitAgain);
    assert_eq!(d.decide(snap(1, 0, true), Some(ms(0)), None), Decision::Serve(TaskKind::Cpu));
    assert_eq!(d.decide(snap(0, 1, true), None, Some(ms(0))), Decision::Serve(TaskKind::Io));
}

#[test]
fn reserved_workers_get_io_only() {
    let mut d = Dispatcher::new(policy(2, 1, 1, 200), 5);
    let io: Vec<usize> = (0..5).map(|_| d.assign(TaskKind::Io)).collect();
    assert_eq!(io, vec![0, 1, 0, 1, 0]);
    let cpu: Vec<usize> = (0..5).map(|_| d.assign(TaskKind::Cpu)).collect();
    assert_eq!(cpu, vec![2, 3, 4, 2, 3]);
    assert_eq!(d.tick, 0);
}

#[test]
fn counters_wrap() {
    let mut d = Dispatcher::new(policy(0, 1, 1, 200), 3);
    d.next_general = usize::MAX;
    assert_eq!(d.assign(TaskKind::Cpu), usize::MAX % 3);
    assert_eq!(d.assign(TaskKind::Cpu), 0);
}

/// The kinds and workers of `n` dispatches while both queues stay filled.
fn saturated(p: PolicyConfig, workers: usize, n: usize) -> Vec<(TaskKind, usize)> {
    let mut d = Dispatcher::new(p, workers);
    let mut out = Vec::new();
    for _ in 0..n {
        match d.decide(snap(9, 9, false), Some(ms(0)), Some(ms(0))) {
            Decision::Serve(kind) => out.push((kind, d.assign(kind))),
            other => panic!("unexpected decision {:?}", other),
        }
    }
    out
}

#[test]
fn rounds_repeat() {
    let kinds: Vec<TaskKind> =
        saturated(policy(0, 1, 2, 200), 8, 6).into_iter().map(|(k, _)| k).collect();
    let (c, i) = (TaskKind::Cpu, TaskKind::Io);
    assert_eq!(kinds, vec![c, i, i, c, i, i]);
}

#[test]
fn equal_weights_split_even_and_odd_workers() {
    for (kind, worker) in saturated(policy(0, 1, 1, 9_999_999), 8, 64) {
        assert_eq!(kind == TaskKind::Cpu, worker % 2 == 0);
    }
}

#[test]
fn coprime_rounds_mix_evenly() {
    let mut cpu = [0; 8];
    let mut io = [0; 8];
    for (kind, worker) in saturated(policy(0, 1, 2, 200), 8, 24) {
        match kind {
            TaskKind::Cpu => cpu[worker] += 1,
            TaskKind::Io => io[worker] += 1,
        }
    }
    assert_eq!(cpu, [1; 8]);
    assert_eq!(io, [2; 8]);
}

#[test]
fn steps_drain_closed_queues() {
    let mut q = ReadyQueues::new();
    let mut d = Dispatcher::new(policy(0, 1, 1, 1_000), 2);
    assert_eq!(d.step(&mut q, ms(0)), Step::WaitAgain);
    q.push(task(0, TaskKind::Io), ms(0));
    q.push(task(1, TaskKind::Io), ms(0));
    q.push(task(2, TaskKind::Cpu), ms(0));
    q.close();
    let mut seen = Vec::new();
    loop {
        match d.step(&mut q, ms(1)) {
            Step::Hand(t, worker) => seen.push((t.id, worker)),
            Step::WaitAgain => panic!("closed queues never wait"),
            Step::Finish => break,
        }
    }
    assert_eq!(seen, vec![(2, 0), (0, 1), (1, 0)]);
    assert_eq!(d.tick, 1);
}

#[test]
fn overdue_task_overtakes_the_weights() {
    let mut q = ReadyQueues::new();
    let mut d = Dispatcher::new(policy(0, 1, 0, 10), 2);
    q.push(task(0, TaskKind::Io), ms(0));
    q.push(task(1, TaskKind::Cpu), ms(5));
    q.push(task(2, TaskKind::Cpu), ms(20));
    assert_eq!(d.step(&mut q, ms(6)), Step::Hand(Task { enqueue_time: Some(ms(5)), ..task(1, TaskKind::Cpu) }, 0));
    assert_eq!(d.step(&mut q, ms(21)), Step::Hand(Task { enqueue_time: Some(ms(0)), ..task(0, TaskKind::Io) }, 1));
}

#[test]
fn overdue_task_is_taken_after_its_elders() {
    let mut q = ReadyQueues::new();
    let mut d = Dispatcher::new(policy(0, 5, 0, 10), 2);
    for id in 0..4u64 {
        q.push(task(id, if id == 2 { TaskKind::Io } else { TaskKind::Cpu }), ms(id));
    }
    let mut order = Vec::new();
    for turn in 0..3u64 {
        q.push(task(10 + turn, TaskKind::Cpu), ms(20 + turn));
        match d.step(&mut q, ms(20 + turn)) {
            Step::Hand(t, _) => order.push(t.id),
            other => panic!("unexpected step {:?}", other),
        }
    }
    assert_eq!(order, vec![0, 1, 2]);
}

#[test]
fn filled_queues_are_served_in_rounds() {
    let mut q = ReadyQueues::new();
    let mut d = Dispatcher::new(policy(0, 1, 2, 200), 8);
    for id in 0..60u64 {
        q.push(task(id, if id % 2 == 0 { TaskKind::Cpu } else { TaskKind::Io }), ms(0));
    }
    let expected = saturated(policy(0, 1, 2, 200), 8, 24);
    for (kind, worker) in expected {
        match d.step(&mut q, ms(1)) {
            Step::Hand(t, w) => assert_eq!((t.kind, w), (kind, worker)),
            other => panic!("unexpected step {:?}", other),
        }
    }
}

#[test]
fn turns_need_a_worker() {
    let mut q = ReadyQueues::new();
    let none = Dispatcher::new(policy(0, 1, 1, 200), 0);
    let some = Dispatcher::new(policy(0, 1, 1, 200), 1);
    assert!(none.can_step(&q, ms(0)));
    q.push(task(0, TaskKind::Cpu), ms(0));
    assert!(!none.can_step(&q, ms(0)));
    assert!(some.can_step(&q, ms(0)));
}

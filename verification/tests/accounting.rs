use task_dispatcher::document::{Document, Piece};
use task_dispatcher::experiment::{
    announcement, delay_until_due, experiment_fifo, experiment_optimized, interpretation,
    select_experiments, Selection,
};
use task_dispatcher::metrics::{avg_dur, Completion, Summary, WorkerBusy};
use task_dispatcher::monitor::{
    checked_total, cpu_delta, cpu_ticks, csv_header, ticks_fit, ticks_in, CpuTicks, CpuUsage,
    Monitor, MonitorStats,
};
use task_dispatcher::proc_stat::{parse_counters, parse_number};
use task_dispatcher::queues::{Average, QueueStats};
use task_dispatcher::task::{Task, TaskKind};
use task_dispatcher::text::{contains, same};
use task_dispatcher::time::{Duration, MAX_NANOS};
use task_dispatcher::worker::{simulate_cpu, Work, Worker, SPIN_SEED, SPIN_STEPS};
use task_dispatcher::workload::Fraction;

fn ms(millis: u64) -> Duration {
    Duration::from_millis(millis)
}

fn done(id: u64, kind: TaskKind, wait: u64, busy: u64) -> Completion {
    Completion {
        id,
        kind,
        worker_id: 0,
        wait: ms(wait),
        turnaround: ms(wait + busy),
        busy: ms(busy),
    }
}

fn summary(completions: Vec<Completion>) -> Summary {
    Summary {
        completions,
        worker_busy: vec![
            WorkerBusy { worker_id: 1, total_busy: ms(30) },
            WorkerBusy { worker_id: 0, total_busy: ms(70) },
        ],
        makespan: ms(100),
    }
}

/// A plain rendering, to compare whole documents.
fn render(doc: &Document) -> String {
    let mut out = String::new();
    for piece in &doc.pieces {
        match piece {
            Piece::Text(text) => out.push_str(text),
            Piece::Count { value, width } => out.push_str(&format!("{:>1$}", value, *width)),
            Piece::Millis { span, places, width } => {
                let value = span.nanos as f64 / 1_000_000.0;
                out.push_str(&format!("{:>1$.2$}", value, *width, *places));
            }
            Piece::Percent { part, whole, times, places, width } => {
                let value = part.nanos as f64 / (whole.nanos as f64 * *times as f64) * 100.0;
                out.push_str(&format!("{:>1$.2$}", value, *width, *places));
            }
            Piece::Mean { average, places } => {
                let value = average.sum as f64 / average.count as f64;
                out.push_str(&format!("{:.1$}", value, *places));
            }
            Piece::Ratio { numerator, denominator, places } => {
                let value = *numerator as f64 / *denominator as f64 * 100.0;
                out.push_str(&format!("{:.1$}", value, *places));
            }
            Piece::Share { fraction, rest, rounded } => {
                let f = fraction.numerator as f64 / 2f64.powi(fraction.scale as i32);
                let value = if *rest { 1.0 - f } else { f } * 100.0;
                if *rounded {
                    out.push_str(&format!("{:.0}", value));
                } else {
                    out.push_str(&format!("{}", value as u32));
                }
            }
            Piece::Binary64 { bits, places } => {
                out.push_str(&format!("{:.1$}", f64::from_bits(*bits), *places));
            }
        }
    }
    out
}

#[test]
fn worker_runs_by_kind() {
    let mut cpu = Task::new(1, TaskKind::Cpu, ms(0), ms(7), 1);
    assert_eq!(Worker::begin(&mut cpu, ms(3)), Work::Spin(ms(7)));
    assert_eq!(cpu.start_time, Some(ms(3)));
    let mut io = Task::new(1, TaskKind::Io, ms(0), ms(8), 1);
    assert_eq!(Worker::begin(&mut io, ms(4)), Work::Sleep(ms(8)));
    assert_eq!(io.start_time, Some(ms(4)));
}

#[test]
fn worker_records_completions() {
    let mut worker = Worker::new(3);
    let mut task = Task::new(9, TaskKind::Io, ms(0), ms(8), 1);
    task.enqueue_time = Some(ms(10));
    assert!(worker.can_finish(&task, ms(15), ms(24)));
    let c = worker.finish(&task, ms(15), ms(24));
    assert_eq!(
        c,
        Completion {
            id: 9,
            kind: TaskKind::Io,
            worker_id: 3,
            wait: ms(5),
            turnaround: ms(14),
            busy: ms(9),
        }
    );
    task.enqueue_time = None;
    let c = worker.finish(&task, ms(30), ms(31));
    assert_eq!(c.wait, Duration::zero());
    assert_eq!(c.turnaround, ms(1));
    assert_eq!(worker.into_busy(), WorkerBusy { worker_id: 3, total_busy: ms(10) });
}

#[test]
fn worker_total_can_overflow() {
    let worker = Worker { id: 0, total_busy: Duration { nanos: MAX_NANOS } };
    let task = Task::new(0, TaskKind::Cpu, ms(0), ms(0), 1);
    assert!(worker.can_finish(&task, ms(0), ms(0)));
    assert!(!worker.can_finish(&task, ms(0), ms(1)));
}

#[test]
fn spinning_stops_at_the_target() {
    assert_eq!(simulate_cpu(SPIN_SEED, ms(5), ms(5)), None);
    assert_eq!(simulate_cpu(SPIN_SEED, ms(0), ms(0)), None);
    let mut acc = SPIN_SEED;
    for i in 0..SPIN_STEPS {
        acc = acc.wrapping_mul(0x100000001b3).wrapping_add(i);
    }
    assert_eq!(simulate_cpu(SPIN_SEED, ms(4), ms(5)), Some(acc));
}

#[test]
fn mean_durations() {
    assert_eq!(avg_dur(&[]), Duration::zero());
    assert_eq!(avg_dur(&[ms(1), ms(2)]), Duration { nanos: 1_500_000 });
    let xs = [Duration { nanos: 2 }, Duration { nanos: 3 }, Duration { nanos: 3 }];
    assert_eq!(avg_dur(&xs), Duration { nanos: 2 });
}

#[test]
fn default_busy_time() {
    assert_eq!(WorkerBusy::default(), WorkerBusy { worker_id: 0, total_busy: Duration::zero() });
}

#[test]
fn figures_of_a_run() {
    let s = summary(vec![
        done(0, TaskKind::Cpu, 10, 5),
        done(1, TaskKind::Io, 40, 5),
        done(2, TaskKind::Cpu, 40, 6),
        done(3, TaskKind::Io, 10, 4),
    ]);
    assert!(s.is_reportable());
    let r = s.rollup();
    assert_eq!((r.io_completed, r.cpu_completed), (2, 2));
    assert_eq!(r.avg_wait, ms(25));
    assert_eq!(r.avg_wait_io, ms(25));
    assert_eq!(r.avg_wait_cpu, ms(25));
    assert_eq!(r.avg_turnaround, ms(30));
    // Of the two longest waits the later one counts.
    assert_eq!((r.max_wait, r.max_wait_task), (ms(40), 2));
    assert_eq!(r.fairness_gap, Duration::zero());
    assert_eq!(r.total_busy, ms(100));
}

#[test]
fn fairness_gap_is_a_distance() {
    let cpu_waits = summary(vec![done(0, TaskKind::Cpu, 10, 1), done(1, TaskKind::Io, 4, 1)]);
    assert_eq!(cpu_waits.rollup().fairness_gap, ms(6));
    let io_waits = summary(vec![done(0, TaskKind::Cpu, 4, 1), done(1, TaskKind::Io, 10, 1)]);
    assert_eq!(io_waits.rollup().fairness_gap, ms(6));
    let only_io = summary(vec![done(1, TaskKind::Io, 10, 1)]);
    assert_eq!(only_io.rollup().fairness_gap, ms(10));
}

#[test]
fn mean_wait_is_at_most_the_longest() {
    let s = summary((0..20).map(|i| done(i, TaskKind::Io, i * i % 17, 1)).collect());
    let r = s.rollup();
    assert!(r.avg_wait.nanos <= r.max_wait.nanos);
    assert_eq!(r.io_completed + r.cpu_completed, 20);
}

#[test]
fn overflowing_totals_are_not_reportable() {
    let mut s = summary(vec![done(0, TaskKind::Cpu, 1, 1)]);
    s.completions[0].wait = Duration { nanos: MAX_NANOS };
    assert!(s.is_reportable());
    s.completions.push(done(1, TaskKind::Cpu, 1, 1));
    assert!(!s.is_reportable());
    s.completions.clear();
    assert!(s.is_reportable());
}

#[test]
fn workers_are_listed_in_order() {
    let ids: Vec<usize> =
        summary(vec![]).workers_in_order().iter().map(|w| w.worker_id).collect();
    assert_eq!(ids, vec![0, 1]);
}

fn queue_stats() -> QueueStats {
    QueueStats {
        cpu_max_len: 3,
        io_max_len: 7,
        cpu_avg_len: Average { sum: 3, count: 2 },
        io_avg_len: Average { sum: 7, count: 2 },
    }
}

fn monitor_stats() -> MonitorStats {
    MonitorStats {
        avg_active_workers: Average { sum: 15, count: 10 },
        avg_cpu_pct: 12.5f64.to_bits(),
        sample_count: 10,
        csv_path: "samples.csv".to_string(),
    }
}

#[test]
fn report_without_completions() {
    let fraction = Fraction { numerator: 1, scale: 1 };
    let doc = summary(vec![]).report(2, queue_stats(), "Idle", &monitor_stats(), fraction, 5);
    assert_eq!(render(&doc), "[Idle] No tasks completed.\n");
}

#[test]
fn full_report() {
    let s = summary(vec![
        done(0, TaskKind::Cpu, 10, 5),
        done(1, TaskKind::Io, 41, 5),
        done(2, TaskKind::Io, 20, 5),
    ]);
    let fraction = Fraction { numerator: 5_404_319_552_844_595, scale: 54 };
    let doc = s.report(2, queue_stats(), "Demo", &monitor_stats(), fraction, 3);
    let expected = "== Demo ==\n\
        3 tasks, 70% IO / 30% CPU, 2 workers\n\
        \n\
        — results —\n\
        total runtime        : 100 ms\n\
        makespan             : 100 ms\n\
        tasks completed      : 3  (IO=2, CPU=1)\n\
        avg wait time        : 23.67 ms\n\
        avg wait (IO only)   : 30.50 ms\n\
        avg wait (CPU only)  : 10.00 ms\n\
        avg turnaround time  : 28.67 ms\n\
        max wait time        : 41 ms  (task #1)\n\
        avg CPU usage        : 12.50 %\n\
        avg workers active   : 1.50 / 2\n\
        worker utilization   : 50.0 %\n\
        monitor samples      : 10\n\
        monitor csv          : samples.csv\n\
        \n\
        — queue statistics —\n\
        CPU queue  max / avg : 3 / 1.50\n\
        IO  queue  max / avg : 7 / 3.50\n\
        fairness gap         : 20.50 ms  (|avg_wait_CPU - avg_wait_IO|)\n\
        \n\
        — per-worker busy time —\n";
    let workers = "  worker  0          :    70.00 ms ( 70.0%)\n  worker  1          :    30.00 ms ( 30.0%)\n";
    assert_eq!(render(&doc), format!("{}{}", expected, workers));
}

#[test]
fn empty_denominators_show_as_zero() {
    let fraction = Fraction { numerator: 1, scale: 1 };
    let none = Average { sum: 0, count: 0 };
    let stats =
        QueueStats { cpu_max_len: 0, io_max_len: 0, cpu_avg_len: none, io_avg_len: none };
    let idle = Monitor::new(None).into_stats(1.5f64.to_bits(), "x.csv".to_string());
    let mut s = summary(vec![done(0, TaskKind::Cpu, 10, 5)]);

    let text = render(&s.report(0, stats, "Demo", &idle, fraction, 1));
    assert!(text.contains("avg CPU usage        : 0.00 %\n"));
    assert!(text.contains("avg workers active   : 0.00 / 0\n"));
    assert!(text.contains("worker utilization   : 0.0 %\n"));
    assert!(text.contains("CPU queue  max / avg : 0 / 0.00\n"));
    assert!(text.contains("IO  queue  max / avg : 0 / 0.00\n"));
    assert!(text.ends_with(" 30.00 ms ( 30.0%)\n"));

    s.makespan = Duration::zero();
    let text = render(&s.report(2, stats, "Demo", &idle, fraction, 1));
    assert!(text.contains("worker utilization   : 0.0 %\n"));
    assert!(text.ends_with(
        "  worker  0          :    70.00 ms (  0.0%)\n  worker  1          :    30.00 ms (  0.0%)\n"
    ));
    assert!(!text.contains("NaN") && !text.contains("inf"));

    let sample = Monitor::new(None).sample(3, None);
    assert_eq!(render(&sample.csv_row()), "0,3,0.00");
}

#[test]
fn busy_time_covers_the_duration() {
    for kind in [TaskKind::Cpu, TaskKind::Io] {
        let mut task = Task::new(4, kind, ms(0), ms(8), 1);
        task.enqueue_time = Some(ms(20));
        Worker::begin(&mut task, ms(10));
        let c = Worker::new(1).finish(&task, ms(10), ms(18));
        assert_eq!((c.wait, c.busy, c.turnaround), (ms(0), ms(8), ms(8)));
        assert!(c.busy.nanos >= task.duration.nanos);
    }
}

#[test]
fn numbers_parse_like_unsigned_integers() {
    let words = [
        "", "+", "-1", "0", "007", "12", "+12", "++1", "1+", "1a", "a", "18446744073709551615",
        "18446744073709551616", "99999999999999999999x", "٣", "1.5",
    ];
    for word in words {
        let chars: Vec<char> = word.chars().collect();
        assert_eq!(parse_number(&chars), word.parse::<u64>().ok(), "{}", word);
    }
}

#[test]
fn counters_parse_like_split_whitespace() {
    let texts = [
        "",
        "\n",
        "cpu",
        "cpu  1 2 3 4 5 6\ncpu0 9 9 9 9\n",
        "  cpu\t1 2\u{3000}3 +4\r\nrest",
        "cpu 1 2 3\n4 5 6",
        "cpu 1\u{85}2\u{a0}3\u{2003}4\u{202f}5 18446744073709551615 7",
        "cpu 1 2 x 3 4\n",
        "cpu 1 2 3 4 18446744073709551616",
        "cpu 1 2 3 -4",
        "x 1 2 3 4\ny",
    ];
    for text in texts {
        let expected: Option<Vec<u64>> = text
            .lines()
            .next()
            .unwrap_or("")
            .split_whitespace()
            .skip(1)
            .map(|s| s.parse().ok())
            .collect();
        assert_eq!(parse_counters(text), expected, "{:?}", text);
    }
    assert_eq!(parse_counters("cpu  1 2 3 4 5 6\ncpu0 9"), Some(vec![1, 2, 3, 4, 5, 6]));
    assert_eq!(parse_counters("cpu 1 2 x 3 4\n"), None);
}

#[test]
fn ticks_from_text() {
    let ticks = |idle: u64, total: u64| Some(CpuTicks { idle, total });
    assert_eq!(ticks_in("cpu  1 2 3 4 5 6\ncpu0 x\n"), ticks(9, 21));
    assert_eq!(ticks_in("cpu 1 2 3 4"), ticks(4, 10));
    assert_eq!(ticks_in("cpu 1 2 x 3 4\n"), None);
    assert_eq!(ticks_in("cpu 1 2 3 4 x"), None);
    assert_eq!(ticks_in("cpu 1 2 3 4 18446744073709551616"), None);
    assert_eq!(ticks_in("cpu 1 2 3\n4"), None);
    assert_eq!(ticks_in(""), None);
}

#[test]
fn totals_of_texts_can_overflow() {
    assert!(ticks_fit("cpu 18446744073709551615 0 0 0"));
    assert!(!ticks_fit("cpu 18446744073709551615 0 0 1"));
    assert!(ticks_fit("cpu 18446744073709551615 0 1"));
    assert!(ticks_fit("cpu 18446744073709551615 0 0 1 x"));
}

#[test]
fn ticks_from_counters() {
    assert_eq!(cpu_ticks(&vec![1, 2, 3]), None);
    assert_eq!(cpu_ticks(&vec![1, 2, 3, 4]), Some(CpuTicks { idle: 4, total: 10 }));
    assert_eq!(cpu_ticks(&vec![1, 2, 3, 4, 5, 6]), Some(CpuTicks { idle: 9, total: 21 }));
    assert_eq!(checked_total(&vec![u64::MAX, 1]), None);
    assert_eq!(checked_total(&vec![u64::MAX]), Some(u64::MAX));
    assert_eq!(checked_total(&vec![]), Some(0));
}

#[test]
fn usage_between_readings() {
    let t = |idle: u64, total: u64| Some(CpuTicks { idle, total });
    assert_eq!(cpu_delta(t(10, 100), t(15, 120)), CpuUsage { busy: 15, total: 20 });
    assert_eq!(cpu_delta(t(10, 100), t(90, 120)), CpuUsage { busy: 0, total: 20 });
    assert_eq!(cpu_delta(t(10, 100), t(5, 100)), CpuUsage { busy: 0, total: 0 });
    assert_eq!(cpu_delta(t(10, 100), t(5, 90)), CpuUsage { busy: 0, total: 0 });
    assert_eq!(cpu_delta(None, t(5, 90)), CpuUsage { busy: 0, total: 0 });
    assert_eq!(cpu_delta(t(5, 90), None), CpuUsage { busy: 0, total: 0 });
}

#[test]
fn monitor_samples() {
    assert_eq!(csv_header(), "elapsed_ms,active_workers,cpu_pct");
    let mut m = Monitor::new(Some(CpuTicks { idle: 0, total: 0 }));
    let a = m.sample(3, Some(CpuTicks { idle: 1, total: 4 }));
    let b = m.sample(5, Some(CpuTicks { idle: 1, total: 6 }));
    assert_eq!((a.elapsed_ms, a.active), (0, 3));
    assert_eq!(a.usage, CpuUsage { busy: 3, total: 4 });
    assert_eq!((b.elapsed_ms, b.active), (10, 5));
    assert_eq!(b.usage, CpuUsage { busy: 2, total: 2 });
    assert_eq!(render(&a.csv_row()), "0,3,75.00");
    assert_eq!(render(&b.csv_row()), "10,5,100.00");
    let stats = m.into_stats(7, "x.csv".to_string());
    assert_eq!(stats.avg_active_workers, Average { sum: 8, count: 2 });
    assert_eq!(stats.avg_cpu_pct, 7);
    assert_eq!(stats.sample_count, 2);
    assert_eq!(stats.csv_path, "x.csv");
}

#[test]
fn text_search() {
    assert!(contains("FIFO simulation", "FIFO"));
    assert!(contains("a FIFO", "FIFO"));
    assert!(!contains("FIF O", "FIFO"));
    assert!(!contains("FIF", "FIFO"));
    assert!(contains("", ""));
    assert!(same("fifo", "fifo"));
    assert!(!same("fifo", "fif"));
    assert!(!same("fifo", "fifa"));
}

#[test]
fn experiments_are_selected_by_name() {
    let select = |fifo: bool, optimized: bool, unknown: bool| Selection { fifo, optimized, unknown };
    assert_eq!(select_experiments(None), select(true, true, false));
    assert_eq!(select_experiments(Some("all")), select(true, true, false));
    assert_eq!(select_experiments(Some("fifo")), select(true, false, false));
    assert_eq!(select_experiments(Some("optimized")), select(false, true, false));
    assert_eq!(select_experiments(Some("FIFO")), select(false, false, true));
}

#[test]
fn experiments_differ_in_policy_only() {
    let (a, b) = (experiment_fifo(), experiment_optimized());
    assert_eq!(a.workload.seed, b.workload.seed);
    assert_eq!(a.workload.total_tasks, 1000);
    assert_eq!((a.policy.cpu_weight, a.policy.io_weight), (1, 1));
    assert_eq!((b.policy.cpu_weight, b.policy.io_weight), (1, 2));
    assert_eq!(a.policy.aging_threshold_ms, 9_999_999);
    assert_eq!(b.policy.aging_threshold_ms, 200);
    assert_eq!((a.num_workers, b.num_workers), (8, 8));
    assert_eq!(a.monitor_csv, "monitor_fifo.csv");
    assert_eq!(b.output_file, "optimized_output.txt");
}

#[test]
fn tasks_wait_until_due() {
    assert_eq!(delay_until_due(ms(9), ms(4)), Some(ms(5)));
    assert_eq!(delay_until_due(ms(4), ms(4)), None);
    assert_eq!(delay_until_due(ms(4), ms(9)), None);
}

#[test]
fn announcements() {
    assert_eq!(
        render(&announcement(&experiment_optimized())),
        "\n>>> Running Optimized simulation\n    tasks: 1000\n    workers: 8\n    cpu_fraction: 30% CPU / 70% IO\n    policy: io_reserved=0, cpu_weight=1, io_weight=2, aging=200ms\n"
    );
}

#[test]
fn interpretations() {
    let s = summary(vec![done(0, TaskKind::Cpu, 10, 5), done(1, TaskKind::Io, 41, 5)]);
    let fifo = render(&interpretation(&experiment_fifo(), &s));
    assert!(fifo.starts_with("\nInterpretation:\n  With equal-weight dispatch, long CPU tasks"));
    assert!(fifo.ends_with("Avg wait across all tasks was 25.5 ms.\n"));
    let other = render(&interpretation(&experiment_optimized(), &summary(vec![])));
    assert!(other.starts_with("\nInterpretation:\n  Dispatching IO tasks at 3× the CPU rate"));
    assert!(other.contains("reduce avg wait to 0.0 ms\n  and shorten makespan"));
}

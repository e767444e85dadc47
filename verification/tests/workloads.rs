use rand::Rng;
use rand_chacha::ChaCha8Rng;
use rand_core::SeedableRng;
use task_dispatcher::experiment::{experiment_fifo, experiment_optimized};
use task_dispatcher::task::TaskKind;
use task_dispatcher::time::Duration;
use task_dispatcher::workload::{
    build_workload, draw_kind, draw_priority, draw_workload, generate_workload, is_below, Fraction,
    TaskDraw, WorkloadConfig,
};

const THREE_TENTHS: Fraction = Fraction { numerator: 5_404_319_552_844_595, scale: 54 };

fn config(burst: bool) -> WorkloadConfig {
    WorkloadConfig {
        name: "test",
        total_tasks: 300,
        cpu_fraction: THREE_TENTHS,
        mean_interarrival_ms: Fraction { numerator: 4, scale: 0 },
        cpu_duration_ms: (300, 500),
        io_duration_ms: (50, 50),
        burst,
        seed: 42,
    }
}

/// The same draws, taken one after the other from a generator with doubles.
fn sequential(cfg: &WorkloadConfig) -> Vec<TaskDraw> {
    let fraction = cfg.cpu_fraction.numerator as f64 / 2f64.powi(cfg.cpu_fraction.scale as i32);
    let mut rng = ChaCha8Rng::seed_from_u64(cfg.seed);
    let mut out = Vec::new();
    for _ in 0..cfg.total_tasks {
        let kind = if rng.gen::<f64>() < fraction { TaskKind::Cpu } else { TaskKind::Io };
        let (lo, hi) = match kind {
            TaskKind::Cpu => cfg.cpu_duration_ms,
            TaskKind::Io => cfg.io_duration_ms,
        };
        let duration_ms = rng.gen_range(lo..hi.max(lo + 1));
        let priority = if rng.gen::<f64>() < 0.1 { 2 } else { 1 };
        let arrival = if cfg.burst {
            None
        } else {
            Some((rng.gen::<f64>() * 9_007_199_254_740_992.0) as u64)
        };
        out.push(TaskDraw { kind, duration_ms, priority, arrival });
    }
    out
}

#[test]
fn fractions_are_exact_doubles() {
    assert_eq!(THREE_TENTHS.numerator as f64 / 2f64.powi(54), 0.30);
    assert_eq!(3_602_879_701_896_397f64 / 2f64.powi(55), 0.1);
}

#[test]
fn draws_match_a_sequential_generator() {
    assert_eq!(draw_workload(&config(true)), sequential(&config(true)));
    assert_eq!(draw_workload(&config(false)), sequential(&config(false)));
}

#[test]
fn draws_of_the_experiments_match_a_sequential_generator() {
    let cfg = experiment_fifo().workload;
    let draws = draw_workload(&cfg);
    assert_eq!(draws.len(), 1000);
    assert_eq!(draws, sequential(&cfg));
    assert_eq!(draws, draw_workload(&experiment_optimized().workload));
    assert!(draws.iter().any(|d| d.kind == TaskKind::Cpu));
    assert!(draws.iter().any(|d| d.kind == TaskKind::Io));
}

#[test]
fn draws_depend_on_the_seed() {
    let mut other = config(true);
    other.seed = 43;
    assert_ne!(draw_workload(&config(true)), draw_workload(&other));
}

#[test]
fn longer_workloads_extend_shorter_ones() {
    let mut shorter = config(false);
    shorter.total_tasks = 100;
    shorter.name = "another name";
    assert_eq!(draw_workload(&config(false))[..100], draw_workload(&shorter)[..]);
    shorter.total_tasks = 0;
    assert_eq!(draw_workload(&shorter), vec![]);
}

#[test]
fn draws_stay_within_bounds() {
    for draw in draw_workload(&config(false)) {
        match draw.kind {
            TaskKind::Cpu => assert!(300 <= draw.duration_ms && draw.duration_ms < 500),
            TaskKind::Io => assert_eq!(draw.duration_ms, 50),
        }
        assert!(draw.priority == 1 || draw.priority == 2);
        assert!(draw.arrival.unwrap() < 1 << 53);
    }
}

#[test]
fn below_agrees_with_doubles() {
    let words = [0, 1, 2047, 2048, 1 << 63, (1 << 63) - 1, u64::MAX, 5_534_023_222_112_865_484];
    let fractions = [
        (0, 0),
        (1, 0),
        (1, 1),
        (3, 2),
        (1, 53),
        (1, 54),
        (1, 64),
        (1, 116),
        (1, 117),
        (u32::MAX as u64, 118),
        (1, 1000),
        (5_404_319_552_844_595, 54),
        (3_602_879_701_896_397, 55),
    ];
    for word in words {
        let unit = (word >> 11) as f64 / 2f64.powi(53);
        for (numerator, scale) in fractions {
            let value = numerator as f64 / 2f64.powi(scale as i32);
            assert_eq!(is_below(word, Fraction { numerator, scale }), unit < value);
        }
    }
    assert!(is_below(u64::MAX, Fraction { numerator: u64::MAX, scale: 0 }));
    assert!(!is_below(u64::MAX, Fraction { numerator: u64::MAX, scale: u32::MAX }));
    assert!(is_below(0, Fraction { numerator: 1, scale: u32::MAX }));
}

#[test]
fn extreme_fractions() {
    let zero = Fraction { numerator: 0, scale: 7 };
    let one = Fraction { numerator: 128, scale: 7 };
    for word in [0, 1 << 40, u64::MAX] {
        assert_eq!(draw_kind(word, zero), TaskKind::Io);
        assert_eq!(draw_kind(word, one), TaskKind::Cpu);
    }
}

#[test]
fn priority_limit() {
    // A tenth of 2^53, rounded up, is 900719925474100.
    assert_eq!(draw_priority(900_719_925_474_099 << 11), 2);
    assert_eq!(draw_priority(900_719_925_474_100 << 11), 1);
    assert_eq!(draw_priority(0), 2);
    assert_eq!(draw_priority(u64::MAX), 1);
}

#[test]
fn bounds_of_empty_ranges() {
    let mut cfg = config(true);
    cfg.cpu_duration_ms = (9, 3);
    assert_eq!(cfg.duration_bounds(TaskKind::Cpu), (9, 10));
    assert_eq!(cfg.duration_bounds(TaskKind::Io), (50, 51));
    cfg.io_duration_ms = (u64::MAX - 1, 0);
    assert_eq!(cfg.duration_bounds(TaskKind::Io), (u64::MAX - 1, u64::MAX));
}

#[test]
fn burst_workload_keeps_drawing_order() {
    let cfg = config(true);
    let draws = draw_workload(&cfg);
    let tasks = generate_workload(&cfg, &Vec::new());
    assert_eq!(tasks.len(), 300);
    for (i, t) in tasks.iter().enumerate() {
        assert_eq!(t.id, i as u64);
        assert_eq!(t.kind, draws[i].kind);
        assert_eq!(t.duration, Duration::from_millis(draws[i].duration_ms));
        assert_eq!(t.priority, draws[i].priority);
        assert_eq!(t.arrival_offset, Duration::zero());
        assert_eq!(t.enqueue_time, None);
        assert_eq!(t.start_time, None);
    }
    assert_eq!(tasks, generate_workload(&cfg, &Vec::new()));
}

#[test]
fn arrivals_order_the_workload() {
    let cfg = config(false);
    let offsets: Vec<Duration> =
        (0..300u64).map(|i| Duration::from_micros((i * 7) % 10)).collect();
    let tasks = generate_workload(&cfg, &offsets);
    assert_eq!(tasks, build_workload(false, &draw_workload(&cfg), &offsets));
    for pair in tasks.windows(2) {
        let key = |i: usize| (pair[i].arrival_offset.nanos, pair[i].id);
        assert!(key(0) < key(1));
    }
    for t in &tasks {
        assert_eq!(t.arrival_offset, offsets[t.id as usize]);
    }
}

#[test]
fn drawable_configurations() {
    let mut cfg = config(true);
    assert!(cfg.is_drawable());
    cfg.cpu_duration_ms = (u64::MAX, 0);
    assert!(!cfg.is_drawable());
    cfg.cpu_fraction = Fraction { numerator: 0, scale: 0 };
    assert!(cfg.is_drawable());
    cfg.io_duration_ms = (u64::MAX, 0);
    assert!(!cfg.is_drawable());
    cfg.cpu_fraction = Fraction { numerator: 1, scale: 0 };
    cfg.cpu_duration_ms = (1, 2);
    assert!(cfg.is_drawable());
    cfg.cpu_fraction = THREE_TENTHS;
    cfg.total_tasks = 0;
    assert!(cfg.is_drawable());
}

#[test]
fn longer_lists_extend_shorter_ones() {
    let offsets: Vec<Duration> = (0..300u64).map(|i| Duration::from_micros(i / 3)).collect();
    for burst in [false, true] {
        let mut shorter = config(burst);
        shorter.total_tasks = 120;
        let few = generate_workload(&shorter, &offsets[..120].to_vec());
        let many = generate_workload(&config(burst), &offsets);
        assert_eq!(few.len(), 120);
        assert_eq!(many[..120], few[..]);
    }
}

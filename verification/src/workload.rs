//! Reproducible workloads: a seed and a shape determine the whole task list.
use crate::sorting::stable_sort;
use crate::task::{Task, TaskKind};
use crate::time::Duration;
use rand::Rng;
use rand_chacha::ChaCha8Rng;
use rand_core::{RngCore, SeedableRng};
use vstd::arithmetic::power2::*;
use vstd::prelude::*;

verus! {

/// The number `numerator / 2^scale`. Every `f64` from 0 up to 2^64 is exactly
/// one of these.
#[derive(Debug, Clone, Copy, PartialEq, Eq, Structural)]
pub struct Fraction {
    pub numerator: u64,
    pub scale: u32,
}

/// How a workload is shaped.
#[derive(Debug, Clone, Copy)]
pub struct WorkloadConfig {
    pub name: &'static str,
    pub total_tasks: u64,
    /// Fraction of tasks that are CPU-bound. The rest are IO.
    pub cpu_fraction: Fraction,
    /// Average gap between arrivals, in milliseconds.
    pub mean_interarrival_ms: Fraction,
    /// CPU task durations in milliseconds (inclusive low, exclusive high).
    pub cpu_duration_ms: (u64, u64),
    /// IO task durations in milliseconds (inclusive low, exclusive high).
    pub io_duration_ms: (u64, u64),
    /// Whether all tasks arrive at the very start.
    pub burst: bool,
    pub seed: u64,
}

/// What chance decides about one task.
#[derive(Debug, Clone, Copy, PartialEq, Eq, Structural)]
pub struct TaskDraw {
    pub kind: TaskKind,
    pub duration_ms: u64,
    pub priority: u8,
    /// A uniform draw from [0, 1) in units of 2^-53, from which the gap before the
    /// task arrives is computed. Burst workloads draw none.
    pub arrival: Option<u64>,
}

/// The word that a ChaCha8 generator seeded with `seed` yields at the stream
/// position `position`, and the position behind it.
pub uninterp spec fn chacha_word(seed: u64, position: u128) -> (u64, u128);

/// The number from `low` up to but excluding `high` that a ChaCha8 generator
/// seeded with `seed` yields at the stream position `position`, and the
/// position behind what was consumed for it.
pub uninterp spec fn chacha_in_range(seed: u64, position: u128, low: u64, high: u64) -> (u64, u128);

/// Calls `ChaCha8Rng::seed_from_u64`, `set_word_pos`, `next_u64` and
/// `get_word_pos`: the 64-bit word at a position of the seed's output stream,
/// with the position that follows. Claims that both are determined by the seed
/// and the position.
#[verifier::external_body]
fn word_at(seed: u64, position: u128) -> (drawn: (u64, u128))
    ensures
        drawn == chacha_word(seed, position),
{
    let mut rng = ChaCha8Rng::seed_from_u64(seed);
    rng.set_word_pos(position);
    let word: u64 = rng.next_u64();
    (word, rng.get_word_pos())
}

/// Calls `Rng::gen_range` on a ChaCha8 generator at a position of the seed's
/// output stream (`seed_from_u64`, `set_word_pos`, `get_word_pos`). Claims that
/// the number lies in the range, and that it and the position that follows are
/// determined by the seed, the position and the range.
#[verifier::external_body]
fn in_range_at(seed: u64, position: u128, low: u64, high: u64) -> (drawn: (u64, u128))
    requires
        low < high,
    ensures
        drawn == chacha_in_range(seed, position, low, high),
        low <= drawn.0 < high,
{
    let mut rng = ChaCha8Rng::seed_from_u64(seed);
    rng.set_word_pos(position);
    let number: u64 = rng.gen_range(low..high);
    (number, rng.get_word_pos())
}

/// A random word read as a number in [0, 1): its upper 53 bits, in units of
/// 2^-53.
pub open spec fn unit_draw(word: u64) -> nat {
    (word / 2048) as nat
}

/// Whether the number in [0, 1) that `word` stands for is less than `fraction`:
/// `unit_draw(word) / 2^53 < numerator / 2^scale`.
pub open spec fn falls_below(word: u64, fraction: Fraction) -> bool {
    unit_draw(word) * pow2(fraction.scale as nat) < fraction.numerator * pow2(53)
}

fn pow2_u64(exponent: u32) -> (p: u64)
    requires
        exponent < 64,
    ensures
        p == pow2(exponent as nat),
{
    proof {
        lemma2_to64();
        lemma2_to64_rest();
    }
    let mut p: u64 = 1;
    for i in 0..exponent
        invariant
            exponent < 64,
            p == pow2(i as nat),
            pow2(64) == 0x1_0000_0000_0000_0000,
    {
        proof {
            lemma_pow2_adds(i as nat, 1);
            lemma2_to64();
            if i + 1 < 64 {
                lemma_pow2_strictly_increases((i + 1) as nat, 64);
            }
        }
        p = p * 2;
    }
    p
}

/// The comparison of [`falls_below`].
pub fn is_below(word: u64, fraction: Fraction) -> (below: bool)
    ensures
        below == falls_below(word, fraction),
{
    let n: u64 = word / 2048;
    let num: u64 = fraction.numerator;
    let scale: u32 = fraction.scale;
    proof {
        lemma2_to64_rest();
        lemma_pow2_pos(scale as nat);
    }
    if scale <= 53 {
        let rest: u64 = pow2_u64(53 - scale);
        let ghost a: nat = pow2(scale as nat);
        proof {
            lemma_pow2_adds(scale as nat, (53 - scale) as nat);
            if scale > 0 {
                lemma_pow2_strictly_increases((53 - scale) as nat, 53);
            }
            assert(num * rest <= 0xffff_ffff_ffff_ffff * 0x20_0000_0000_0000) by (nonlinear_arith)
                requires
                    num <= 0xffff_ffff_ffff_ffff,
                    rest <= 0x20_0000_0000_0000,
            ;
            assert(n * a < num * (a * rest) <==> n < num * rest) by (nonlinear_arith)
                requires
                    a > 0,
            ;
        }
        (n as u128) < (num as u128) * (rest as u128)
    } else if scale < 117 {
        let excess: u64 = pow2_u64(scale - 53);
        proof {
            lemma_pow2_adds(53, (scale - 53) as nat);
            assert(n * excess <= 0x20_0000_0000_0000 * 0xffff_ffff_ffff_ffff) by (nonlinear_arith)
                requires
                    n <= 0x20_0000_0000_0000,
                    excess <= 0xffff_ffff_ffff_ffff,
            ;
            assert(n * (0x20_0000_0000_0000 * excess) < num * 0x20_0000_0000_0000 <==> n * excess
                < num) by (nonlinear_arith);
        }
        (n as u128) * (excess as u128) < (num as u128)
    } else {
        proof {
            if n > 0 {
                let b: nat = pow2((scale - 53) as nat);
                lemma_pow2_adds(53, (scale - 53) as nat);
                if scale > 117 {
                    lemma_pow2_strictly_increases(64, (scale - 53) as nat);
                }
                assert(n * (0x20_0000_0000_0000 * b) >= num * 0x20_0000_0000_0000)
                    by (nonlinear_arith)
                    requires
                        n >= 1,
                        b >= 0x1_0000_0000_0000_0000,
                        num < 0x1_0000_0000_0000_0000,
                ;
            } else {
                assert(n * pow2(scale as nat) == 0) by (nonlinear_arith)
                    requires
                        n == 0,
                ;
            }
        }
        n == 0 && num > 0
    }
}

/// Where a word falls below the fraction, every smaller word does too.
proof fn lemma_falls_below_monotonic(small: u64, great: u64, fraction: Fraction)
    requires
        small <= great,
    ensures
        falls_below(great, fraction) ==> falls_below(small, fraction),
{
    let unit = pow2(fraction.scale as nat);
    assert(unit_draw(small) * unit <= unit_draw(great) * unit) by (nonlinear_arith)
        requires
            unit_draw(small) <= unit_draw(great),
            unit >= 0,
    ;
}

/// The share of tasks with high priority: the double nearest to one tenth.
pub open spec fn high_priority_share() -> Fraction {
    Fraction { numerator: 3_602_879_701_896_397, scale: 55 }
}

pub open spec fn kind_for(word: u64, cpu_fraction: Fraction) -> TaskKind {
    if falls_below(word, cpu_fraction) {
        TaskKind::Cpu
    } else {
        TaskKind::Io
    }
}

pub open spec fn priority_for(word: u64) -> u8 {
    if falls_below(word, high_priority_share()) {
        2
    } else {
        1
    }
}

/// The kind of a task, from the word drawn for it.
pub fn draw_kind(word: u64, cpu_fraction: Fraction) -> (kind: TaskKind)
    ensures
        kind == kind_for(word, cpu_fraction),
{
    if is_below(word, cpu_fraction) {
        TaskKind::Cpu
    } else {
        TaskKind::Io
    }
}

/// The priority of a task, from the word drawn for it: most tasks are normal
/// (1), a tenth of them high (2).
pub fn draw_priority(word: u64) -> (priority: u8)
    ensures
        priority == priority_for(word),
{
    if is_below(word, Fraction { numerator: 3_602_879_701_896_397, scale: 55 }) {
        2
    } else {
        1
    }
}

impl WorkloadConfig {
    pub open spec fn shortest_ms(&self, kind: TaskKind) -> u64 {
        match kind {
            TaskKind::Cpu => self.cpu_duration_ms.0,
            TaskKind::Io => self.io_duration_ms.0,
        }
    }

    /// The exclusive upper bound of a kind's durations. A range that would be
    /// empty holds its lower bound alone.
    pub open spec fn beyond_longest_ms(&self, kind: TaskKind) -> int {
        let (low, high) = match kind {
            TaskKind::Cpu => self.cpu_duration_ms,
            TaskKind::Io => self.io_duration_ms,
        };
        if high > low {
            high as int
        } else {
            low + 1
        }
    }

    /// Whether some draw makes a task of this kind.
    pub open spec fn can_draw(&self, kind: TaskKind) -> bool {
        self.total_tasks > 0 && exists|word: u64| #[trigger] kind_for(word, self.cpu_fraction) == kind
    }

    /// Every kind that can be drawn has room for a duration.
    pub open spec fn drawable(&self) -> bool {
        forall|kind: TaskKind| #[trigger] self.can_draw(kind) ==> self.shortest_ms(kind) < u64::MAX
    }

    /// Whether every kind that can be drawn has room for a duration.
    pub fn is_drawable(&self) -> (ok: bool)
        ensures
            ok == self.drawable(),
    {
        // The least word makes a CPU task if any does, the greatest an IO task.
        let some_cpu: bool = self.total_tasks > 0 && is_below(0, self.cpu_fraction);
        let some_io: bool = self.total_tasks > 0 && !is_below(u64::MAX, self.cpu_fraction);
        proof {
            assert forall|word: u64| true implies {
                &&& (#[trigger] kind_for(word, self.cpu_fraction) == TaskKind::Cpu ==> falls_below(
                    0,
                    self.cpu_fraction,
                ))
                &&& (kind_for(word, self.cpu_fraction) == TaskKind::Io ==> !falls_below(
                    u64::MAX,
                    self.cpu_fraction,
                ))
            } by {
                lemma_falls_below_monotonic(0, word, self.cpu_fraction);
                lemma_falls_below_monotonic(word, u64::MAX, self.cpu_fraction);
            }
            assert(kind_for(0, self.cpu_fraction) == TaskKind::Cpu <==> falls_below(
                0,
                self.cpu_fraction,
            ));
            assert(kind_for(u64::MAX, self.cpu_fraction) == TaskKind::Io <==> !falls_below(
                u64::MAX,
                self.cpu_fraction,
            ));
            assert(self.can_draw(TaskKind::Cpu) == some_cpu);
            assert(self.can_draw(TaskKind::Io) == some_io);
        }
        (!some_cpu || self.cpu_duration_ms.0 < u64::MAX) && (!some_io || self.io_duration_ms.0
            < u64::MAX)
    }

    /// The bounds between which durations of `kind` are drawn.
    pub fn duration_bounds(&self, kind: TaskKind) -> (bounds: (u64, u64))
        requires
            self.shortest_ms(kind) < u64::MAX,
        ensures
            bounds.0 == self.shortest_ms(kind),
            bounds.1 == self.beyond_longest_ms(kind),
            bounds.0 < bounds.1,
    {
        let (low, high): (u64, u64) = match kind {
            TaskKind::Cpu => self.cpu_duration_ms,
            TaskKind::Io => self.io_duration_ms,
        };
        if high > low + 1 {
            (low, high)
        } else {
            (low, low + 1)
        }
    }
}

/// What is drawn for a task at the stream position `position`, and the position
/// behind it: the kind, a duration within the kind's bounds, the priority and,
/// unless all tasks arrive at once, the arrival gap.
pub open spec fn draw_at(cfg: WorkloadConfig, position: u128) -> (TaskDraw, u128) {
    let (kind_word, after_kind) = chacha_word(cfg.seed, position);
    let kind = kind_for(kind_word, cfg.cpu_fraction);
    let (duration_ms, after_duration) = chacha_in_range(
        cfg.seed,
        after_kind,
        cfg.shortest_ms(kind),
        cfg.beyond_longest_ms(kind) as u64,
    );
    let (priority_word, after_priority) = chacha_word(cfg.seed, after_duration);
    let priority = priority_for(priority_word);
    if cfg.burst {
        (TaskDraw { kind, duration_ms, priority, arrival: None }, after_priority)
    } else {
        let (gap_word, after_gap) = chacha_word(cfg.seed, after_priority);
        (
            TaskDraw { kind, duration_ms, priority, arrival: Some(unit_draw(gap_word) as u64) },
            after_gap,
        )
    }
}

/// The draws for the first `n` tasks, one behind the other from the start of
/// the stream, and the position behind them.
pub open spec fn first_draws(cfg: WorkloadConfig, n: nat) -> (Seq<TaskDraw>, u128)
    decreases n,
{
    if n == 0 {
        (Seq::empty(), 0)
    } else {
        let (earlier, position) = first_draws(cfg, (n - 1) as nat);
        let (draw, after) = draw_at(cfg, position);
        (earlier.push(draw), after)
    }
}

/// A draw within the bounds that the configuration sets.
pub open spec fn within_bounds(cfg: WorkloadConfig, draw: TaskDraw) -> bool {
    &&& cfg.shortest_ms(draw.kind) <= draw.duration_ms < cfg.beyond_longest_ms(draw.kind)
    &&& draw.priority == 1 || draw.priority == 2
    &&& draw.arrival is None <==> cfg.burst
    &&& draw.arrival matches Some(gap) ==> gap < 0x20_0000_0000_0000
}

fn draw_task(cfg: &WorkloadConfig, position: u128) -> (drawn: (TaskDraw, u128))
    requires
        cfg.total_tasks > 0,
        cfg.drawable(),
    ensures
        drawn == draw_at(*cfg, position),
        within_bounds(*cfg, drawn.0),
{
    let (kind_word, after_kind): (u64, u128) = word_at(cfg.seed, position);
    let kind: TaskKind = draw_kind(kind_word, cfg.cpu_fraction);
    assert(cfg.can_draw(kind));
    let (low, high): (u64, u64) = cfg.duration_bounds(kind);
    let (duration_ms, after_duration): (u64, u128) = in_range_at(cfg.seed, after_kind, low, high);
    let (priority_word, after_priority): (u64, u128) = word_at(cfg.seed, after_duration);
    let priority: u8 = draw_priority(priority_word);
    if cfg.burst {
        (TaskDraw { kind, duration_ms, priority, arrival: None }, after_priority)
    } else {
        let (gap_word, after_gap): (u64, u128) = word_at(cfg.seed, after_priority);
        (TaskDraw { kind, duration_ms, priority, arrival: Some(gap_word / 2048) }, after_gap)
    }
}

/// Everything that chance decides about a workload. The same configuration
/// gives the same draws every time.
pub fn draw_workload(cfg: &WorkloadConfig) -> (draws: Vec<TaskDraw>)
    requires
        cfg.drawable(),
    ensures
        draws@ == first_draws(*cfg, cfg.total_tasks as nat).0,
        draws@.len() == cfg.total_tasks,
        forall|i: int| 0 <= i < draws@.len() ==> within_bounds(*cfg, #[trigger] draws@[i]),
{
    let mut draws: Vec<TaskDraw> = Vec::new();
    let mut position: u128 = 0;
    for id in 0..cfg.total_tasks
        invariant
            cfg.drawable(),
            draws@ == first_draws(*cfg, id as nat).0,
            position == first_draws(*cfg, id as nat).1,
            draws@.len() == id,
            forall|i: int| 0 <= i < draws@.len() ==> within_bounds(*cfg, #[trigger] draws@[i]),
    {
        let (draw, after): (TaskDraw, u128) = draw_task(cfg, position);
        draws.push(draw);
        position = after;
    }
    draws
}

/// The `i`-th task of a workload, before sorting.
pub open spec fn task_from(draw: TaskDraw, i: int, arrival_offset: Duration) -> Task {
    Task {
        id: i as u64,
        kind: draw.kind,
        arrival_offset,
        duration: Duration { nanos: (draw.duration_ms * 1_000_000) as u128 },
        priority: draw.priority,
        enqueue_time: None,
        start_time: None,
    }
}

/// The tasks of a workload in the order in which they were drawn.
pub open spec fn tasks_from(
    burst: bool,
    draws: Seq<TaskDraw>,
    offsets: Seq<Duration>,
) -> Seq<Task> {
    Seq::new(
        draws.len(),
        |i: int|
            task_from(
                draws[i],
                i,
                if burst {
                    Duration { nanos: 0 }
                } else {
                    offsets[i]
                },
            ),
    )
}

/// The task list for given draws, in the order in which the tasks are due. In a
/// burst all tasks are due at the start; otherwise `offsets` says when each is.
pub fn build_workload(burst: bool, draws: &Vec<TaskDraw>, offsets: &Vec<Duration>) -> (tasks: Vec<
    Task,
>)
    requires
        !burst ==> offsets@.len() == draws@.len(),
    ensures
        tasks@ == crate::sorting::stable_order(tasks_from(burst, draws@, offsets@)),
        crate::sorting::stably_sorted(tasks_from(burst, draws@, offsets@), tasks@),
        tasks@.len() == draws@.len(),
        forall|i: int|
            0 <= i < tasks@.len() ==> {
                let task = #[trigger] tasks@[i];
                &&& task.id < draws@.len()
                &&& task.kind == draws@[task.id as int].kind
                &&& task.priority == draws@[task.id as int].priority
                &&& task.duration.nanos == draws@[task.id as int].duration_ms * 1_000_000
                &&& task.arrival_offset.nanos == if burst {
                    0
                } else {
                    offsets@[task.id as int].nanos
                }
                &&& task.enqueue_time is None
                &&& task.start_time is None
            },
        forall|i: int, j: int|
            0 <= i < j < tasks@.len() ==> {
                ||| (#[trigger] tasks@[i]).arrival_offset.nanos < (
                #[trigger] tasks@[j]).arrival_offset.nanos
                ||| tasks@[i].arrival_offset.nanos == tasks@[j].arrival_offset.nanos && tasks@[i].id
                    < tasks@[j].id
            },
{
    let mut tasks: Vec<Task> = Vec::new();
    for i in 0..draws.len()
        invariant
            !burst ==> offsets@.len() == draws@.len(),
            tasks@ == tasks_from(burst, draws@, offsets@).take(i as int),
    {
        let draw: TaskDraw = draws[i];
        let arrival_offset: Duration = if burst {
            Duration::zero()
        } else {
            offsets[i]
        };
        tasks.push(
            Task::new(
                i as u64,
                draw.kind,
                arrival_offset,
                Duration::from_millis(draw.duration_ms),
                draw.priority,
            ),
        );
        assert(tasks@ =~= tasks_from(burst, draws@, offsets@).take(i + 1));
    }
    assert(tasks@ =~= tasks_from(burst, draws@, offsets@));
    let sorted: Vec<Task> = stable_sort(&tasks);
    proof {
        crate::workload_laws::law_each_task_has_its_own_draw(burst, draws@, offsets@, sorted@);
    }
    sorted
}

/// The whole task list, drawn up front so that the seed alone decides it.
/// `offsets` holds when each task is due, in the order of drawing; a burst
/// ignores it.
pub fn generate_workload(cfg: &WorkloadConfig, offsets: &Vec<Duration>) -> (tasks: Vec<Task>)
    requires
        cfg.drawable(),
        !cfg.burst ==> offsets@.len() == cfg.total_tasks,
    ensures
        tasks@ == crate::sorting::stable_order(
            tasks_from(cfg.burst, first_draws(*cfg, cfg.total_tasks as nat).0, offsets@),
        ),
        crate::sorting::stably_sorted(
            tasks_from(cfg.burst, first_draws(*cfg, cfg.total_tasks as nat).0, offsets@),
            tasks@,
        ),
        tasks@.len() == cfg.total_tasks,
        forall|i: int|
            0 <= i < tasks@.len() ==> {
                let task = #[trigger] tasks@[i];
                &&& cfg.shortest_ms(task.kind) * 1_000_000 <= task.duration.nanos
                    < cfg.beyond_longest_ms(task.kind) * 1_000_000
                &&& task.priority == 1 || task.priority == 2
            },
        forall|i: int|
            0 <= i < tasks@.len() ==> {
                let task = #[trigger] tasks@[i];
                &&& task.id < cfg.total_tasks
                &&& task.kind == first_draws(*cfg, cfg.total_tasks as nat).0[task.id as int].kind
                &&& task.priority == first_draws(*cfg, cfg.total_tasks as nat).0[task.id as int].priority
                &&& task.duration.nanos == first_draws(*cfg, cfg.total_tasks as nat).0[task.id as int].duration_ms * 1_000_000
                &&& task.arrival_offset.nanos == if cfg.burst {
                    0
                } else {
                    offsets@[task.id as int].nanos
                }
                &&& task.enqueue_time is None
                &&& task.start_time is None
            },
        forall|i: int, j: int|
            0 <= i < j < tasks@.len() ==> {
                ||| (#[trigger] tasks@[i]).arrival_offset.nanos < (
                #[trigger] tasks@[j]).arrival_offset.nanos
                ||| tasks@[i].arrival_offset.nanos == tasks@[j].arrival_offset.nanos && tasks@[i].id
                    < tasks@[j].id
            },
{
    let draws: Vec<TaskDraw> = draw_workload(cfg);
    let tasks: Vec<Task> = build_workload(cfg.burst, &draws, offsets);
    proof {
        let input = tasks_from(cfg.burst, draws@, offsets@);
        assert forall|i: int| 0 <= i < tasks@.len() implies {
            let task = #[trigger] tasks@[i];
            &&& cfg.shortest_ms(task.kind) * 1_000_000 <= task.duration.nanos
                < cfg.beyond_longest_ms(task.kind) * 1_000_000
            &&& task.priority == 1 || task.priority == 2
        } by {
            let j = crate::sorting::lemma_sorted_element_has_source(input, tasks@, i);
            assert(tasks@[i] == task_from(draws@[j], j, input[j].arrival_offset));
            assert(within_bounds(*cfg, draws@[j]));
        }
    }
    tasks
}

} // verus!

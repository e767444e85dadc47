//! What holds of every workload.
use crate::task::{Task, TaskKind};
use crate::time::Duration;
use crate::workload::{Fraction, TaskDraw, WorkloadConfig};
use vstd::arithmetic::power2::*;
use vstd::prelude::*;

verus! {

/// Two configurations that agree on everything that drawing looks at.
pub open spec fn same_shape(a: WorkloadConfig, b: WorkloadConfig) -> bool {
    &&& a.seed == b.seed
    &&& a.cpu_fraction == b.cpu_fraction
    &&& a.cpu_duration_ms == b.cpu_duration_ms
    &&& a.io_duration_ms == b.io_duration_ms
    &&& a.burst == b.burst
}

/// The seed and the shape decide the whole task stream: neither the name nor the
/// arrival rate nor the number of tasks changes what is drawn for a task.
pub proof fn law_seed_decides_draws(a: WorkloadConfig, b: WorkloadConfig, n: nat)
    requires
        same_shape(a, b),
    ensures
        crate::workload::first_draws(a, n) == crate::workload::first_draws(b, n),
    decreases n,
{
    if n > 0 {
        law_seed_decides_draws(a, b, (n - 1) as nat);
    }
}

/// A longer workload starts with the draws of a shorter one.
pub proof fn law_longer_workload_extends_shorter(cfg: WorkloadConfig, n: nat, m: nat)
    requires
        n <= m,
    ensures
        crate::workload::first_draws(cfg, m).0.len() == m,
        crate::workload::first_draws(cfg, m).0.take(n as int) == crate::workload::first_draws(
            cfg,
            n,
        ).0,
    decreases m,
{
    let draws = crate::workload::first_draws(cfg, m).0;
    if n == m {
        if m > 0 {
            law_longer_workload_extends_shorter(cfg, (m - 1) as nat, (m - 1) as nat);
        }
        assert(draws.take(n as int) =~= draws);
    } else {
        law_longer_workload_extends_shorter(cfg, n, (m - 1) as nat);
        assert(draws.take(n as int) =~= crate::workload::first_draws(cfg, (m - 1) as nat).0.take(
            n as int,
        ));
    }
}

/// Within a run of equal keys of the drawn tasks the numbers count up.
proof fn lemma_runs_count_up(input: Seq<Task>, key: int)
    requires
        input.len() <= u64::MAX,
        forall|i: int| 0 <= i < input.len() ==> (#[trigger] input[i]).id == i,
    ensures
        ({
            let run = crate::sorting::with_key(input, key);
            &&& forall|i: int| 0 <= i < run.len() ==> (#[trigger] run[i]).id < input.len()
            &&& forall|i: int, j: int|
                0 <= i < j < run.len() ==> (#[trigger] run[i]).id < (#[trigger] run[j]).id
        }),
    decreases input.len(),
{
    reveal(Seq::filter);
    if input.len() > 0 {
        let front = input.drop_last();
        assert forall|i: int| 0 <= i < front.len() implies (#[trigger] front[i]).id == i by {
            assert(front[i] == input[i]);
        }
        lemma_runs_count_up(front, key);
        assert(input.last() == input[input.len() - 1]);
    }
}

/// Where the numbers count up within a run of equal keys, they do so among the
/// tasks of that key wherever they stand.
proof fn lemma_run_order_is_list_order(tasks: Seq<Task>, key: int, j: int, k: int)
    requires
        0 <= j < k < tasks.len(),
        tasks[j].arrival_offset.nanos == key,
        tasks[k].arrival_offset.nanos == key,
        ({
            let run = crate::sorting::with_key(tasks, key);
            forall|a: int, b: int|
                0 <= a < b < run.len() ==> (#[trigger] run[a]).id < (#[trigger] run[b]).id
        }),
    ensures
        tasks[j].id < tasks[k].id,
    decreases tasks.len(),
{
    reveal(Seq::filter);
    let front = tasks.drop_last();
    let run = crate::sorting::with_key(tasks, key);
    let front_run = crate::sorting::with_key(front, key);
    assert(front[j] == tasks[j]);
    if k == tasks.len() - 1 {
        crate::sorting::lemma_element_is_in_its_run(front, j);
        let a = choose|a: int| 0 <= a < front_run.len() && front_run[a] == front[j];
        assert(run == front_run.push(tasks[k]));
        assert(run[a].id < run[front_run.len() as int].id);
    } else {
        assert(front[k] == tasks[k]);
        assert forall|a: int, b: int| 0 <= a < b < front_run.len() implies (
        #[trigger] front_run[a]).id < (#[trigger] front_run[b]).id by {
            assert(run[a] == front_run[a] && run[b] == front_run[b]);
        }
        lemma_run_order_is_list_order(front, key, j, k);
    }
}

/// Every task has its own draw. The list holds as many tasks as were drawn, and
/// the task with number `i` is of the kind, priority and duration of the `i`-th
/// draw; it is due at the `i`-th offset, or at once in a burst, and has neither
/// been queued nor started. Tasks come in the order in which they are due, and
/// those that are due together in the order of their numbers, so that no number
/// occurs twice.
pub proof fn law_each_task_has_its_own_draw(
    burst: bool,
    draws: Seq<TaskDraw>,
    offsets: Seq<Duration>,
    tasks: Seq<Task>,
)
    requires
        crate::sorting::stably_sorted(crate::workload::tasks_from(burst, draws, offsets), tasks),
        !burst ==> offsets.len() == draws.len(),
        draws.len() <= u64::MAX,
    ensures
        tasks.len() == draws.len(),
        forall|i: int|
            0 <= i < tasks.len() ==> {
                let task = #[trigger] tasks[i];
                &&& task.id < draws.len()
                &&& task.kind == draws[task.id as int].kind
                &&& task.priority == draws[task.id as int].priority
                &&& task.duration.nanos == draws[task.id as int].duration_ms * 1_000_000
                &&& task.arrival_offset.nanos == if burst {
                    0
                } else {
                    offsets[task.id as int].nanos
                }
                &&& task.enqueue_time is None
                &&& task.start_time is None
            },
        forall|i: int, j: int|
            0 <= i < j < tasks.len() ==> {
                ||| (#[trigger] tasks[i]).arrival_offset.nanos < (
                #[trigger] tasks[j]).arrival_offset.nanos
                ||| tasks[i].arrival_offset.nanos == tasks[j].arrival_offset.nanos && tasks[i].id
                    < tasks[j].id
            },
{
    broadcast use vstd::seq_lib::group_to_multiset_ensures;

    let input = crate::workload::tasks_from(burst, draws, offsets);
    crate::sorting::law_stable_sort_is_permutation(input, tasks);
    assert(tasks.to_multiset().len() == input.to_multiset().len());
    assert forall|i: int| 0 <= i < tasks.len() implies {
        let task = #[trigger] tasks[i];
        &&& task.id < draws.len()
        &&& task.kind == draws[task.id as int].kind
        &&& task.priority == draws[task.id as int].priority
        &&& task.duration.nanos == draws[task.id as int].duration_ms * 1_000_000
        &&& task.arrival_offset.nanos == if burst {
            0
        } else {
            offsets[task.id as int].nanos
        }
        &&& task.enqueue_time is None
        &&& task.start_time is None
    } by {
        let j = crate::sorting::lemma_sorted_element_has_source(input, tasks, i);
        assert(tasks[i].id == j);
    }
    assert forall|i: int, j: int| 0 <= i < j < tasks.len() implies {
        ||| (#[trigger] tasks[i]).arrival_offset.nanos < (#[trigger] tasks[j]).arrival_offset.nanos
        ||| tasks[i].arrival_offset.nanos == tasks[j].arrival_offset.nanos && tasks[i].id
            < tasks[j].id
    } by {
        let key = tasks[i].arrival_offset.nanos as int;
        assert(crate::sorting::Keyed::key(&tasks[i]) <= crate::sorting::Keyed::key(&tasks[j]));
        if tasks[j].arrival_offset.nanos == key {
            lemma_runs_count_up(input, key);
            assert(crate::sorting::with_key(tasks, key) == crate::sorting::with_key(input, key));
            lemma_run_order_is_list_order(tasks, key, i, j);
        }
    }
}

/// In a burst all tasks are due at the start, in the order in which they were
/// drawn; their numbers count up from zero.
pub proof fn law_burst_keeps_drawing_order(
    draws: Seq<TaskDraw>,
    offsets: Seq<Duration>,
    tasks: Seq<Task>,
)
    requires
        crate::sorting::stably_sorted(crate::workload::tasks_from(true, draws, offsets), tasks),
        draws.len() <= u64::MAX,
    ensures
        tasks == crate::workload::tasks_from(true, draws, offsets),
        forall|i: int|
            0 <= i < tasks.len() ==> (#[trigger] tasks[i]).id == i && tasks[i].arrival_offset.nanos
                == 0,
{
    let input = crate::workload::tasks_from(true, draws, offsets);
    crate::sorting::law_sorted_input_is_kept(input, tasks);
}

/// Where each task is due no earlier than the one drawn before it, the list is
/// in the order of drawing.
pub proof fn law_steady_arrivals_keep_drawing_order(
    draws: Seq<TaskDraw>,
    offsets: Seq<Duration>,
    tasks: Seq<Task>,
)
    requires
        crate::sorting::stably_sorted(crate::workload::tasks_from(false, draws, offsets), tasks),
        offsets.len() == draws.len(),
        forall|i: int, j: int|
            0 <= i <= j < offsets.len() ==> (#[trigger] offsets[i]).nanos <= (
            #[trigger] offsets[j]).nanos,
    ensures
        tasks == crate::workload::tasks_from(false, draws, offsets),
{
    let input = crate::workload::tasks_from(false, draws, offsets);
    assert forall|i: int, j: int| 0 <= i <= j < input.len() implies crate::sorting::Keyed::key(
        &(#[trigger] input[i]),
    ) <= crate::sorting::Keyed::key(&(#[trigger] input[j])) by {
        assert(offsets[i].nanos <= offsets[j].nanos);
    }
    crate::sorting::law_sorted_input_is_kept(input, tasks);
}

/// Asking for more tasks only extends the task list: its first tasks are, field by
/// field, those of the shorter list. Outside a burst the tasks are to be due in
/// the order of drawing, and at the same times in both lists.
pub proof fn law_longer_list_extends_shorter(
    shorter: WorkloadConfig,
    longer: WorkloadConfig,
    shorter_offsets: Seq<Duration>,
    longer_offsets: Seq<Duration>,
    shorter_tasks: Seq<Task>,
    longer_tasks: Seq<Task>,
)
    requires
        same_shape(shorter, longer),
        shorter.total_tasks <= longer.total_tasks,
        !longer.burst ==> {
            &&& longer_offsets.len() == longer.total_tasks
            &&& shorter_offsets == longer_offsets.take(shorter.total_tasks as int)
            &&& forall|i: int, j: int|
                0 <= i <= j < longer_offsets.len() ==> (#[trigger] longer_offsets[i]).nanos <= (
                #[trigger] longer_offsets[j]).nanos
        },
        crate::sorting::stably_sorted(
            crate::workload::tasks_from(
                shorter.burst,
                crate::workload::first_draws(shorter, shorter.total_tasks as nat).0,
                shorter_offsets,
            ),
            shorter_tasks,
        ),
        crate::sorting::stably_sorted(
            crate::workload::tasks_from(
                longer.burst,
                crate::workload::first_draws(longer, longer.total_tasks as nat).0,
                longer_offsets,
            ),
            longer_tasks,
        ),
    ensures
        longer_tasks.len() == longer.total_tasks,
        longer_tasks.take(shorter.total_tasks as int) == shorter_tasks,
{
    let n = shorter.total_tasks as nat;
    let m = longer.total_tasks as nat;
    let few = crate::workload::first_draws(shorter, n).0;
    let many = crate::workload::first_draws(longer, m).0;
    law_seed_decides_draws(shorter, longer, n);
    law_longer_workload_extends_shorter(longer, n, m);
    assert(few == many.take(n as int));
    if longer.burst {
        law_burst_keeps_drawing_order(few, shorter_offsets, shorter_tasks);
        law_burst_keeps_drawing_order(many, longer_offsets, longer_tasks);
    } else {
        law_steady_arrivals_keep_drawing_order(few, shorter_offsets, shorter_tasks);
        law_steady_arrivals_keep_drawing_order(many, longer_offsets, longer_tasks);
    }
    assert(longer_tasks.take(n as int) =~= shorter_tasks);
}

/// Drawing below a fraction is as likely as the fraction says, to within 2^-53:
/// of the 2^53 equally likely numbers, exactly those below a limit fall below
/// the fraction, and the limit is the fraction of 2^53, rounded up.
pub proof fn law_fraction_is_probability(fraction: Fraction) -> (limit: nat)
    ensures
        forall|word: u64|
            crate::workload::falls_below(word, fraction) <==> (
            #[trigger] crate::workload::unit_draw(word)) < limit,
        limit * pow2(fraction.scale as nat) >= fraction.numerator * pow2(53),
        limit > 0 ==> (limit - 1) * pow2(fraction.scale as nat) < fraction.numerator * pow2(53),
{
    let unit = pow2(fraction.scale as nat);
    let whole = fraction.numerator * pow2(53);
    lemma_pow2_pos(fraction.scale as nat);
    lemma_pow2_pos(53);
    assert(whole >= 0) by (nonlinear_arith)
        requires
            whole == fraction.numerator * pow2(53),
            pow2(53) > 0,
            fraction.numerator >= 0,
    ;
    let limit: int = (whole + unit - 1) / unit as int;
    assert(limit * unit >= whole && (limit - 1) * unit < whole && limit >= 0) by (nonlinear_arith)
        requires
            unit > 0,
            whole >= 0,
            limit == (whole + unit - 1) / unit as int,
    ;
    assert forall|word: u64|
        crate::workload::falls_below(word, fraction) <==> (#[trigger] crate::workload::unit_draw(
            word,
        )) < limit by {
        let n = crate::workload::unit_draw(word) as int;
        if n < limit {
            assert(n * unit <= (limit - 1) * unit) by (nonlinear_arith)
                requires
                    n <= limit - 1,
                    unit > 0,
            ;
        } else {
            assert(n * unit >= limit * unit) by (nonlinear_arith)
                requires
                    n >= limit,
                    unit > 0,
            ;
        }
    }
    limit as nat
}

/// A CPU fraction of zero gives IO tasks only, one of 1 or more CPU tasks only.
pub proof fn law_extreme_fractions_give_one_kind(fraction: Fraction, word: u64)
    ensures
        fraction.numerator == 0 ==> crate::workload::kind_for(word, fraction) == TaskKind::Io,
        fraction.numerator >= pow2(fraction.scale as nat) ==> crate::workload::kind_for(
            word,
            fraction,
        ) == TaskKind::Cpu,
{
    let n = crate::workload::unit_draw(word);
    let unit = pow2(fraction.scale as nat);
    lemma_pow2_pos(fraction.scale as nat);
    lemma2_to64_rest();
    assert(n < pow2(53));
    if fraction.numerator == 0 {
        assert(n * unit >= 0) by (nonlinear_arith)
            requires
                n >= 0,
                unit > 0,
        ;
    }
    if fraction.numerator >= unit {
        assert(n * unit < fraction.numerator * pow2(53)) by (nonlinear_arith)
            requires
                fraction.numerator >= unit,
                unit > 0,
                0 <= n < pow2(53),
        ;
    }
}

/// A word makes a CPU task exactly if it lies below the CPU fraction of 2^64, its
/// lower eleven bits left out of account.
pub proof fn law_cpu_fraction_divides_the_words(word: u64, fraction: Fraction)
    ensures
        crate::workload::kind_for(word, fraction) == TaskKind::Cpu <==> (word - word % 2048) * pow2(
            fraction.scale as nat,
        ) < fraction.numerator * pow2(64),
{
    lemma_pow2_adds(53, 11);
    lemma2_to64();
    let n = (word / 2048) as int;
    let unit = pow2(fraction.scale as nat) as int;
    let p = pow2(53) as int;
    let numerator = fraction.numerator as int;
    assert(word - word % 2048 == n * 2048);
    assert(pow2(64) == p * 2048);
    assert((n * 2048) * unit < numerator * (p * 2048) <==> n * unit < numerator * p)
        by (nonlinear_arith);
}

/// One draw in ten gives high priority (2), the others normal priority (1): of
/// the 2^53 equally likely numbers, those below a tenth of 2^53.
pub proof fn law_one_task_in_ten_has_high_priority(word: u64)
    ensures
        crate::workload::priority_for(word) == if 10 * (word / 2048) < 0x20_0000_0000_0000 {
            2u8
        } else {
            1u8
        },
{
    lemma_pow2_adds(53, 2);
    lemma2_to64();
    lemma2_to64_rest();
    let n = (word / 2048) as int;
    assert(pow2(55) == 4 * 0x20_0000_0000_0000);
    assert(n * (4 * 0x20_0000_0000_0000) < 3_602_879_701_896_397 * 0x20_0000_0000_0000 <==> 10 * n
        < 0x20_0000_0000_0000) by (nonlinear_arith);
}

/// Durations are drawn from the kind's own range, its upper bound excluded. A
/// range that would be empty holds its lower bound alone. A workload can be drawn
/// if no lower bound is the greatest number, and even then if no task of that kind
/// is to be drawn.
pub proof fn law_durations_come_from_the_range_of_the_kind(cfg: WorkloadConfig)
    ensures
        cfg.shortest_ms(TaskKind::Cpu) == cfg.cpu_duration_ms.0,
        cfg.shortest_ms(TaskKind::Io) == cfg.io_duration_ms.0,
        cfg.cpu_duration_ms.0 < cfg.cpu_duration_ms.1 ==> cfg.beyond_longest_ms(TaskKind::Cpu)
            == cfg.cpu_duration_ms.1,
        cfg.cpu_duration_ms.0 >= cfg.cpu_duration_ms.1 ==> cfg.beyond_longest_ms(TaskKind::Cpu)
            == cfg.cpu_duration_ms.0 + 1,
        cfg.io_duration_ms.0 < cfg.io_duration_ms.1 ==> cfg.beyond_longest_ms(TaskKind::Io)
            == cfg.io_duration_ms.1,
        cfg.io_duration_ms.0 >= cfg.io_duration_ms.1 ==> cfg.beyond_longest_ms(TaskKind::Io)
            == cfg.io_duration_ms.0 + 1,
        cfg.cpu_duration_ms.0 < u64::MAX && cfg.io_duration_ms.0 < u64::MAX ==> cfg.drawable(),
        cfg.total_tasks == 0 ==> cfg.drawable(),
        cfg.cpu_fraction.numerator == 0 && cfg.io_duration_ms.0 < u64::MAX ==> cfg.drawable(),
        cfg.cpu_fraction.numerator >= pow2(cfg.cpu_fraction.scale as nat) && cfg.cpu_duration_ms.0
            < u64::MAX ==> cfg.drawable(),
        cfg.drawable() && cfg.total_tasks > 0 && cfg.cpu_duration_ms.0 == u64::MAX
            ==> cfg.cpu_fraction.numerator == 0,
        cfg.drawable() && cfg.total_tasks > 0 && cfg.io_duration_ms.0 == u64::MAX ==> (u64::MAX
            - 2047) * pow2(cfg.cpu_fraction.scale as nat) < cfg.cpu_fraction.numerator * pow2(64),
{
    law_cpu_fraction_divides_the_words(u64::MAX, cfg.cpu_fraction);
    if cfg.total_tasks > 0 && crate::workload::kind_for(u64::MAX, cfg.cpu_fraction)
        == TaskKind::Io {
        assert(cfg.can_draw(TaskKind::Io));
    }
    assert forall|kind: TaskKind| #[trigger] cfg.can_draw(kind) implies {
        &&& cfg.total_tasks > 0
        &&& cfg.cpu_fraction.numerator == 0 ==> kind == TaskKind::Io
        &&& cfg.cpu_fraction.numerator >= pow2(cfg.cpu_fraction.scale as nat) ==> kind
            == TaskKind::Cpu
    } by {
        let word = choose|word: u64| #[trigger]
            crate::workload::kind_for(word, cfg.cpu_fraction) == kind;
        law_extreme_fractions_give_one_kind(cfg.cpu_fraction, word);
    }
    if cfg.total_tasks > 0 && cfg.cpu_fraction.numerator > 0 {
        law_cpu_fraction_divides_the_words(0, cfg.cpu_fraction);
        lemma_pow2_pos(64);
        let unit = pow2(cfg.cpu_fraction.scale as nat);
        assert(0 * unit < cfg.cpu_fraction.numerator * pow2(64)) by (nonlinear_arith)
            requires
                cfg.cpu_fraction.numerator > 0,
                pow2(64) > 0,
        ;
        assert(crate::workload::kind_for(0, cfg.cpu_fraction) == TaskKind::Cpu);
        assert(cfg.can_draw(TaskKind::Cpu));
    }
}

/// The draws follow the seed's stream from its start, without gap or overlap. For
/// each task a word decides the kind, then a number is drawn from the kind's
/// range of durations, then a word decides the priority. Outside a burst one more
/// word gives the arrival; its upper 53 bits count.
pub proof fn law_draws_follow_the_stream(cfg: WorkloadConfig, n: nat, i: int)
    requires
        0 <= i < n,
    ensures
        crate::workload::first_draws(cfg, 0).1 == 0,
        ({
            let draw = crate::workload::first_draws(cfg, n).0[i];
            let position = crate::workload::first_draws(cfg, i as nat).1;
            let next = crate::workload::first_draws(cfg, (i + 1) as nat).1;
            let (kind_word, p1) = crate::workload::chacha_word(cfg.seed, position);
            let (low, high) = if draw.kind == TaskKind::Cpu {
                cfg.cpu_duration_ms
            } else {
                cfg.io_duration_ms
            };
            let (ms, p2) = crate::workload::chacha_in_range(
                cfg.seed,
                p1,
                low,
                if low < high {
                    high
                } else {
                    (low + 1) as u64
                },
            );
            let (priority_word, p3) = crate::workload::chacha_word(cfg.seed, p2);
            let (gap_word, p4) = crate::workload::chacha_word(cfg.seed, p3);
            &&& draw.kind == TaskKind::Cpu <==> (kind_word - kind_word % 2048) * pow2(
                cfg.cpu_fraction.scale as nat,
            ) < cfg.cpu_fraction.numerator * pow2(64)
            &&& draw.duration_ms == ms
            &&& draw.priority == if 10 * (priority_word / 2048) < 0x20_0000_0000_0000 {
                2u8
            } else {
                1u8
            }
            &&& draw.arrival == if cfg.burst {
                None
            } else {
                Some((gap_word / 2048) as u64)
            }
            &&& next == if cfg.burst {
                p3
            } else {
                p4
            }
        }),
{
    law_longer_workload_extends_shorter(cfg, (i + 1) as nat, n);
    law_longer_workload_extends_shorter(cfg, i as nat, (i + 1) as nat);
    let draws = crate::workload::first_draws(cfg, n).0;
    assert(draws[i] == draws.take(i + 1)[i]);
    let position = crate::workload::first_draws(cfg, i as nat).1;
    let kind_word = crate::workload::chacha_word(cfg.seed, position).0;
    law_cpu_fraction_divides_the_words(kind_word, cfg.cpu_fraction);
    law_durations_come_from_the_range_of_the_kind(cfg);
    let p1 = crate::workload::chacha_word(cfg.seed, position).1;
    let kind = crate::workload::kind_for(kind_word, cfg.cpu_fraction);
    let p2 = crate::workload::chacha_in_range(
        cfg.seed,
        p1,
        cfg.shortest_ms(kind),
        cfg.beyond_longest_ms(kind) as u64,
    ).1;
    law_one_task_in_ten_has_high_priority(crate::workload::chacha_word(cfg.seed, p2).0);
}

} // verus!

//! Per-task completion records and what they roll up to.
use crate::sorting::{stable_sort, Keyed};
use crate::task::TaskKind;
use crate::time::{checked_sum, sum, Duration};
use vstd::prelude::*;

verus! {

/// What is recorded about a completed task.
#[derive(Debug, Clone, Copy, PartialEq, Eq, Structural)]
pub struct Completion {
    pub id: u64,
    pub kind: TaskKind,
    pub worker_id: usize,
    /// From queueing to the start on a worker.
    pub wait: Duration,
    /// Wait and execution together.
    pub turnaround: Duration,
    /// How long the worker was busy with the task.
    pub busy: Duration,
}

/// A worker's busy time over a run.
#[derive(Debug, Clone, Copy, PartialEq, Eq, Structural)]
pub struct WorkerBusy {
    pub worker_id: usize,
    pub total_busy: Duration,
}

impl Default for WorkerBusy {
    fn default() -> (busy: WorkerBusy)
        ensures
            busy == (WorkerBusy { worker_id: 0, total_busy: Duration { nanos: 0 } }),
    {
        WorkerBusy { worker_id: 0, total_busy: Duration::zero() }
    }
}

/// Busy times are listed by worker number.
impl Keyed for WorkerBusy {
    open spec fn key(&self) -> int {
        self.worker_id as int
    }

    fn sort_key(&self) -> (k: u128) {
        self.worker_id as u128
    }
}

/// Everything that the report is made from.
pub struct Summary {
    pub completions: Vec<Completion>,
    pub worker_busy: Vec<WorkerBusy>,
    pub makespan: Duration,
}

/// The figures of a run.
#[derive(Debug, Clone, Copy, PartialEq, Eq, Structural)]
pub struct Rollup {
    pub io_completed: usize,
    pub cpu_completed: usize,
    pub avg_wait: Duration,
    pub avg_wait_io: Duration,
    pub avg_wait_cpu: Duration,
    pub avg_turnaround: Duration,
    /// The longest wait, and the task that had it.
    pub max_wait: Duration,
    pub max_wait_task: u64,
    /// How far the mean waits of the two kinds lie apart; smaller is fairer.
    pub fairness_gap: Duration,
    pub total_busy: Duration,
}

pub open spec fn of_kind(done: Seq<Completion>, kind: TaskKind) -> Seq<Completion> {
    done.filter(|c: Completion| c.kind == kind)
}

pub open spec fn waits(done: Seq<Completion>) -> Seq<Duration> {
    done.map_values(|c: Completion| c.wait)
}

pub open spec fn turnarounds(done: Seq<Completion>) -> Seq<Duration> {
    done.map_values(|c: Completion| c.turnaround)
}

pub open spec fn busy_times(workers: Seq<WorkerBusy>) -> Seq<Duration> {
    workers.map_values(|w: WorkerBusy| w.total_busy)
}

/// The divisor of a mean over `len` spans: their number as 32 bits hold it.
pub open spec fn divisor(len: nat) -> nat {
    len % 0x1_0000_0000
}

/// A mean over `len` spans can be formed.
pub open spec fn averageable(len: nat) -> bool {
    len == 0 || divisor(len) != 0
}

/// The mean of `spans` in whole nanoseconds, zero if there are none.
pub open spec fn avg_nanos(spans: Seq<Duration>) -> nat {
    if spans.len() == 0 {
        0
    } else {
        crate::time::total_nanos(spans) / divisor(spans.len())
    }
}

/// The place of the longest wait; of several that are equally long, the last.
pub open spec fn is_last_longest(done: Seq<Completion>, i: int) -> bool {
    &&& 0 <= i < done.len()
    &&& forall|j: int|
        0 <= j < done.len() ==> (#[trigger] done[j]).wait.nanos <= done[i].wait.nanos
    &&& forall|j: int| i < j < done.len() ==> (#[trigger] done[j]).wait.nanos < done[i].wait.nanos
}

pub open spec fn last_longest(done: Seq<Completion>) -> int {
    choose|i: int| is_last_longest(done, i)
}

fn as_divisor(len: usize) -> (d: u32)
    ensures
        d == divisor(len as nat),
{
    let wide: u64 = len as u64;
    assert(wide as u32 == wide % 0x1_0000_0000) by (bit_vector);
    wide as u32
}

/// The mean of `xs`, zero if there are none.
pub fn avg_dur(xs: &[Duration]) -> (avg: Duration)
    requires
        crate::time::total_nanos(xs@) <= crate::time::MAX_NANOS,
        averageable(xs@.len()),
    ensures
        avg.nanos == avg_nanos(xs@),
        avg.nanos <= crate::time::total_nanos(xs@),
{
    if xs.len() == 0 {
        Duration::zero()
    } else {
        let total: Duration = sum(xs);
        let d: u32 = as_divisor(xs.len());
        proof {
            assert(total.nanos as int / d as int <= total.nanos) by (nonlinear_arith)
                requires
                    d > 0,
                    total.nanos >= 0,
            ;
        }
        Duration { nanos: total.nanos / d as u128 }
    }
}

/// The waits of all completions, in order.
pub fn collect_waits(done: &Vec<Completion>) -> (out: Vec<Duration>)
    ensures
        out@ == waits(done@),
{
    let mut out: Vec<Duration> = Vec::new();
    for i in 0..done.len()
        invariant
            out@ == waits(done@.take(i as int)),
    {
        out.push(done[i].wait);
        assert(out@ =~= waits(done@.take(i + 1)));
    }
    assert(done@.take(done@.len() as int) =~= done@);
    out
}

fn collect_turnarounds(done: &Vec<Completion>) -> (out: Vec<Duration>)
    ensures
        out@ == turnarounds(done@),
{
    let mut out: Vec<Duration> = Vec::new();
    for i in 0..done.len()
        invariant
            out@ == turnarounds(done@.take(i as int)),
    {
        out.push(done[i].turnaround);
        assert(out@ =~= turnarounds(done@.take(i + 1)));
    }
    assert(done@.take(done@.len() as int) =~= done@);
    out
}

fn collect_waits_of(done: &Vec<Completion>, kind: TaskKind) -> (out: Vec<Duration>)
    ensures
        out@ == waits(of_kind(done@, kind)),
{
    let mut out: Vec<Duration> = Vec::new();
    proof {
        reveal(Seq::filter);
    }
    assert(out@ =~= waits(of_kind(done@.take(0), kind)));
    for i in 0..done.len()
        invariant
            out@ == waits(of_kind(done@.take(i as int), kind)),
    {
        proof {
            reveal(Seq::filter);
            assert(done@.take(i + 1).drop_last() =~= done@.take(i as int));
        }
        let c: Completion = done[i];
        if c.kind == kind {
            out.push(c.wait);
        }
        assert(out@ =~= waits(of_kind(done@.take(i + 1), kind)));
    }
    assert(done@.take(done@.len() as int) =~= done@);
    out
}

fn collect_busy(workers: &Vec<WorkerBusy>) -> (out: Vec<Duration>)
    ensures
        out@ == busy_times(workers@),
{
    let mut out: Vec<Duration> = Vec::new();
    for i in 0..workers.len()
        invariant
            out@ == busy_times(workers@.take(i as int)),
    {
        out.push(workers[i].total_busy);
        assert(out@ =~= busy_times(workers@.take(i + 1)));
    }
    assert(workers@.take(workers@.len() as int) =~= workers@);
    out
}

/// There is at most one last longest wait.
proof fn lemma_last_longest_unique(done: Seq<Completion>, i: int)
    requires
        is_last_longest(done, i),
    ensures
        last_longest(done) == i,
{
    let j = last_longest(done);
    assert(is_last_longest(done, j));
    if i < j {
        assert(done[j].wait.nanos < done[i].wait.nanos);
    } else if j < i {
        assert(done[i].wait.nanos < done[j].wait.nanos);
    }
}

/// Where the longest wait is recorded, the last place if there are several.
fn find_last_longest(done: &Vec<Completion>) -> (best: usize)
    requires
        done@.len() > 0,
    ensures
        best < done@.len(),
        is_last_longest(done@, best as int),
        best == last_longest(done@),
{
    let mut best: usize = 0;
    for i in 1..done.len()
        invariant
            done@.len() > 0,
            best < i <= done@.len(),
            is_last_longest(done@.take(i as int), best as int),
    {
        let ghost front = done@.take(i as int);
        let ghost longer = done@.take(i + 1);
        assert(forall|j: int| 0 <= j < i ==> front[j] == longer[j] && front[j] == done@[j]);
        assert(longer[i as int] == done@[i as int]);
        if done[i].wait.nanos >= done[best].wait.nanos {
            best = i;
        }
    }
    assert(done@.take(done@.len() as int) =~= done@);
    proof {
        lemma_last_longest_unique(done@, best as int);
    }
    best
}

/// The waits of one kind total at most the waits of all.
proof fn lemma_kind_total(done: Seq<Completion>, kind: TaskKind)
    ensures
        crate::time::total_nanos(waits(of_kind(done, kind))) <= crate::time::total_nanos(
            waits(done),
        ),
        of_kind(done, kind).len() <= done.len(),
    decreases done.len(),
{
    reveal(Seq::filter);
    if done.len() > 0 {
        lemma_kind_total(done.drop_last(), kind);
        assert(waits(done).drop_last() =~= waits(done.drop_last()));
        let front = of_kind(done.drop_last(), kind);
        if done.last().kind == kind {
            assert(waits(front.push(done.last())).drop_last() =~= waits(front));
        }
    }
}

impl Summary {
    /// All totals can be represented and all means can be formed. A run without
    /// completions needs neither.
    pub open spec fn reportable(&self) -> bool {
        self.completions@.len() > 0 ==> {
            &&& crate::time::total_nanos(waits(self.completions@)) <= crate::time::MAX_NANOS
            &&& crate::time::total_nanos(turnarounds(self.completions@)) <= crate::time::MAX_NANOS
            &&& crate::time::total_nanos(busy_times(self.worker_busy@)) <= crate::time::MAX_NANOS
            &&& averageable(self.completions@.len())
            &&& averageable(of_kind(self.completions@, TaskKind::Cpu).len())
            &&& averageable(of_kind(self.completions@, TaskKind::Io).len())
        }
    }

    /// The figures of this run.
    pub open spec fn figures(&self) -> Rollup {
        let done = self.completions@;
        let cpu = avg_nanos(waits(of_kind(done, TaskKind::Cpu)));
        let io = avg_nanos(waits(of_kind(done, TaskKind::Io)));
        Rollup {
            io_completed: of_kind(done, TaskKind::Io).len() as usize,
            cpu_completed: of_kind(done, TaskKind::Cpu).len() as usize,
            avg_wait: Duration { nanos: avg_nanos(waits(done)) as u128 },
            avg_wait_io: Duration { nanos: io as u128 },
            avg_wait_cpu: Duration { nanos: cpu as u128 },
            avg_turnaround: Duration { nanos: avg_nanos(turnarounds(done)) as u128 },
            max_wait: done[last_longest(done)].wait,
            max_wait_task: done[last_longest(done)].id,
            fairness_gap: Duration {
                nanos: (if cpu > io {
                    cpu - io
                } else {
                    io - cpu
                }) as u128,
            },
            total_busy: Duration {
                nanos: crate::time::total_nanos(busy_times(self.worker_busy@)) as u128,
            },
        }
    }

    /// Whether the figures can be computed.
    pub fn is_reportable(&self) -> (ok: bool)
        ensures
            ok == self.reportable(),
    {
        if self.completions.len() == 0 {
            return true;
        }
        let all: Vec<Duration> = collect_waits(&self.completions);
        let turns: Vec<Duration> = collect_turnarounds(&self.completions);
        let cpu: Vec<Duration> = collect_waits_of(&self.completions, TaskKind::Cpu);
        let io: Vec<Duration> = collect_waits_of(&self.completions, TaskKind::Io);
        let busy: Vec<Duration> = collect_busy(&self.worker_busy);
        checked_sum(&all).is_some() && checked_sum(&turns).is_some() && checked_sum(&busy).is_some()
            && as_divisor(self.completions.len()) != 0 && (cpu.len() == 0 || as_divisor(cpu.len())
            != 0) && (io.len() == 0 || as_divisor(io.len()) != 0)
    }

    /// Computes the figures of a run in which something was completed.
    pub fn rollup(&self) -> (figures: Rollup)
        requires
            self.completions@.len() > 0,
            self.reportable(),
        ensures
            figures == self.figures(),
            is_last_longest(self.completions@, last_longest(self.completions@)),
            figures.io_completed == of_kind(self.completions@, TaskKind::Io).len(),
            figures.cpu_completed == of_kind(self.completions@, TaskKind::Cpu).len(),
            figures.avg_wait.nanos == avg_nanos(waits(self.completions@)),
            figures.avg_wait_io.nanos == avg_nanos(waits(of_kind(self.completions@, TaskKind::Io))),
            figures.avg_wait_cpu.nanos == avg_nanos(
                waits(of_kind(self.completions@, TaskKind::Cpu)),
            ),
            figures.avg_turnaround.nanos == avg_nanos(turnarounds(self.completions@)),
            figures.total_busy.nanos == crate::time::total_nanos(busy_times(self.worker_busy@)),
            exists|i: int|
                {
                    &&& 0 <= i < self.completions@.len()
                    &&& (#[trigger] self.completions@[i]).id == figures.max_wait_task
                    &&& self.completions@[i].wait == figures.max_wait
                    &&& forall|j: int|
                        0 <= j < self.completions@.len() ==> (
                        #[trigger] self.completions@[j]).wait.nanos <= figures.max_wait.nanos
                    &&& forall|j: int|
                        i < j < self.completions@.len() ==> (
                        #[trigger] self.completions@[j]).wait.nanos < figures.max_wait.nanos
                },
    {
        let all: Vec<Duration> = collect_waits(&self.completions);
        let turns: Vec<Duration> = collect_turnarounds(&self.completions);
        let cpu: Vec<Duration> = collect_waits_of(&self.completions, TaskKind::Cpu);
        let io: Vec<Duration> = collect_waits_of(&self.completions, TaskKind::Io);
        let busy: Vec<Duration> = collect_busy(&self.worker_busy);
        proof {
            lemma_kind_total(self.completions@, TaskKind::Cpu);
            lemma_kind_total(self.completions@, TaskKind::Io);
        }
        let longest: usize = find_last_longest(&self.completions);
        let avg_wait_cpu: Duration = avg_dur(&cpu);
        let avg_wait_io: Duration = avg_dur(&io);
        let fairness_gap: Duration = if avg_wait_cpu.nanos > avg_wait_io.nanos {
            Duration { nanos: avg_wait_cpu.nanos - avg_wait_io.nanos }
        } else {
            Duration { nanos: avg_wait_io.nanos - avg_wait_cpu.nanos }
        };
        Rollup {
            io_completed: io.len(),
            cpu_completed: cpu.len(),
            avg_wait: avg_dur(&all),
            avg_wait_io,
            avg_wait_cpu,
            avg_turnaround: avg_dur(&turns),
            max_wait: self.completions[longest].wait,
            max_wait_task: self.completions[longest].id,
            fairness_gap,
            total_busy: sum(&busy),
        }
    }

    /// The busy times in the order of the worker numbers.
    pub fn workers_in_order(&self) -> (sorted: Vec<WorkerBusy>)
        ensures
            crate::sorting::stably_sorted(self.worker_busy@, sorted@),
            sorted@ == crate::sorting::stable_order(self.worker_busy@),
            sorted@.len() == self.worker_busy@.len(),
            sorted@.to_multiset() == self.worker_busy@.to_multiset(),
            forall|i: int, j: int|
                0 <= i < j < sorted@.len() ==> (#[trigger] sorted@[i]).worker_id <= (
                #[trigger] sorted@[j]).worker_id,
    {
        let sorted: Vec<WorkerBusy> = stable_sort(&self.worker_busy);
        proof {
            law_workers_are_listed_by_number(self.worker_busy@, sorted@);
        }
        sorted
    }
}

/// Every completion is of one kind or the other, and the waits of the two kinds
/// together are all waits.
pub proof fn law_kinds_partition_completions(done: Seq<Completion>)
    ensures
        of_kind(done, TaskKind::Cpu).len() + of_kind(done, TaskKind::Io).len() == done.len(),
        crate::time::total_nanos(waits(of_kind(done, TaskKind::Cpu))) + crate::time::total_nanos(
            waits(of_kind(done, TaskKind::Io)),
        ) == crate::time::total_nanos(waits(done)),
    decreases done.len(),
{
    reveal(Seq::filter);
    if done.len() > 0 {
        let front = done.drop_last();
        law_kinds_partition_completions(front);
        assert(waits(done).drop_last() =~= waits(front));
        let kind = done.last().kind;
        assert(waits(of_kind(front, kind).push(done.last())).drop_last() =~= waits(
            of_kind(front, kind),
        ));
    }
}

/// Spans of at most `most` nanoseconds total at most that much each.
proof fn lemma_total_bound(spans: Seq<Duration>, most: nat)
    requires
        forall|i: int| 0 <= i < spans.len() ==> (#[trigger] spans[i]).nanos <= most,
    ensures
        crate::time::total_nanos(spans) <= spans.len() * most,
    decreases spans.len(),
{
    if spans.len() > 0 {
        let front = spans.drop_last();
        assert forall|i: int| 0 <= i < front.len() implies (#[trigger] front[i]).nanos <= most by {
            assert(front[i] == spans[i]);
        }
        lemma_total_bound(front, most);
        assert(spans.last() == spans[spans.len() - 1]);
        assert(spans.len() * most == (spans.len() - 1) * most + most) by (nonlinear_arith);
    }
}

/// No mean wait exceeds the longest wait. (Behind 2^32 completions the mean is
/// formed with a divisor that is too small.)
pub proof fn law_mean_wait_at_most_longest(done: Seq<Completion>, i: int)
    requires
        is_last_longest(done, i),
        done.len() < 0x1_0000_0000,
    ensures
        avg_nanos(waits(done)) <= done[i].wait.nanos,
{
    let most = done[i].wait.nanos as nat;
    let total = crate::time::total_nanos(waits(done));
    let n = done.len();
    assert forall|j: int| 0 <= j < waits(done).len() implies (#[trigger] waits(done)[j]).nanos
        <= most by {
        assert(waits(done)[j] == done[j].wait);
    }
    lemma_total_bound(waits(done), most);
    assert(divisor(n) == n);
    assert(total / n <= most) by (nonlinear_arith)
        requires
            total <= n * most,
            n > 0,
    ;
}

/// Workers are listed by their numbers, each of them as often as it was recorded.
pub proof fn law_workers_are_listed_by_number(workers: Seq<WorkerBusy>, sorted: Seq<WorkerBusy>)
    requires
        crate::sorting::stably_sorted(workers, sorted),
    ensures
        sorted.to_multiset() == workers.to_multiset(),
        forall|i: int, j: int|
            0 <= i < j < sorted.len() ==> (#[trigger] sorted[i]).worker_id <= (
            #[trigger] sorted[j]).worker_id,
{
    crate::sorting::law_stable_sort_is_permutation(workers, sorted);
    assert forall|i: int, j: int| 0 <= i < j < sorted.len() implies (
    #[trigger] sorted[i]).worker_id <= (#[trigger] sorted[j]).worker_id by {
        assert(crate::sorting::Keyed::key(&sorted[i]) <= crate::sorting::Keyed::key(&sorted[j]));
    }
}

/// A mean in whole nanoseconds is the total divided by the number of spans, rounded
/// down; over no spans it is zero. The number is taken as 32 bits hold it.
pub proof fn law_mean_divides_the_total(spans: Seq<Duration>)
    ensures
        spans.len() == 0 ==> avg_nanos(spans) == 0,
        0 < spans.len() < 0x1_0000_0000 ==> {
            &&& avg_nanos(spans) * spans.len() <= crate::time::total_nanos(spans)
            &&& crate::time::total_nanos(spans) < (avg_nanos(spans) + 1) * spans.len()
        },
        0 < spans.len() && spans.len() % 0x1_0000_0000 != 0 ==> {
            let n = spans.len() % 0x1_0000_0000;
            &&& avg_nanos(spans) * n <= crate::time::total_nanos(spans)
            &&& crate::time::total_nanos(spans) < (avg_nanos(spans) + 1) * n
        },
        averageable(spans.len()) <==> spans.len() == 0 || spans.len() % 0x1_0000_0000 != 0,
{
    let total = crate::time::total_nanos(spans) as int;
    let n = (spans.len() % 0x1_0000_0000) as int;
    if spans.len() < 0x1_0000_0000 {
        assert(n == spans.len());
    }
    if n > 0 {
        assert((total / n) * n <= total < (total / n + 1) * n) by (nonlinear_arith)
            requires
                n > 0,
        ;
    }
}

/// The figures speak of the completions. Some completion has the number and the wait
/// that are given as the longest: none waited longer, and no later one as long. The
/// counts are those of the completions of each kind, and together they are all. The
/// busy time is that of all workers. The result is the place of the longest wait.
pub proof fn law_figures_describe_the_completions(summary: Summary) -> (longest: int)
    requires
        summary.completions@.len() > 0,
        summary.reportable(),
    ensures
        ({
            let done = summary.completions@;
            let figures = summary.figures();
            &&& 0 <= longest < done.len()
            &&& done[longest].id == figures.max_wait_task
            &&& done[longest].wait == figures.max_wait
            &&& forall|j: int|
                0 <= j < done.len() ==> (#[trigger] done[j]).wait.nanos <= figures.max_wait.nanos
            &&& forall|j: int|
                longest < j < done.len() ==> (#[trigger] done[j]).wait.nanos
                    < figures.max_wait.nanos
            &&& figures.cpu_completed == done.filter(
                |c: Completion| c.kind == TaskKind::Cpu,
            ).len()
            &&& figures.io_completed == done.filter(|c: Completion| c.kind == TaskKind::Io).len()
            &&& figures.cpu_completed + figures.io_completed == done.len()
            &&& figures.total_busy.nanos == crate::time::total_nanos(
                summary.worker_busy@.map_values(|w: WorkerBusy| w.total_busy),
            )
        }),
{
    let done = summary.completions@;
    assert(done.len() == summary.completions.len());
    law_kinds_partition_completions(done);
    lemma_longest_exists(done);
    lemma_kind_filter(done);
    assert(summary.worker_busy@.map_values(|w: WorkerBusy| w.total_busy) =~= busy_times(
        summary.worker_busy@,
    ));
    last_longest(done)
}

/// The mean waits are those of all completions and of each kind, the mean turnaround
/// is that of all, each rounded down to whole nanoseconds and zero for a kind that
/// does not occur. The fairness gap is how far the waits of the two kinds lie apart.
pub proof fn law_figures_average_the_completions(summary: Summary)
    requires
        0 < summary.completions@.len() < 0x1_0000_0000,
        summary.reportable(),
    ensures
        ({
            let done = summary.completions@;
            let figures = summary.figures();
            let cpu = done.filter(|c: Completion| c.kind == TaskKind::Cpu);
            let io = done.filter(|c: Completion| c.kind == TaskKind::Io);
            let wait = |c: Completion| c.wait;
            let turnaround = |c: Completion| c.turnaround;
            let all_waits = crate::time::total_nanos(done.map_values(wait));
            let cpu_waits = crate::time::total_nanos(cpu.map_values(wait));
            let io_waits = crate::time::total_nanos(io.map_values(wait));
            let turnarounds = crate::time::total_nanos(done.map_values(turnaround));
            &&& figures.avg_wait.nanos * done.len() <= all_waits
            &&& all_waits < (figures.avg_wait.nanos + 1) * done.len()
            &&& figures.avg_turnaround.nanos * done.len() <= turnarounds
            &&& turnarounds < (figures.avg_turnaround.nanos + 1) * done.len()
            &&& cpu.len() == 0 ==> figures.avg_wait_cpu.nanos == 0
            &&& cpu.len() > 0 ==> figures.avg_wait_cpu.nanos * cpu.len() <= cpu_waits && cpu_waits
                < (figures.avg_wait_cpu.nanos + 1) * cpu.len()
            &&& io.len() == 0 ==> figures.avg_wait_io.nanos == 0
            &&& io.len() > 0 ==> figures.avg_wait_io.nanos * io.len() <= io_waits && io_waits < (
            figures.avg_wait_io.nanos + 1) * io.len()
            &&& figures.avg_wait_cpu.nanos >= figures.avg_wait_io.nanos
                ==> figures.avg_wait_io.nanos + figures.fairness_gap.nanos
                == figures.avg_wait_cpu.nanos
            &&& figures.avg_wait_cpu.nanos <= figures.avg_wait_io.nanos
                ==> figures.avg_wait_cpu.nanos + figures.fairness_gap.nanos
                == figures.avg_wait_io.nanos
        }),
{
    let done = summary.completions@;
    let cpu = done.filter(|c: Completion| c.kind == TaskKind::Cpu);
    let io = done.filter(|c: Completion| c.kind == TaskKind::Io);
    let wait = |c: Completion| c.wait;
    let turnaround = |c: Completion| c.turnaround;
    lemma_kind_filter(done);
    lemma_kind_total(done, TaskKind::Cpu);
    lemma_kind_total(done, TaskKind::Io);
    assert(done.map_values(wait) =~= waits(done));
    assert(done.map_values(turnaround) =~= turnarounds(done));
    assert(cpu.map_values(wait) =~= waits(of_kind(done, TaskKind::Cpu)));
    assert(io.map_values(wait) =~= waits(of_kind(done, TaskKind::Io)));
    lemma_mean_fits(waits(done));
    lemma_mean_fits(turnarounds(done));
    lemma_mean_fits(waits(of_kind(done, TaskKind::Cpu)));
    lemma_mean_fits(waits(of_kind(done, TaskKind::Io)));
}

/// A run can be reported if it has fewer than 2^32 completions, or none at all, and
/// its waits, turnarounds and busy times each total at most the longest span.
pub proof fn law_ordinary_runs_are_reportable(summary: Summary)
    ensures
        summary.completions@.len() == 0 ==> summary.reportable(),
        summary.completions@.len() < 0x1_0000_0000 && crate::time::total_nanos(
            summary.completions@.map_values(|c: Completion| c.wait),
        ) <= crate::time::MAX_NANOS && crate::time::total_nanos(
            summary.completions@.map_values(|c: Completion| c.turnaround),
        ) <= crate::time::MAX_NANOS && crate::time::total_nanos(
            summary.worker_busy@.map_values(|w: WorkerBusy| w.total_busy),
        ) <= crate::time::MAX_NANOS ==> summary.reportable(),
{
    let done = summary.completions@;
    assert(done.map_values(|c: Completion| c.wait) =~= waits(done));
    assert(done.map_values(|c: Completion| c.turnaround) =~= turnarounds(done));
    assert(summary.worker_busy@.map_values(|w: WorkerBusy| w.total_busy) =~= busy_times(
        summary.worker_busy@,
    ));
    lemma_kind_total(done, TaskKind::Cpu);
    lemma_kind_total(done, TaskKind::Io);
}

proof fn lemma_mean_fits(spans: Seq<Duration>)
    requires
        spans.len() < 0x1_0000_0000,
        crate::time::total_nanos(spans) <= crate::time::MAX_NANOS,
    ensures
        avg_nanos(spans) <= crate::time::MAX_NANOS,
        spans.len() > 0 ==> avg_nanos(spans) * spans.len() <= crate::time::total_nanos(spans)
            < (avg_nanos(spans) + 1) * spans.len(),
{
    law_mean_divides_the_total(spans);
    if spans.len() > 0 {
        let (avg, n) = (avg_nanos(spans) as int, spans.len() as int);
        assert(avg <= avg * n) by (nonlinear_arith)
            requires
                avg >= 0,
                n >= 1,
        ;
    }
}

proof fn lemma_kind_filter(done: Seq<Completion>)
    ensures
        done.filter(|c: Completion| c.kind == TaskKind::Cpu) == of_kind(done, TaskKind::Cpu),
        done.filter(|c: Completion| c.kind == TaskKind::Io) == of_kind(done, TaskKind::Io),
    decreases done.len(),
{
    reveal(Seq::filter);
    if done.len() > 0 {
        lemma_kind_filter(done.drop_last());
    }
}

proof fn lemma_longest_exists(done: Seq<Completion>)
    requires
        done.len() > 0,
    ensures
        is_last_longest(done, last_longest(done)),
    decreases done.len(),
{
    let n = done.len() - 1;
    if n == 0 {
        assert(is_last_longest(done, 0));
    } else {
        let front = done.drop_last();
        lemma_longest_exists(front);
        let best = last_longest(front);
        assert(forall|j: int| 0 <= j < n ==> front[j] == done[j]);
        if done[n].wait.nanos >= done[best].wait.nanos {
            assert(is_last_longest(done, n));
        } else {
            assert(is_last_longest(done, best));
        }
    }
}

} // verus!

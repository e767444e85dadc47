//! What the dispatch policy guarantees over whole sequences of dispatches.
use crate::dispatcher::{Decision, Dispatcher, PolicyConfig, Seat};
use crate::queues::{QueueSnapshot, QueuesModel};
use crate::task::{Task, TaskKind};
use crate::time::Duration;
use vstd::arithmetic::div_mod::*;
use vstd::arithmetic::mul::*;
use vstd::prelude::*;
use vstd::set_lib::*;

verus! {

/// The dispatcher after it has dispatched tasks of these kinds, in order.
pub open spec fn after_all(start: Dispatcher, kinds: Seq<TaskKind>) -> Dispatcher
    decreases kinds.len(),
{
    if kinds.len() == 0 {
        start
    } else {
        after_all(start, kinds.drop_last()).after(kinds.last())
    }
}

/// How many of `kinds` are `kind`.
pub open spec fn count_kind(kinds: Seq<TaskKind>, kind: TaskKind) -> nat
    decreases kinds.len(),
{
    if kinds.len() == 0 {
        0
    } else {
        count_kind(kinds.drop_last(), kind) + if kinds.last() == kind {
            1nat
        } else {
            0nat
        }
    }
}

/// Dispatching keeps the state well-formed and advances the round by one tick
/// per task, whatever the kinds.
pub proof fn law_tick_counts_dispatches(
    policy: PolicyConfig,
    workers: usize,
    kinds: Seq<TaskKind>,
)
    requires
        policy.cpu_weight + policy.io_weight <= u32::MAX,
    ensures
        after_all(Dispatcher::fresh(policy, workers), kinds).wf(),
        after_all(Dispatcher::fresh(policy, workers), kinds).policy == policy,
        after_all(Dispatcher::fresh(policy, workers), kinds).workers == workers,
        after_all(Dispatcher::fresh(policy, workers), kinds).tick == kinds.len() as int
            % policy.period(),
    decreases kinds.len(),
{
    let p = policy.period();
    if kinds.len() > 0 {
        law_tick_counts_dispatches(policy, workers, kinds.drop_last());
        lemma_add_mod_noop_right(1, kinds.len() - 1, p);
        lemma_mod_bound(kinds.len() as int, p);
    } else {
        lemma_small_mod(0, p as nat);
    }
}

/// While both queues hold tasks and no front task is overdue, the weights alone
/// decide: in each round the CPU queue is served `cpu_weight` times in a row,
/// then the IO queue `io_weight` times.
pub proof fn law_weighted_rounds(
    policy: PolicyConfig,
    workers: usize,
    kinds: Seq<TaskKind>,
    snap: QueueSnapshot,
    cpu_head: Option<Duration>,
    io_head: Option<Duration>,
)
    requires
        policy.cpu_weight + policy.io_weight <= u32::MAX,
        snap.cpu_len > 0,
        snap.io_len > 0,
        !policy.overdue(cpu_head),
        !policy.overdue(io_head),
    ensures
        after_all(Dispatcher::fresh(policy, workers), kinds).decision(snap, cpu_head, io_head)
            == Decision::Serve(
            if kinds.len() as int % policy.period() < policy.cpu_weight {
                TaskKind::Cpu
            } else {
                TaskKind::Io
            },
        ),
{
    law_tick_counts_dispatches(policy, workers, kinds);
}

/// One worker is always left for CPU tasks, CPU tasks never go to a reserved
/// worker, and IO tasks go to the reserved workers if there are any.
pub proof fn law_reserved_workers_serve_io_only(dispatcher: Dispatcher)
    requires
        dispatcher.wf(),
        dispatcher.workers > 0,
    ensures
        dispatcher.reserved < dispatcher.workers,
        dispatcher.reserved <= dispatcher.policy.io_reserved_workers,
        dispatcher.reserved <= dispatcher.worker_for(TaskKind::Cpu) < dispatcher.workers,
        dispatcher.reserved > 0 ==> 0 <= dispatcher.worker_for(TaskKind::Io) < dispatcher.reserved,
        dispatcher.reserved == 0 ==> 0 <= dispatcher.worker_for(TaskKind::Io) < dispatcher.workers,
{
}

proof fn lemma_counters(policy: PolicyConfig, workers: usize, kinds: Seq<TaskKind>)
    requires
        policy.cpu_weight + policy.io_weight <= u32::MAX,
        workers > 0,
        kinds.len() <= usize::MAX,
    ensures
        ({
            let d = after_all(Dispatcher::fresh(policy, workers), kinds);
            &&& d.reserved > 0 ==> d.next_io_only == count_kind(kinds, TaskKind::Io)
                && d.next_general == count_kind(kinds, TaskKind::Cpu)
            &&& d.reserved == 0 ==> d.next_io_only == 0 && d.next_general == kinds.len()
        }),
        count_kind(kinds, TaskKind::Io) + count_kind(kinds, TaskKind::Cpu) == kinds.len(),
    decreases kinds.len(),
{
    law_tick_counts_dispatches(policy, workers, kinds);
    if kinds.len() > 0 {
        lemma_counters(policy, workers, kinds.drop_last());
        law_tick_counts_dispatches(policy, workers, kinds.drop_last());
    }
}

/// Without reserved workers, dispatches go around the workers in turn: after
/// `n` dispatches the next task goes to worker `n mod workers`, whatever its
/// kind. (The counter wraps behind `usize::MAX` dispatches.)
pub proof fn law_round_robin(
    policy: PolicyConfig,
    workers: usize,
    kinds: Seq<TaskKind>,
    kind: TaskKind,
)
    requires
        policy.cpu_weight + policy.io_weight <= u32::MAX,
        policy.io_reserved_workers == 0 || workers == 1,
        workers > 0,
        kinds.len() <= usize::MAX,
    ensures
        after_all(Dispatcher::fresh(policy, workers), kinds).worker_for(kind) == kinds.len() as int
            % workers as int,
{
    law_tick_counts_dispatches(policy, workers, kinds);
    lemma_counters(policy, workers, kinds);
}

/// With reserved workers, each kind goes around its own pool in turn.
pub proof fn law_round_robin_per_pool(policy: PolicyConfig, workers: usize, kinds: Seq<TaskKind>)
    requires
        policy.cpu_weight + policy.io_weight <= u32::MAX,
        policy.io_reserved_workers > 0,
        workers > 1,
        kinds.len() <= usize::MAX,
    ensures
        ({
            let d = after_all(Dispatcher::fresh(policy, workers), kinds);
            &&& d.worker_for(TaskKind::Io) == count_kind(kinds, TaskKind::Io) as int
                % d.reserved as int
            &&& d.worker_for(TaskKind::Cpu) == d.reserved + count_kind(kinds, TaskKind::Cpu) as int
                % (workers - d.reserved)
        }),
{
    law_tick_counts_dispatches(policy, workers, kinds);
    lemma_counters(policy, workers, kinds);
}

/// The kinds that are dispatched while both queues stay filled and nothing is
/// overdue.
pub open spec fn saturated_kinds(policy: PolicyConfig, n: nat) -> Seq<TaskKind> {
    Seq::new(n, |k: int| crate::dispatcher::weighted_kind(policy, k % policy.period()))
}

/// The worker that the `k`-th dispatch goes to while both queues stay filled and
/// nothing is overdue.
pub open spec fn saturated_worker(policy: PolicyConfig, workers: usize, k: nat) -> int {
    after_all(Dispatcher::fresh(policy, workers), saturated_kinds(policy, k)).worker_for(
        crate::dispatcher::weighted_kind(policy, k as int % policy.period()),
    )
}

/// The dispatcher, the queues and the kinds served so far after one turn at each
/// of `times`, with no arrivals in between.
pub open spec fn turns(
    start: Dispatcher,
    queues: QueuesModel,
    times: Seq<Duration>,
) -> (Dispatcher, QueuesModel, Seq<TaskKind>)
    decreases times.len(),
{
    if times.len() == 0 {
        (start, queues, Seq::empty())
    } else {
        let (dispatcher, left, served) = turns(start, queues, times.drop_last());
        match dispatcher.decision_on(left, times.last()) {
            Decision::Serve(kind) => (
                dispatcher.after(kind),
                left.popped(kind),
                served.push(kind),
            ),
            _ => (dispatcher, left, served),
        }
    }
}

/// At each of `times`, when its turn comes, both queues hold tasks and no front
/// task is overdue.
pub open spec fn saturated(start: Dispatcher, queues: QueuesModel, times: Seq<Duration>) -> bool {
    forall|i: int|
        0 <= i < times.len() ==> {
            let left = #[trigger] turns(start, queues, times.take(i)).1;
            &&& 0 < left.cpu.len() <= usize::MAX
            &&& 0 < left.io.len() <= usize::MAX
            &&& !start.policy.overdue(left.head_wait(TaskKind::Cpu, times[i]))
            &&& !start.policy.overdue(left.head_wait(TaskKind::Io, times[i]))
        }
}

/// While both queues stay filled and nothing is overdue, turn after turn serves
/// exactly [`saturated_kinds`], so that the `k`-th task goes to
/// [`saturated_worker`].
pub proof fn law_saturated_turns_follow_the_rounds(
    policy: PolicyConfig,
    workers: usize,
    queues: QueuesModel,
    times: Seq<Duration>,
)
    requires
        policy.cpu_weight + policy.io_weight <= u32::MAX,
        saturated(Dispatcher::fresh(policy, workers), queues, times),
    ensures
        turns(Dispatcher::fresh(policy, workers), queues, times).0 == after_all(
            Dispatcher::fresh(policy, workers),
            saturated_kinds(policy, times.len()),
        ),
        turns(Dispatcher::fresh(policy, workers), queues, times).2 == saturated_kinds(
            policy,
            times.len(),
        ),
    decreases times.len(),
{
    let start = Dispatcher::fresh(policy, workers);
    if times.len() == 0 {
        assert(saturated_kinds(policy, 0) =~= Seq::empty());
    } else {
        let front = times.drop_last();
        let n = front.len();
        assert(front =~= times.take(n as int));
        assert forall|i: int| 0 <= i < front.len() implies {
            let left = #[trigger] turns(start, queues, front.take(i)).1;
            &&& 0 < left.cpu.len() <= usize::MAX
            &&& 0 < left.io.len() <= usize::MAX
            &&& !policy.overdue(left.head_wait(TaskKind::Cpu, front[i]))
            &&& !policy.overdue(left.head_wait(TaskKind::Io, front[i]))
        } by {
            assert(front.take(i) =~= times.take(i));
        }
        law_saturated_turns_follow_the_rounds(policy, workers, queues, front);
        let (dispatcher, left, served) = turns(start, queues, front);
        law_weighted_rounds(
            policy,
            workers,
            saturated_kinds(policy, n),
            left.snapshot(),
            left.head_wait(TaskKind::Cpu, times.last()),
            left.head_wait(TaskKind::Io, times.last()),
        );
        assert(saturated_kinds(policy, n + 1).drop_last() =~= saturated_kinds(policy, n));
        assert(saturated_kinds(policy, n + 1) =~= served.push(
            crate::dispatcher::weighted_kind(policy, n as int % policy.period()),
        ));
    }
}

/// Where a number divides both the length of a round and the number of workers,
/// a worker only ever meets the ticks that leave the same remainder as its own
/// number. With weights of 1 and an even number of workers that splits them for
/// good: even workers get the CPU tasks, odd workers the IO tasks.
pub proof fn law_common_divisor_splits_workers(
    policy: PolicyConfig,
    workers: usize,
    divisor: int,
    k: nat,
)
    requires
        policy.cpu_weight + policy.io_weight <= u32::MAX,
        policy.io_reserved_workers == 0,
        workers > 0,
        k <= usize::MAX,
        divisor > 0,
        workers as int % divisor == 0,
        policy.period() % divisor == 0,
    ensures
        saturated_worker(policy, workers, k) % divisor == (k as int % policy.period()) % divisor,
        policy.cpu_weight == 1 && policy.io_weight == 1 && divisor == 2 ==> {
            &&& crate::dispatcher::weighted_kind(policy, k as int % policy.period())
                == TaskKind::Cpu <==> saturated_worker(policy, workers, k) % 2 == 0
            &&& crate::dispatcher::weighted_kind(policy, k as int % policy.period())
                == TaskKind::Io <==> saturated_worker(policy, workers, k) % 2 == 1
        },
{
    law_round_robin(
        policy,
        workers,
        saturated_kinds(policy, k),
        crate::dispatcher::weighted_kind(policy, k as int % policy.period()),
    );
    lemma_mod_of_multiple(k as int, workers as int, divisor);
    lemma_mod_of_multiple(k as int, policy.period(), divisor);
}

/// Reducing modulo a multiple of `d` first changes nothing modulo `d`.
proof fn lemma_mod_of_multiple(x: int, m: int, d: int)
    requires
        d > 0,
        m > 0,
        m % d == 0,
    ensures
        (x % m) % d == x % d,
{
    lemma_fundamental_div_mod(x, m);
    lemma_fundamental_div_mod(m, d);
    let q = (m / d) * (x / m);
    assert(x == d * q + x % m) by (nonlinear_arith)
        requires
            x == m * (x / m) + x % m,
            m == d * (m / d) + 0,
            q == (m / d) * (x / m),
    ;
    lemma_mod_multiples_vanish(q, x % m, d);
}

/// Euclid's algorithm.
pub open spec fn gcd(a: nat, b: nat) -> nat
    decreases b,
{
    if b == 0 {
        a
    } else {
        gcd(b, a % b)
    }
}

proof fn lemma_bezout(a: nat, b: nat) -> (xy: (int, int))
    ensures
        a * xy.0 + b * xy.1 == gcd(a, b),
    decreases b,
{
    if b == 0 {
        (1, 0)
    } else {
        let (x, y) = lemma_bezout(b, a % b);
        lemma_fundamental_div_mod(a as int, b as int);
        let q = a as int / b as int;
        let r = a as int % b as int;
        assert(a * y + b * (x - q * y) == b * x + r * y) by (nonlinear_arith)
            requires
                a == b * q + r,
        ;
        (y, x - q * y)
    }
}

/// Where the length of a round and the number of workers have no common
/// divisor, every worker meets every tick of the round, so that all workers see
/// the same mix of kinds. It happens within `workers * period` dispatches.
pub proof fn law_coprime_period_mixes_workers(
    policy: PolicyConfig,
    workers: usize,
    worker: int,
    tick: int,
) -> (k: nat)
    requires
        policy.cpu_weight + policy.io_weight <= u32::MAX,
        policy.io_reserved_workers == 0,
        0 <= worker < workers,
        0 <= tick < policy.period(),
        gcd(workers as nat, policy.period() as nat) == 1,
        workers * policy.period() <= usize::MAX,
    ensures
        k < workers * policy.period(),
        saturated_worker(policy, workers, k) == worker,
        k as int % policy.period() == tick,
        crate::dispatcher::weighted_kind(policy, k as int % policy.period())
            == crate::dispatcher::weighted_kind(policy, tick),
{
    let w = workers as int;
    let p = policy.period();
    let (x, y) = lemma_bezout(w as nat, p as nat);
    let all = worker * (p * y) + tick * (w * x);
    lemma_mul_strictly_positive(w, p);
    let k = all % (w * p);
    lemma_mod_bound(all, w * p);
    assert((w * p) % w == 0) by {
        lemma_mod_multiples_basic(p, w);
        lemma_mul_is_commutative(w, p);
    }
    lemma_mod_multiples_basic(w, p);
    lemma_mod_of_multiple(all, w * p, w);
    lemma_mod_of_multiple(all, w * p, p);
    assert(all == w * ((tick - worker) * x) + worker) by (nonlinear_arith)
        requires
            all == worker * (p * y) + tick * (w * x),
            w * x + p * y == 1,
    ;
    lemma_mod_multiples_vanish((tick - worker) * x, worker, w);
    lemma_small_mod(worker as nat, w as nat);
    assert(all == p * ((worker - tick) * y) + tick) by (nonlinear_arith)
        requires
            all == worker * (p * y) + tick * (w * x),
            w * x + p * y == 1,
    ;
    lemma_mod_multiples_vanish((worker - tick) * y, tick, p);
    lemma_small_mod(tick as nat, p as nat);
    law_round_robin(
        policy,
        workers,
        saturated_kinds(policy, k as nat),
        crate::dispatcher::weighted_kind(policy, k % p),
    );
    k as nat
}

/// In such a stretch of `workers * period` dispatches every worker meets every
/// tick only once.
pub proof fn law_coprime_period_meets_each_tick_once(
    policy: PolicyConfig,
    workers: usize,
    j: nat,
    k: nat,
)
    requires
        policy.cpu_weight + policy.io_weight <= u32::MAX,
        policy.io_reserved_workers == 0,
        workers > 0,
        gcd(workers as nat, policy.period() as nat) == 1,
        workers * policy.period() <= usize::MAX,
        j < workers * policy.period(),
        k < workers * policy.period(),
        saturated_worker(policy, workers, j) == saturated_worker(policy, workers, k),
        j as int % policy.period() == k as int % policy.period(),
    ensures
        j == k,
{
    let w = workers as int;
    let p = policy.period();
    law_round_robin(
        policy,
        workers,
        saturated_kinds(policy, j),
        crate::dispatcher::weighted_kind(policy, j as int % p),
    );
    law_round_robin(
        policy,
        workers,
        saturated_kinds(policy, k),
        crate::dispatcher::weighted_kind(policy, k as int % p),
    );
    lemma_fundamental_div_mod(j as int, w);
    lemma_fundamental_div_mod(k as int, w);
    lemma_fundamental_div_mod(j as int, p);
    lemma_fundamental_div_mod(k as int, p);
    let (x, y) = lemma_bezout(w as nat, p as nat);
    let d = j - k;
    let a = j as int / w - k as int / w;
    let b = j as int / p - k as int / p;
    assert(d == w * a) by (nonlinear_arith)
        requires
            d == w * (j as int / w) - w * (k as int / w),
            a == j as int / w - k as int / w,
    ;
    assert(d == p * b) by (nonlinear_arith)
        requires
            d == p * (j as int / p) - p * (k as int / p),
            b == j as int / p - k as int / p,
    ;
    let m = b * x + a * y;
    assert(d == (w * p) * m) by (nonlinear_arith)
        requires
            d == w * a,
            d == p * b,
            w * x + p * y == 1,
            m == b * x + a * y,
    ;
    assert(m == 0) by (nonlinear_arith)
        requires
            d == (w * p) * m,
            -(w * p) < d < w * p,
    ;
    assert((w * p) * m == 0) by (nonlinear_arith)
        requires
            m == 0,
    ;
}

/// Those of the first `workers * period` dispatches, while both queues stay
/// filled and nothing is overdue, that give a task of `kind` to `worker`.
pub open spec fn given(
    policy: PolicyConfig,
    workers: usize,
    worker: int,
    kind: TaskKind,
) -> Set<int> {
    Set::new(
        |k: int|
            0 <= k < workers * policy.period() && saturated_worker(policy, workers, k as nat)
                == worker && crate::dispatcher::weighted_kind(policy, k % policy.period()) == kind,
    )
}

/// Where the length of a round and the number of workers have no common
/// divisor, all workers get the same mix: in `workers * period` dispatches each
/// of them gets exactly `cpu_weight` CPU tasks and `io_weight` IO tasks.
pub proof fn law_coprime_period_mixes_evenly(policy: PolicyConfig, workers: usize, worker: int)
    requires
        0 < policy.cpu_weight + policy.io_weight <= u32::MAX,
        policy.io_reserved_workers == 0,
        0 <= worker < workers,
        gcd(workers as nat, policy.period() as nat) == 1,
        workers * policy.period() <= usize::MAX,
    ensures
        given(policy, workers, worker, TaskKind::Cpu).finite(),
        given(policy, workers, worker, TaskKind::Io).finite(),
        given(policy, workers, worker, TaskKind::Cpu).len() == policy.cpu_weight,
        given(policy, workers, worker, TaskKind::Io).len() == policy.io_weight,
{
    let cpu_ticks = set_int_range(0, policy.cpu_weight as int);
    let io_ticks = set_int_range(policy.cpu_weight as int, policy.period());
    lemma_int_range(0, policy.cpu_weight as int);
    lemma_int_range(policy.cpu_weight as int, policy.period());
    lemma_given_per_tick(policy, workers, worker, TaskKind::Cpu, cpu_ticks);
    lemma_given_per_tick(policy, workers, worker, TaskKind::Io, io_ticks);
}

/// A worker is given one task of `kind` per tick of that kind.
proof fn lemma_given_per_tick(
    policy: PolicyConfig,
    workers: usize,
    worker: int,
    kind: TaskKind,
    ticks: Set<int>,
)
    requires
        0 < policy.cpu_weight + policy.io_weight <= u32::MAX,
        policy.io_reserved_workers == 0,
        0 <= worker < workers,
        gcd(workers as nat, policy.period() as nat) == 1,
        workers * policy.period() <= usize::MAX,
        forall|tick: int| #[trigger]
            ticks.contains(tick) <==> 0 <= tick < policy.period()
                && crate::dispatcher::weighted_kind(policy, tick) == kind,
    ensures
        given(policy, workers, worker, kind).finite(),
        given(policy, workers, worker, kind).len() == ticks.len(),
{
    let p = policy.period();
    let all = given(policy, workers, worker, kind);
    let tick_of = |k: int| k % p;
    lemma_mul_strictly_positive(workers as int, p);
    lemma_int_range(0, workers * p);
    assert(all.subset_of(set_int_range(0, workers * p)));
    lemma_set_subset_finite(set_int_range(0, workers * p), all);
    assert forall|j: int, k: int|
        all.contains(j) && all.contains(k) && #[trigger] tick_of(j) == #[trigger] tick_of(
            k,
        ) implies j == k by {
        law_coprime_period_meets_each_tick_once(policy, workers, j as nat, k as nat);
    }
    assert forall|tick: int| all.map(tick_of).contains(tick) <==> #[trigger] ticks.contains(
        tick,
    ) by {
        if all.map(tick_of).contains(tick) {
            let k = choose|k: int| all.contains(k) && tick_of(k) == tick;
            lemma_mod_bound(k, p);
        }
        if ticks.contains(tick) {
            let k = law_coprime_period_mixes_workers(policy, workers, worker, tick) as int;
            assert(all.contains(k));
            assert(tick_of(k) == tick);
        }
    }
    assert(all.map(tick_of) =~= ticks);
    lemma_map_size(all, ticks, tick_of);
}

/// When a front task is overdue, the weights are set aside: the queue that is
/// served has an overdue front task, and no front task has waited longer.
pub proof fn law_overdue_is_served_first(
    dispatcher: Dispatcher,
    snap: QueueSnapshot,
    cpu_head: Option<Duration>,
    io_head: Option<Duration>,
)
    requires
        snap.cpu_len > 0 || snap.io_len > 0,
        dispatcher.policy.overdue(cpu_head) || dispatcher.policy.overdue(io_head),
    ensures
        match dispatcher.decision(snap, cpu_head, io_head) {
            Decision::Serve(TaskKind::Cpu) => dispatcher.policy.overdue(cpu_head)
                && crate::dispatcher::wait_or_less(io_head) <= crate::dispatcher::wait_or_less(
                cpu_head,
            ),
            Decision::Serve(TaskKind::Io) => dispatcher.policy.overdue(io_head)
                && crate::dispatcher::wait_or_less(cpu_head) < crate::dispatcher::wait_or_less(
                io_head,
            ),
            _ => false,
        },
{
}

/// A decision on the queues as they are always finds a task: the queue it names
/// is not empty. It ends the run exactly when the queues are drained and closed.
pub proof fn law_decision_finds_a_task(dispatcher: Dispatcher, queues: QueuesModel, now: Duration)
    requires
        queues.wf(),
    ensures
        match dispatcher.decision_on(queues, now) {
            Decision::Finish => queues.cpu.len() == 0 && queues.io.len() == 0 && queues.closed,
            Decision::WaitAgain => queues.cpu.len() == 0 && queues.io.len() == 0 && !queues.closed,
            Decision::Serve(kind) => queues.queue(kind).len() > 0,
        },
{
}

/// While tasks are queued every turn takes exactly one of them, so that closed
/// queues are drained after as many turns as they hold tasks.
pub proof fn law_every_turn_takes_one_task(
    dispatcher: Dispatcher,
    queues: QueuesModel,
    now: Duration,
)
    requires
        queues.wf(),
        queues.cpu.len() + queues.io.len() > 0,
    ensures
        match dispatcher.decision_on(queues, now) {
            Decision::Serve(kind) => queues.popped(kind).cpu.len() + queues.popped(kind).io.len()
                == queues.cpu.len() + queues.io.len() - 1,
            _ => false,
        },
{
    law_decision_finds_a_task(dispatcher, queues, now);
}

/// The dispatcher never finishes early: when it decides to, every task that was
/// ever pushed has been taken, in order.
pub proof fn law_finishing_leaves_nothing_behind(
    dispatcher: Dispatcher,
    history: Seq<crate::queue_laws::QueueEvent>,
    kind: TaskKind,
    now: Duration,
)
    requires
        crate::queue_laws::replay(history).wf(),
        dispatcher.decision_on(crate::queue_laws::replay(history), now) == Decision::Finish,
    ensures
        crate::queue_laws::popped_tasks(history, kind) == crate::queue_laws::pushed_tasks(
            history,
            kind,
        ),
{
    law_decision_finds_a_task(dispatcher, crate::queue_laws::replay(history), now);
    crate::queue_laws::law_drained_queue_served_all(history, kind);
}

/// Each queue holds its tasks in the order in which they came, none of them from
/// the future.
pub open spec fn in_order_of_arrival(queues: QueuesModel, now: Duration) -> bool {
    forall|kind: TaskKind, i: int, j: int|
        0 <= i <= j < queues.queue(kind).len() ==> {
            &&& (#[trigger] queues.queue(kind)[i]).enqueue_time->0.nanos <= (#[trigger] queues.queue(
                kind,
            )[j]).enqueue_time->0.nanos
            &&& queues.queue(kind)[j].enqueue_time->0.nanos <= now.nanos
        }
}

/// Pushing at the current time and popping keep the queues in order of arrival.
pub proof fn law_order_of_arrival_is_kept(
    queues: QueuesModel,
    task: Task,
    kind: TaskKind,
    before: Duration,
    now: Duration,
)
    requires
        in_order_of_arrival(queues, before),
        before.nanos <= now.nanos,
    ensures
        in_order_of_arrival(queues.pushed(task, now), now),
        in_order_of_arrival(queues.popped(kind), now),
{
    let pushed = queues.pushed(task, now);
    assert forall|kind: TaskKind, i: int, j: int|
        0 <= i <= j < pushed.queue(kind).len() implies {
        &&& (#[trigger] pushed.queue(kind)[i]).enqueue_time->0.nanos <= (#[trigger] pushed.queue(
            kind,
        )[j]).enqueue_time->0.nanos
        &&& pushed.queue(kind)[j].enqueue_time->0.nanos <= now.nanos
    } by {
        if i < queues.queue(kind).len() {
            assert(pushed.queue(kind)[i] == queues.queue(kind)[i]);
            assert(queues.queue(kind)[i].enqueue_time->0.nanos <= before.nanos);
        }
        if j < queues.queue(kind).len() {
            assert(pushed.queue(kind)[j] == queues.queue(kind)[j]);
        }
    }
    let popped = queues.popped(kind);
    assert forall|k: TaskKind, i: int, j: int| 0 <= i <= j < popped.queue(k).len() implies {
        &&& (#[trigger] popped.queue(k)[i]).enqueue_time->0.nanos <= (#[trigger] popped.queue(
            k,
        )[j]).enqueue_time->0.nanos
        &&& popped.queue(k)[j].enqueue_time->0.nanos <= now.nanos
    } by {
        if k == kind && queues.queue(kind).len() > 0 {
            assert(popped.queue(k)[i] == queues.queue(k)[i + 1]);
            assert(popped.queue(k)[j] == queues.queue(k)[j + 1]);
        } else {
            assert(popped.queue(k) == queues.queue(k));
        }
    }
}

/// Aging prevents starvation: as soon as any queued task has waited longer than
/// the threshold, the next task to be served is the one that has waited longest
/// of all.
pub proof fn law_aging_serves_the_oldest(
    dispatcher: Dispatcher,
    queues: QueuesModel,
    now: Duration,
    late: TaskKind,
    i: int,
)
    requires
        queues.wf(),
        in_order_of_arrival(queues, now),
        0 <= i < queues.queue(late).len(),
        crate::time::elapsed_nanos(now, queues.queue(late)[i].enqueue_time->0)
            > dispatcher.policy.aging_threshold_ms * 1_000_000,
    ensures
        match dispatcher.decision_on(queues, now) {
            Decision::Serve(kind) => queues.queue(kind).len() > 0 && forall|other: TaskKind, j: int|
                0 <= j < queues.queue(other).len() ==> queues.queue(kind)[0].enqueue_time->0.nanos
                    <= (#[trigger] queues.queue(other)[j]).enqueue_time->0.nanos,
            _ => false,
        },
{
    let decision = dispatcher.decision_on(queues, now);
    assert(queues.queue(late)[0].enqueue_time->0.nanos <= queues.queue(
        late,
    )[i].enqueue_time->0.nanos);
    assert(dispatcher.policy.overdue(queues.head_wait(late, now)));
    law_decision_finds_a_task(dispatcher, queues, now);
    let kind = decision->Serve_0;
    assert forall|other: TaskKind, j: int| 0 <= j < queues.queue(other).len() implies queues.queue(
        kind,
    )[0].enqueue_time->0.nanos <= (#[trigger] queues.queue(other)[j]).enqueue_time->0.nanos by {
        assert(queues.queue(other)[0].enqueue_time->0.nanos <= queues.queue(
            other,
        )[j].enqueue_time->0.nanos);
        assert(queues.queue(kind)[0].enqueue_time->0.nanos <= now.nanos);
    }
}

/// How many queued tasks came at `since` or earlier.
pub open spec fn queued_since(queues: QueuesModel, since: Duration) -> nat {
    came_by(queues.cpu, since).len() + came_by(queues.io, since).len()
}

/// The tasks of a queue that came at `since` or earlier.
pub open spec fn came_by(queue: Seq<Task>, since: Duration) -> Seq<Task> {
    queue.filter(|task: Task| task.enqueue_time->0.nanos <= since.nanos)
}

proof fn lemma_came_by_front(queue: Seq<Task>, since: Duration)
    requires
        queue.len() > 0,
        queue[0].enqueue_time->0.nanos <= since.nanos,
    ensures
        came_by(queue, since).len() == came_by(queue.drop_first(), since).len() + 1,
{
    let early = |task: Task| task.enqueue_time->0.nanos <= since.nanos;
    let front = seq![queue[0]];
    assert(queue =~= front + queue.drop_first());
    Seq::filter_distributes_over_add(front, queue.drop_first(), early);
    reveal(Seq::filter);
    assert(front.drop_last() =~= Seq::<Task>::empty());
    assert(front.filter(early) =~= front);
}

proof fn lemma_came_by_later(queue: Seq<Task>, task: Task, since: Duration)
    requires
        task.enqueue_time->0.nanos > since.nanos,
    ensures
        came_by(queue.push(task), since) == came_by(queue, since),
{
    reveal(Seq::filter);
    assert(queue.push(task).drop_last() =~= queue);
}

/// Aging bounds the wait in dispatches: once a task that came at `since` is
/// overdue, every dispatch takes a task that came no later, and what arrives
/// behind it does not count. So it is taken after at most as many dispatches as
/// there are tasks that came no later than itself.
pub proof fn law_aging_bounds_overtaking(
    dispatcher: Dispatcher,
    queues: QueuesModel,
    now: Duration,
    since: Duration,
    late: TaskKind,
    i: int,
    newcomer: Task,
)
    requires
        queues.wf(),
        in_order_of_arrival(queues, now),
        0 <= i < queues.queue(late).len(),
        queues.queue(late)[i].enqueue_time == Some(since),
        crate::time::elapsed_nanos(now, since) > dispatcher.policy.aging_threshold_ms * 1_000_000,
    ensures
        match dispatcher.decision_on(queues, now) {
            Decision::Serve(kind) => queued_since(queues.popped(kind), since) + 1 == queued_since(
                queues,
                since,
            ),
            _ => false,
        },
        queued_since(queues.pushed(newcomer, now), since) == queued_since(queues, since),
{
    law_aging_serves_the_oldest(dispatcher, queues, now, late, i);
    let kind = dispatcher.decision_on(queues, now)->Serve_0;
    assert(queues.queue(late)[i].enqueue_time->0 == since);
    lemma_came_by_front(queues.queue(kind), since);
    lemma_came_by_later(
        queues.queue(newcomer.kind),
        crate::queues::stamped(newcomer, now),
        since,
    );
}

/// As many workers are reserved as the policy asks for, as long as that leaves one
/// for everything else; otherwise all but one. It stays so whatever is dispatched.
/// CPU tasks never go to a worker that the policy reserves for IO tasks.
pub proof fn law_reservation_is_what_the_policy_asks(
    policy: PolicyConfig,
    workers: usize,
    kinds: Seq<TaskKind>,
)
    requires
        policy.cpu_weight + policy.io_weight <= u32::MAX,
    ensures
        ({
            let d = after_all(Dispatcher::fresh(policy, workers), kinds);
            &&& d.policy == policy
            &&& d.workers == workers
            &&& workers == 0 ==> d.reserved == 0
            &&& policy.io_reserved_workers < workers ==> {
                &&& d.reserved == policy.io_reserved_workers
                &&& policy.io_reserved_workers <= d.worker_for(TaskKind::Cpu) < workers
                &&& policy.io_reserved_workers > 0 ==> 0 <= d.worker_for(TaskKind::Io)
                    < policy.io_reserved_workers
            }
            &&& 0 < workers <= policy.io_reserved_workers ==> {
                &&& d.reserved == workers - 1
                &&& d.worker_for(TaskKind::Cpu) == workers - 1
                &&& workers > 1 ==> 0 <= d.worker_for(TaskKind::Io) < workers - 1
            }
            &&& d.period == if policy.cpu_weight + policy.io_weight > 0 {
                policy.cpu_weight + policy.io_weight
            } else {
                1
            }
        }),
{
    law_tick_counts_dispatches(policy, workers, kinds);
}

/// Nothing has been counted before the first dispatch.
pub proof fn law_dispatcher_starts_at_zero(policy: PolicyConfig, workers: usize)
    ensures
        Dispatcher::fresh(policy, workers).next_io_only == 0,
        Dispatcher::fresh(policy, workers).next_general == 0,
        Dispatcher::fresh(policy, workers).tick == 0,
{
}

/// Each pool counts its own tasks and hands them to its workers in turn: IO tasks
/// to the reserved workers, which come first, and everything else to the others.
/// The counters start over at zero behind the greatest number. Each dispatch
/// advances the round by one tick, which starts over at its end.
pub proof fn law_pools_take_turns(dispatcher: Dispatcher, kind: TaskKind)
    requires
        dispatcher.wf(),
        dispatcher.workers > 0,
    ensures
        ({
            let after = dispatcher.after(kind);
            let reserved = dispatcher.reserved as int;
            let others = dispatcher.workers - dispatcher.reserved;
            &&& kind == TaskKind::Io && reserved > 0 ==> {
                &&& dispatcher.worker_for(kind) == dispatcher.next_io_only as int % reserved
                &&& after.next_io_only == if dispatcher.next_io_only < usize::MAX {
                    dispatcher.next_io_only + 1
                } else {
                    0
                }
                &&& after.next_general == dispatcher.next_general
            }
            &&& kind == TaskKind::Cpu || reserved == 0 ==> {
                &&& dispatcher.worker_for(kind) == reserved + dispatcher.next_general as int
                    % others
                &&& after.next_general == if dispatcher.next_general < usize::MAX {
                    dispatcher.next_general + 1
                } else {
                    0
                }
                &&& after.next_io_only == dispatcher.next_io_only
            }
            &&& after.tick == if dispatcher.tick + 1 < dispatcher.period {
                dispatcher.tick + 1
            } else {
                0
            }
            &&& after.policy == dispatcher.policy
            &&& after.workers == dispatcher.workers
            &&& after.reserved == dispatcher.reserved
            &&& after.period == dispatcher.period
            &&& after.wf()
        }),
{
    if dispatcher.tick + 1 < dispatcher.period {
        lemma_small_mod((dispatcher.tick + 1) as nat, dispatcher.period as nat);
    } else {
        lemma_mod_self_0(dispatcher.period as int);
    }
}

/// A seat is taken among the reserved workers for IO tasks if there are any, and for
/// CPU tasks only if there are no others; everything else goes to the others. In
/// either pool it is the counter's turn.
pub proof fn law_seats_go_to_the_right_pool(
    kind: TaskKind,
    io_only: usize,
    general: usize,
    next_io_only: usize,
    next_general: usize,
)
    requires
        io_only > 0 || general > 0,
    ensures
        match crate::dispatcher::seat_for(kind, io_only, general, next_io_only, next_general) {
            Seat::IoOnly(i) => {
                &&& i == next_io_only % io_only
                &&& io_only > 0
                &&& kind == TaskKind::Io || general == 0
            },
            Seat::General(i) => {
                &&& i == next_general % general
                &&& general > 0
                &&& kind == TaskKind::Cpu || io_only == 0
            },
        },
{
}

/// Which queue is served. If a front task has waited longer than the threshold, it
/// is the queue whose front has waited longer, the CPU queue on a tie. Otherwise
/// it is the only queue that holds tasks. Otherwise it is the CPU queue in the first
/// `cpu_weight` ticks of a round and the IO queue in the others.
pub proof fn law_choice_by_age_then_content_then_weight(
    snap: QueueSnapshot,
    policy: PolicyConfig,
    tick: u32,
    period: u32,
    cpu_head: Option<Duration>,
    io_head: Option<Duration>,
)
    ensures
        ({
            let kind = crate::dispatcher::queue_to_serve(
                snap,
                policy,
                tick,
                period,
                cpu_head,
                io_head,
            );
            let limit = policy.aging_threshold_ms * 1_000_000;
            let cpu_late = cpu_head is Some && cpu_head->0.nanos > limit;
            let io_late = io_head is Some && io_head->0.nanos > limit;
            &&& cpu_late && !io_late ==> kind == TaskKind::Cpu
            &&& io_late && !cpu_late ==> kind == TaskKind::Io
            &&& cpu_late && io_late ==> (kind == TaskKind::Cpu <==> cpu_head->0.nanos
                >= io_head->0.nanos)
            &&& !cpu_late && !io_late ==> {
                &&& snap.cpu_len == 0 ==> kind == TaskKind::Io
                &&& snap.cpu_len > 0 && snap.io_len == 0 ==> kind == TaskKind::Cpu
                &&& snap.cpu_len > 0 && snap.io_len > 0 && period > 0 ==> (kind == TaskKind::Cpu
                    <==> tick < policy.cpu_weight)
                &&& snap.cpu_len > 0 && snap.io_len > 0 && period == 0 ==> kind == TaskKind::Io
            }
        }),
{
}

/// What a turn does about the queues as they are: it ends the run if they are
/// drained and closed, waits if they are empty and open, and otherwise serves a
/// queue by the age of the front tasks, then by which queues hold tasks, then by
/// the weights.
pub proof fn law_turn_looks_at_both_queues(
    dispatcher: Dispatcher,
    queues: QueuesModel,
    now: Duration,
)
    requires
        queues.wf(),
        dispatcher.wf(),
    ensures
        ({
            let limit = dispatcher.policy.aging_threshold_ms * 1_000_000;
            let (cpu, io) = (queues.cpu, queues.io);
            let cpu_since = cpu[0].enqueue_time->0.nanos;
            let io_since = io[0].enqueue_time->0.nanos;
            let cpu_late = cpu.len() > 0 && now.nanos - cpu_since > limit;
            let io_late = io.len() > 0 && now.nanos - io_since > limit;
            match dispatcher.decision_on(queues, now) {
                Decision::Finish => cpu.len() == 0 && io.len() == 0 && queues.closed,
                Decision::WaitAgain => cpu.len() == 0 && io.len() == 0 && !queues.closed,
                Decision::Serve(TaskKind::Cpu) => cpu.len() > 0 && {
                    ||| io.len() == 0
                    ||| cpu_late && cpu_since <= io_since
                    ||| !cpu_late && !io_late && dispatcher.tick < dispatcher.policy.cpu_weight
                },
                Decision::Serve(TaskKind::Io) => io.len() > 0 && {
                    ||| cpu.len() == 0
                    ||| io_late && io_since < cpu_since
                    ||| !cpu_late && !io_late && dispatcher.tick >= dispatcher.policy.cpu_weight
                },
            }
        }),
{
    law_decision_finds_a_task(dispatcher, queues, now);
    if queues.cpu.len() > 0 {
        assert(queues.cpu[0].enqueue_time is Some);
    }
    if queues.io.len() > 0 {
        assert(queues.io[0].enqueue_time is Some);
    }
}

/// What is decided on a snapshot: drained and closed queues end the run, empty and open
/// ones are waited for, and otherwise a queue is chosen by the dispatcher's own
/// policy at its own tick.
pub proof fn law_decision_on_a_snapshot(
    dispatcher: Dispatcher,
    snap: QueueSnapshot,
    cpu_head: Option<Duration>,
    io_head: Option<Duration>,
)
    ensures
        snap.cpu_len == 0 && snap.io_len == 0 && snap.closed ==> dispatcher.decision(
            snap,
            cpu_head,
            io_head,
        ) == Decision::Finish,
        snap.cpu_len == 0 && snap.io_len == 0 && !snap.closed ==> dispatcher.decision(
            snap,
            cpu_head,
            io_head,
        ) == Decision::WaitAgain,
        snap.cpu_len > 0 || snap.io_len > 0 ==> dispatcher.decision(snap, cpu_head, io_head)
            == Decision::Serve(
            crate::dispatcher::queue_to_serve(
                snap,
                dispatcher.policy,
                dispatcher.tick,
                dispatcher.period,
                cpu_head,
                io_head,
            ),
        ),
{
}

/// A turn needs a worker only if it takes a task, and room in the statistics only
/// for that.
pub proof fn law_turn_needs_worker_and_room(
    dispatcher: Dispatcher,
    queues: QueuesModel,
    now: Duration,
)
    requires
        queues.wf(),
    ensures
        queues.cpu.len() == 0 && queues.io.len() == 0 ==> dispatcher.steppable(queues, now),
        dispatcher.workers > 0 && queues.samples < u64::MAX && queues.cpu_len_sum
            + queues.cpu.len() <= u64::MAX && queues.io_len_sum + queues.io.len() <= u64::MAX
            ==> dispatcher.steppable(queues, now),
        queues.cpu.len() + queues.io.len() > 0 && dispatcher.workers == 0
            ==> !dispatcher.steppable(queues, now),
{
    law_decision_finds_a_task(dispatcher, queues, now);
}

} // verus!

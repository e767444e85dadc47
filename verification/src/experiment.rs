//! The experiments: what they run, and what is said about them.
use crate::dispatcher::PolicyConfig;
use crate::document::{Document, Piece};
use crate::metrics::{avg_dur, Summary};
use crate::text::{contains, same};
use crate::time::Duration;
use crate::workload::{Fraction, WorkloadConfig};
use vstd::prelude::*;

verus! {

/// Everything that one experiment run needs to know.
#[derive(Debug, Clone, Copy)]
pub struct ExperimentConfig {
    pub workload: WorkloadConfig,
    pub policy: PolicyConfig,
    pub num_workers: usize,
    /// Where the monitor's samples go.
    pub monitor_csv: &'static str,
    /// Where the report goes.
    pub output_file: &'static str,
}

/// The workload of both experiments: a burst of a thousand tasks, 30% of them
/// long CPU tasks and the rest short IO tasks.
pub open spec fn is_burst_workload(workload: WorkloadConfig) -> bool {
    &&& workload.total_tasks == 1000
    &&& workload.cpu_fraction == (Fraction { numerator: 5_404_319_552_844_595, scale: 54 })
    &&& workload.mean_interarrival_ms == (Fraction { numerator: 0, scale: 0 })
    &&& workload.cpu_duration_ms == (300u64, 500u64)
    &&& workload.io_duration_ms == (50u64, 100u64)
    &&& workload.burst
    &&& workload.seed == 0xF1F0_ABCD_F1F0_ABCD
}

fn burst_workload(name: &'static str) -> (workload: WorkloadConfig)
    ensures
        workload.name@ == name@,
        is_burst_workload(workload),
{
    WorkloadConfig {
        name,
        total_tasks: 1000,
        // The double nearest to 0.30.
        cpu_fraction: Fraction { numerator: 5_404_319_552_844_595, scale: 54 },
        // Unused under burst.
        mean_interarrival_ms: Fraction { numerator: 0, scale: 0 },
        cpu_duration_ms: (300, 500),
        io_duration_ms: (50, 100),
        burst: true,
        seed: 0xF1F0_ABCD_F1F0_ABCD,
    }
}

/// The baseline: equal weights, no reservation, aging effectively off.
///
/// With 8 workers and rounds of 2, even workers get only CPU tasks and odd
/// workers only IO tasks, so that half of them idle while the long CPU tasks
/// drain.
pub fn experiment_fifo() -> (cfg: ExperimentConfig)
    ensures
        cfg.workload.name@ == "FIFO simulation"@,
        is_burst_workload(cfg.workload),
        cfg.policy == (PolicyConfig {
            io_reserved_workers: 0,
            cpu_weight: 1,
            io_weight: 1,
            aging_threshold_ms: 9_999_999,
        }),
        cfg.num_workers == 8,
        cfg.monitor_csv@ == "monitor_fifo.csv"@,
        cfg.output_file@ == "fifo_output.txt"@,
{
    ExperimentConfig {
        workload: burst_workload("FIFO simulation"),
        policy: PolicyConfig {
            io_reserved_workers: 0,
            cpu_weight: 1,
            io_weight: 1,
            aging_threshold_ms: 9_999_999,
        },
        num_workers: 8,
        monitor_csv: "monitor_fifo.csv",
        output_file: "fifo_output.txt",
    }
}

/// The same workload in rounds of 3 (CPU, IO, IO), with aging.
///
/// 8 and 3 have no common divisor, so that every worker meets every position of
/// the round and all of them get the same mix.
pub fn experiment_optimized() -> (cfg: ExperimentConfig)
    ensures
        cfg.workload.name@ == "Optimized simulation"@,
        is_burst_workload(cfg.workload),
        cfg.policy == (PolicyConfig {
            io_reserved_workers: 0,
            cpu_weight: 1,
            io_weight: 2,
            aging_threshold_ms: 200,
        }),
        cfg.num_workers == 8,
        cfg.monitor_csv@ == "monitor_optimized.csv"@,
        cfg.output_file@ == "optimized_output.txt"@,
{
    ExperimentConfig {
        workload: burst_workload("Optimized simulation"),
        policy: PolicyConfig {
            io_reserved_workers: 0,
            cpu_weight: 1,
            io_weight: 2,
            aging_threshold_ms: 200,
        },
        num_workers: 8,
        monitor_csv: "monitor_optimized.csv",
        output_file: "optimized_output.txt",
    }
}

/// Both experiments run the identical task stream, so that they differ in the
/// policy alone.
pub proof fn law_experiments_share_the_task_stream(a: WorkloadConfig, b: WorkloadConfig)
    requires
        is_burst_workload(a),
        is_burst_workload(b),
    ensures
        a.drawable(),
        crate::workload::first_draws(a, a.total_tasks as nat) == crate::workload::first_draws(
            b,
            b.total_tasks as nat,
        ),
{
    crate::workload_laws::law_seed_decides_draws(a, b, a.total_tasks as nat);
}

/// Which experiments to run.
#[derive(Debug, Clone, Copy, PartialEq, Eq, Structural)]
pub struct Selection {
    pub fifo: bool,
    pub optimized: bool,
    /// The argument names no experiment.
    pub unknown: bool,
}

/// The experiments that a command-line argument asks for; without one, all.
pub fn select_experiments(which: Option<&str>) -> (selection: Selection)
    ensures
        match which {
            None => selection == (Selection { fifo: true, optimized: true, unknown: false }),
            Some(w) => {
                &&& selection.fifo == (w@ == "fifo"@ || w@ == "all"@)
                &&& selection.optimized == (w@ == "optimized"@ || w@ == "all"@)
                &&& selection.unknown == !(selection.fifo || selection.optimized)
            },
        },
{
    match which {
        None => Selection { fifo: true, optimized: true, unknown: false },
        Some(w) => {
            let all: bool = same(w, "all");
            let fifo: bool = all || same(w, "fifo");
            let optimized: bool = all || same(w, "optimized");
            Selection { fifo, optimized, unknown: !(fifo || optimized) }
        },
    }
}

/// How long the generator still has to wait at `now` before it pushes a task
/// that is due at `arrival_offset`. `None` means that it is due already.
pub fn delay_until_due(arrival_offset: Duration, now: Duration) -> (delay: Option<Duration>)
    ensures
        delay is Some <==> arrival_offset.nanos > now.nanos,
        delay matches Some(d) ==> d.nanos == arrival_offset.nanos - now.nanos,
{
    if arrival_offset.nanos > now.nanos {
        Some(arrival_offset.since(now))
    } else {
        None
    }
}

/// What is printed before a run.
pub open spec fn announcement_model(cfg: ExperimentConfig) -> Seq<crate::document::PieceModel> {
    Seq::<crate::document::PieceModel>::empty() + crate::document::framed(
        "\n>>> Running "@,
        Piece::Text(cfg.workload.name@),
        "\n"@,
    ) + crate::document::framed(
        "    tasks: "@,
        crate::document::plain(cfg.workload.total_tasks as u128),
        "\n"@,
    ) + crate::document::framed(
        "    workers: "@,
        crate::document::plain(cfg.num_workers as u128),
        "\n"@,
    ) + crate::document::framed(
        "    cpu_fraction: "@,
        Piece::Share { fraction: cfg.workload.cpu_fraction, rest: false, rounded: true },
        "% CPU / "@,
    ) + crate::document::framed(
        ""@,
        Piece::Share { fraction: cfg.workload.cpu_fraction, rest: true, rounded: true },
        "% IO\n"@,
    ) + crate::document::framed(
        "    policy: io_reserved="@,
        crate::document::plain(cfg.policy.io_reserved_workers as u128),
        ", cpu_weight="@,
    ) + crate::document::framed(
        ""@,
        crate::document::plain(cfg.policy.cpu_weight as u128),
        ", io_weight="@,
    ) + crate::document::framed(
        ""@,
        crate::document::plain(cfg.policy.io_weight as u128),
        ", aging="@,
    ) + crate::document::framed(
        ""@,
        crate::document::plain(cfg.policy.aging_threshold_ms as u128),
        "ms\n"@,
    )
}

/// What is printed before a run.
pub fn announcement(cfg: &ExperimentConfig) -> (doc: Document)
    ensures
        doc@ == announcement_model(*cfg),
{
    let mut doc: Document = Document::empty();
    doc.frame("\n>>> Running ", Piece::Text(cfg.workload.name.to_owned()), "\n");
    doc.frame(
        "    tasks: ",
        Piece::Count { value: cfg.workload.total_tasks as u128, width: 0 },
        "\n",
    );
    doc.frame("    workers: ", Piece::Count { value: cfg.num_workers as u128, width: 0 }, "\n");
    doc.frame(
        "    cpu_fraction: ",
        Piece::Share { fraction: cfg.workload.cpu_fraction, rest: false, rounded: true },
        "% CPU / ",
    );
    doc.frame(
        "",
        Piece::Share { fraction: cfg.workload.cpu_fraction, rest: true, rounded: true },
        "% IO\n",
    );
    doc.frame(
        "    policy: io_reserved=",
        Piece::Count { value: cfg.policy.io_reserved_workers as u128, width: 0 },
        ", cpu_weight=",
    );
    doc.frame(
        "",
        Piece::Count { value: cfg.policy.cpu_weight as u128, width: 0 },
        ", io_weight=",
    );
    doc.frame("", Piece::Count { value: cfg.policy.io_weight as u128, width: 0 }, ", aging=");
    doc.frame(
        "",
        Piece::Count { value: cfg.policy.aging_threshold_ms as u128, width: 0 },
        "ms\n",
    );
    doc
}

/// An experiment is read as the baseline if its name says so.
pub open spec fn is_baseline(name: Seq<char>) -> bool {
    exists|at: int| crate::text::occurs_at(name, "FIFO"@, at)
}

/// What is said about the outcome of a run.
pub open spec fn interpretation_model(
    name: Seq<char>,
    avg_wait: Duration,
) -> Seq<crate::document::PieceModel> {
    let top = Seq::<crate::document::PieceModel>::empty().push(Piece::Text("\n"@)).push(
        Piece::Text("Interpretation:\n"@),
    );
    if is_baseline(name) {
        top + crate::document::framed(
            "  With equal-weight dispatch, long CPU tasks (avg ~400 ms) and short IO\n  tasks (avg ~75 ms) are treated identically. CPU tasks hold workers for\n  5× as long as IO tasks, so short IO work piles up behind them — classic\n  head-of-line blocking. Avg wait across all tasks was "@,
            crate::document::millis(avg_wait, 1),
            " ms.\n"@,
        )
    } else {
        top + crate::document::framed(
            "  Dispatching IO tasks at 3× the CPU rate drains the short-IO queue fast,\n  cutting head-of-line blocking. Aging at 200 ms prevents CPU starvation\n  once the IO queue runs low. Together these reduce avg wait to "@,
            crate::document::millis(avg_wait, 1),
            " ms\n  and shorten makespan compared to the FIFO baseline.\n"@,
        )
    }
}

/// What is said about the outcome of the run `summary` of an experiment.
pub fn interpretation(cfg: &ExperimentConfig, summary: &Summary) -> (doc: Document)
    requires
        crate::time::total_nanos(crate::metrics::waits(summary.completions@))
            <= crate::time::MAX_NANOS,
        crate::metrics::averageable(summary.completions@.len()),
    ensures
        doc@ == interpretation_model(
            cfg.workload.name@,
            Duration {
                nanos: crate::metrics::avg_nanos(
                    crate::metrics::waits(summary.completions@),
                ) as u128,
            },
        ),
{
    let avg_wait: Duration = avg_dur(&crate::metrics::collect_waits(&summary.completions));
    let mut doc: Document = Document::empty();
    doc.text("\n");
    doc.text("Interpretation:\n");
    if contains(cfg.workload.name, "FIFO") {
        doc.frame(
            "  With equal-weight dispatch, long CPU tasks (avg ~400 ms) and short IO\n  tasks (avg ~75 ms) are treated identically. CPU tasks hold workers for\n  5× as long as IO tasks, so short IO work piles up behind them — classic\n  head-of-line blocking. Avg wait across all tasks was ",
            Piece::Millis { span: avg_wait, places: 1, width: 0 },
            " ms.\n",
        );
    } else {
        doc.frame(
            "  Dispatching IO tasks at 3× the CPU rate drains the short-IO queue fast,\n  cutting head-of-line blocking. Aging at 200 ms prevents CPU starvation\n  once the IO queue runs low. Together these reduce avg wait to ",
            Piece::Millis { span: avg_wait, places: 1, width: 0 },
            " ms\n  and shorten makespan compared to the FIFO baseline.\n",
        );
    }
    doc
}

/// The workload of both experiments makes a CPU task of three draws in ten, and draws
/// 300 to 499 ms for it and 50 to 99 ms for an IO task. All 1000 tasks come at once.
pub proof fn law_burst_workload_mix(workload: WorkloadConfig, word: u64)
    requires
        is_burst_workload(workload),
    ensures
        crate::workload::kind_for(word, workload.cpu_fraction) == crate::task::TaskKind::Cpu
            <==> 10 * (word / 2048) < 3 * 0x20_0000_0000_0000,
        workload.total_tasks == 1000,
        workload.burst,
        workload.cpu_duration_ms == (300u64, 500u64),
        workload.io_duration_ms == (50u64, 100u64),
        workload.seed == 17_433_623_058_566_917_069,
        workload.mean_interarrival_ms.numerator == 0,
        workload.drawable(),
{
    vstd::arithmetic::power2::lemma_pow2_adds(53, 1);
    vstd::arithmetic::power2::lemma2_to64();
    vstd::arithmetic::power2::lemma2_to64_rest();
    let n = (word / 2048) as int;
    assert(n * (2 * 0x20_0000_0000_0000) < 5_404_319_552_844_595 * 0x20_0000_0000_0000 <==> 10 * n
        < 3 * 0x20_0000_0000_0000) by (nonlinear_arith);
}

/// The announcement gives name, tasks, workers, the mix in rounded percent and the
/// policy, each behind its own label.
pub proof fn law_announcement_lines(cfg: ExperimentConfig)
    ensures
        announcement_model(cfg) == seq![
            Piece::Text("\n>>> Running "@),
            Piece::Text(cfg.workload.name@),
            Piece::Text("\n"@),
            Piece::Text("    tasks: "@),
            Piece::Count { value: cfg.workload.total_tasks as u128, width: 0 },
            Piece::Text("\n"@),
            Piece::Text("    workers: "@),
            Piece::Count { value: cfg.num_workers as u128, width: 0 },
            Piece::Text("\n"@),
            Piece::Text("    cpu_fraction: "@),
            Piece::Share { fraction: cfg.workload.cpu_fraction, rest: false, rounded: true },
            Piece::Text("% CPU / "@),
            Piece::Text(""@),
            Piece::Share { fraction: cfg.workload.cpu_fraction, rest: true, rounded: true },
            Piece::Text("% IO\n"@),
            Piece::Text("    policy: io_reserved="@),
            Piece::Count { value: cfg.policy.io_reserved_workers as u128, width: 0 },
            Piece::Text(", cpu_weight="@),
            Piece::Text(""@),
            Piece::Count { value: cfg.policy.cpu_weight as u128, width: 0 },
            Piece::Text(", io_weight="@),
            Piece::Text(""@),
            Piece::Count { value: cfg.policy.io_weight as u128, width: 0 },
            Piece::Text(", aging="@),
            Piece::Text(""@),
            Piece::Count { value: cfg.policy.aging_threshold_ms as u128, width: 0 },
            Piece::Text("ms\n"@),
        ],
{
}

/// An experiment counts as the baseline exactly if "FIFO" stands somewhere in its name.
/// Its interpretation speaks of equal weights, that of any other of the faster IO
/// queue; either gives the mean wait with one decimal.
pub proof fn law_interpretation_lines(name: Seq<char>, avg_wait: Duration)
    ensures
        (exists|before: Seq<char>, after: Seq<char>| name == #[trigger] (before + "FIFO"@ + after))
            ==> interpretation_model(name, avg_wait) == seq![
            Piece::Text("\n"@),
            Piece::Text("Interpretation:\n"@),
            Piece::Text("  With equal-weight dispatch, long CPU tasks (avg ~400 ms) and short IO\n  tasks (avg ~75 ms) are treated identically. CPU tasks hold workers for\n  5× as long as IO tasks, so short IO work piles up behind them — classic\n  head-of-line blocking. Avg wait across all tasks was "@),
            Piece::Millis { span: avg_wait, places: 1, width: 0 },
            Piece::Text(" ms.\n"@),
        ],
        !(exists|before: Seq<char>, after: Seq<char>| name == #[trigger] (before + "FIFO"@ + after))
            ==> interpretation_model(name, avg_wait) == seq![
            Piece::Text("\n"@),
            Piece::Text("Interpretation:\n"@),
            Piece::Text("  Dispatching IO tasks at 3× the CPU rate drains the short-IO queue fast,\n  cutting head-of-line blocking. Aging at 200 ms prevents CPU starvation\n  once the IO queue runs low. Together these reduce avg wait to "@),
            Piece::Millis { span: avg_wait, places: 1, width: 0 },
            Piece::Text(" ms\n  and shorten makespan compared to the FIFO baseline.\n"@),
        ],
{
    if exists|before: Seq<char>, after: Seq<char>| name == #[trigger] (before + "FIFO"@ + after) {
        let (before, after) = choose|before: Seq<char>, after: Seq<char>|
            name == #[trigger] (before + "FIFO"@ + after);
        crate::text::law_pattern_is_found_where_it_was_put(before, "FIFO"@, after);
        assert(is_baseline(name));
    }
    if is_baseline(name) {
        let at = choose|at: int| crate::text::occurs_at(name, "FIFO"@, at);
        crate::text::law_occurrence_splits_the_text(name, "FIFO"@, at);
        assert(name == name.take(at) + "FIFO"@ + name.skip(at + "FIFO"@.len()));
    }
}

} // verus!

//! The report at the end of a run.
use crate::document::{Document, Piece};
use crate::metrics::{Rollup, Summary, WorkerBusy};
use crate::monitor::MonitorStats;
use crate::queues::{Average, QueueStats};
use crate::time::Duration;
use crate::workload::Fraction;
use vstd::prelude::*;

verus! {

/// A whole number without padding.
fn count(value: u128) -> (piece: Piece<String>)
    ensures
        piece@ == crate::document::plain(value),
{
    Piece::Count { value, width: 0 }
}

/// A span in milliseconds without padding.
fn ms(span: Duration, places: usize) -> (piece: Piece<String>)
    ensures
        piece@ == crate::document::millis(span, places),
{
    Piece::Millis { span, places, width: 0 }
}

/// A mean with two decimals.
fn mean(average: Average) -> (piece: Piece<String>)
    ensures
        piece@ == crate::document::mean(average),
{
    if average.count == 0 {
        Piece::Text("0.00".to_owned())
    } else {
        Piece::Mean { average, places: 2 }
    }
}

/// How busy all workers together were over the run, in percent; 0 if the run
/// took no time or there are no workers.
pub open spec fn utilization(
    total_busy: Duration,
    makespan: Duration,
    num_workers: usize,
) -> crate::document::PieceModel {
    if makespan.nanos == 0 || num_workers == 0 {
        Piece::Text("0.0"@)
    } else {
        Piece::Percent { part: total_busy, whole: makespan, times: num_workers, places: 1, width: 0 }
    }
}

/// The figure of [`utilization`].
fn utilization_piece(total_busy: Duration, makespan: Duration, num_workers: usize) -> (piece: Piece<
    String,
>)
    ensures
        piece@ == utilization(total_busy, makespan, num_workers),
{
    if makespan.nanos == 0 || num_workers == 0 {
        Piece::Text("0.0".to_owned())
    } else {
        Piece::Percent { part: total_busy, whole: makespan, times: num_workers, places: 1, width: 0 }
    }
}

/// How busy one worker was over the run, in percent; 0 if the run took no time.
pub open spec fn worker_share(busy: Duration, makespan: Duration) -> crate::document::PieceModel {
    if makespan.nanos == 0 {
        Piece::Text("  0.0"@)
    } else {
        Piece::Percent { part: busy, whole: makespan, times: 1, places: 1, width: 5 }
    }
}

/// The figure of [`worker_share`].
fn worker_share_piece(busy: Duration, makespan: Duration) -> (piece: Piece<String>)
    ensures
        piece@ == worker_share(busy, makespan),
{
    if makespan.nanos == 0 {
        Piece::Text("  0.0".to_owned())
    } else {
        Piece::Percent { part: busy, whole: makespan, times: 1, places: 1, width: 5 }
    }
}

/// What the report says if nothing was completed.
pub open spec fn empty_report(label: Seq<char>) -> Seq<crate::document::PieceModel> {
    seq![Piece::Text("["@), Piece::Text(label), Piece::Text("] No tasks completed.\n"@)]
}

/// The headline: label, number of tasks, their mix and the number of workers.
pub open spec fn with_header(
    doc: Seq<crate::document::PieceModel>,
    label: Seq<char>,
    total_tasks: u64,
    cpu_fraction: Fraction,
    num_workers: usize,
) -> Seq<crate::document::PieceModel> {
    doc + crate::document::framed("== "@, Piece::Text(label), " ==\n"@)
        + crate::document::framed(
        ""@,
        crate::document::plain(total_tasks as u128),
        " tasks, "@,
    ) + crate::document::framed(
        ""@,
        Piece::Share { fraction: cpu_fraction, rest: true, rounded: false },
        "% IO / "@,
    ) + crate::document::framed(
        ""@,
        Piece::Share { fraction: cpu_fraction, rest: false, rounded: false },
        "% CPU, "@,
    ) + crate::document::framed(""@, crate::document::plain(num_workers as u128), " workers\n"@)
}

fn put_header(
    doc: &mut Document,
    label: &str,
    total_tasks: u64,
    cpu_fraction: Fraction,
    num_workers: usize,
)
    ensures
        final(doc)@ == with_header(old(doc)@, label@, total_tasks, cpu_fraction, num_workers),
{
    doc.frame("== ", Piece::Text(label.to_owned()), " ==\n");
    doc.frame("", count(total_tasks as u128), " tasks, ");
    doc.frame(
        "",
        Piece::Share { fraction: cpu_fraction, rest: true, rounded: false },
        "% IO / ",
    );
    doc.frame(
        "",
        Piece::Share { fraction: cpu_fraction, rest: false, rounded: false },
        "% CPU, ",
    );
    doc.frame("", count(num_workers as u128), " workers\n");
}

/// Run time, completed tasks and waiting times.
pub open spec fn with_times(
    doc: Seq<crate::document::PieceModel>,
    makespan: Duration,
    completed: nat,
    figures: Rollup,
) -> Seq<crate::document::PieceModel> {
    let makespan_ms = crate::document::plain(makespan.nanos / 1_000_000);
    doc.push(Piece::Text("\n"@)).push(Piece::Text("— results —\n"@)) + crate::document::framed(
        "total runtime        : "@,
        makespan_ms,
        " ms\n"@,
    ) + crate::document::framed("makespan             : "@, makespan_ms, " ms\n"@)
        + crate::document::framed(
        "tasks completed      : "@,
        crate::document::plain(completed as u128),
        "  (IO="@,
    ) + crate::document::framed(
        ""@,
        crate::document::plain(figures.io_completed as u128),
        ", CPU="@,
    ) + crate::document::framed(
        ""@,
        crate::document::plain(figures.cpu_completed as u128),
        ")\n"@,
    ) + crate::document::framed(
        "avg wait time        : "@,
        crate::document::millis(figures.avg_wait, 2),
        " ms\n"@,
    ) + crate::document::framed(
        "avg wait (IO only)   : "@,
        crate::document::millis(figures.avg_wait_io, 2),
        " ms\n"@,
    ) + crate::document::framed(
        "avg wait (CPU only)  : "@,
        crate::document::millis(figures.avg_wait_cpu, 2),
        " ms\n"@,
    ) + crate::document::framed(
        "avg turnaround time  : "@,
        crate::document::millis(figures.avg_turnaround, 2),
        " ms\n"@,
    ) + crate::document::framed(
        "max wait time        : "@,
        crate::document::millis(figures.max_wait, 0),
        " ms  (task #"@,
    ) + crate::document::framed(
        ""@,
        crate::document::plain(figures.max_wait_task as u128),
        ")\n"@,
    )
}

fn put_times(doc: &mut Document, makespan: Duration, completed: usize, figures: &Rollup)
    ensures
        final(doc)@ == with_times(old(doc)@, makespan, completed as nat, *figures),
{
    let makespan_ms: u128 = makespan.as_millis();
    doc.text("\n");
    doc.text("— results —\n");
    doc.frame("total runtime        : ", count(makespan_ms), " ms\n");
    doc.frame("makespan             : ", count(makespan_ms), " ms\n");
    doc.frame("tasks completed      : ", count(completed as u128), "  (IO=");
    doc.frame("", count(figures.io_completed as u128), ", CPU=");
    doc.frame("", count(figures.cpu_completed as u128), ")\n");
    doc.frame("avg wait time        : ", ms(figures.avg_wait, 2), " ms\n");
    doc.frame("avg wait (IO only)   : ", ms(figures.avg_wait_io, 2), " ms\n");
    doc.frame("avg wait (CPU only)  : ", ms(figures.avg_wait_cpu, 2), " ms\n");
    doc.frame("avg turnaround time  : ", ms(figures.avg_turnaround, 2), " ms\n");
    doc.frame("max wait time        : ", ms(figures.max_wait, 0), " ms  (task #");
    doc.frame("", count(figures.max_wait_task as u128), ")\n");
}

/// How much of the machine and of the workers was used.
pub open spec fn with_usage(
    doc: Seq<crate::document::PieceModel>,
    monitor: MonitorStats,
    num_workers: usize,
    total_busy: Duration,
    makespan: Duration,
) -> Seq<crate::document::PieceModel> {
    doc + crate::document::framed(
        "avg CPU usage        : "@,
        Piece::Binary64 { bits: monitor.avg_cpu_pct, places: 2 },
        " %\n"@,
    ) + crate::document::framed(
        "avg workers active   : "@,
        crate::document::mean(monitor.avg_active_workers),
        " / "@,
    ) + crate::document::framed(""@, crate::document::plain(num_workers as u128), "\n"@)
        + crate::document::framed(
        "worker utilization   : "@,
        utilization(total_busy, makespan, num_workers),
        " %\n"@,
    ) + crate::document::framed(
        "monitor samples      : "@,
        crate::document::plain(monitor.sample_count as u128),
        "\n"@,
    ) + crate::document::framed(
        "monitor csv          : "@,
        Piece::Text(monitor.csv_path@),
        "\n"@,
    )
}

fn put_usage(
    doc: &mut Document,
    monitor: &MonitorStats,
    num_workers: usize,
    total_busy: Duration,
    makespan: Duration,
)
    ensures
        final(doc)@ == with_usage(old(doc)@, *monitor, num_workers, total_busy, makespan),
{
    doc.frame(
        "avg CPU usage        : ",
        Piece::Binary64 { bits: monitor.avg_cpu_pct, places: 2 },
        " %\n",
    );
    doc.frame(
        "avg workers active   : ",
        mean(monitor.avg_active_workers),
        " / ",
    );
    doc.frame("", count(num_workers as u128), "\n");
    doc.frame(
        "worker utilization   : ",
        utilization_piece(total_busy, makespan, num_workers),
        " %\n",
    );
    doc.frame("monitor samples      : ", count(monitor.sample_count as u128), "\n");
    doc.frame(
        "monitor csv          : ",
        Piece::Text(monitor.csv_path.as_str().to_owned()),
        "\n",
    );
}

/// Queue lengths and the fairness gap.
pub open spec fn with_queues(
    doc: Seq<crate::document::PieceModel>,
    stats: QueueStats,
    fairness_gap: Duration,
) -> Seq<crate::document::PieceModel> {
    doc.push(Piece::Text("\n"@)).push(Piece::Text("— queue statistics —\n"@))
        + crate::document::framed(
        "CPU queue  max / avg : "@,
        crate::document::plain(stats.cpu_max_len as u128),
        " / "@,
    ) + crate::document::framed(
        ""@,
        crate::document::mean(stats.cpu_avg_len),
        "\n"@,
    ) + crate::document::framed(
        "IO  queue  max / avg : "@,
        crate::document::plain(stats.io_max_len as u128),
        " / "@,
    ) + crate::document::framed(""@, crate::document::mean(stats.io_avg_len), "\n"@)
        + crate::document::framed(
        "fairness gap         : "@,
        crate::document::millis(fairness_gap, 2),
        " ms  (|avg_wait_CPU - avg_wait_IO|)\n"@,
    )
}

fn put_queues(doc: &mut Document, stats: QueueStats, fairness_gap: Duration)
    ensures
        final(doc)@ == with_queues(old(doc)@, stats, fairness_gap),
{
    doc.text("\n");
    doc.text("— queue statistics —\n");
    doc.frame("CPU queue  max / avg : ", count(stats.cpu_max_len as u128), " / ");
    doc.frame("", mean(stats.cpu_avg_len), "\n");
    doc.frame("IO  queue  max / avg : ", count(stats.io_max_len as u128), " / ");
    doc.frame("", mean(stats.io_avg_len), "\n");
    doc.frame(
        "fairness gap         : ",
        ms(fairness_gap, 2),
        " ms  (|avg_wait_CPU - avg_wait_IO|)\n",
    );
}

/// The line of one worker: its number, its busy time and the share of the run.
pub open spec fn worker_line(
    doc: Seq<crate::document::PieceModel>,
    worker: WorkerBusy,
    makespan: Duration,
) -> Seq<crate::document::PieceModel> {
    doc + crate::document::framed(
        "  worker "@,
        Piece::Count { value: worker.worker_id as u128, width: 2 },
        "          : "@,
    ) + crate::document::framed(
        ""@,
        Piece::Millis { span: worker.total_busy, places: 2, width: 8 },
        " ms ("@,
    ) + crate::document::framed(
        ""@,
        worker_share(worker.total_busy, makespan),
        "%)\n"@,
    )
}

/// The lines of several workers, one below the other.
pub open spec fn worker_lines(
    doc: Seq<crate::document::PieceModel>,
    workers: Seq<WorkerBusy>,
    makespan: Duration,
) -> Seq<crate::document::PieceModel>
    decreases workers.len(),
{
    if workers.len() == 0 {
        doc
    } else {
        worker_line(worker_lines(doc, workers.drop_last(), makespan), workers.last(), makespan)
    }
}

/// The busy time of each worker.
pub open spec fn with_workers(
    doc: Seq<crate::document::PieceModel>,
    workers: Seq<WorkerBusy>,
    makespan: Duration,
) -> Seq<crate::document::PieceModel> {
    worker_lines(
        doc.push(Piece::Text("\n"@)).push(Piece::Text("— per-worker busy time —\n"@)),
        workers,
        makespan,
    )
}

fn put_workers(doc: &mut Document, workers: &Vec<WorkerBusy>, makespan: Duration)
    ensures
        final(doc)@ == with_workers(old(doc)@, workers@, makespan),
{
    doc.text("\n");
    doc.text("— per-worker busy time —\n");
    let ghost top = doc@;
    assert(workers@.take(0) =~= Seq::<WorkerBusy>::empty());
    for i in 0..workers.len()
        invariant
            doc@ == worker_lines(top, workers@.take(i as int), makespan),
    {
        let worker: WorkerBusy = workers[i];
        assert(workers@.take(i + 1).drop_last() =~= workers@.take(i as int));
        doc.frame(
            "  worker ",
            Piece::Count { value: worker.worker_id as u128, width: 2 },
            "          : ",
        );
        doc.frame("", Piece::Millis { span: worker.total_busy, places: 2, width: 8 }, " ms (");
        doc.frame("", worker_share_piece(worker.total_busy, makespan), "%)\n");
    }
    assert(workers@.take(workers@.len() as int) =~= workers@);
}

impl Summary {
    /// The content of the report.
    pub open spec fn report_model(
        &self,
        num_workers: usize,
        queue_stats: QueueStats,
        label: Seq<char>,
        monitor: MonitorStats,
        cpu_fraction: Fraction,
        total_tasks: u64,
    ) -> Seq<crate::document::PieceModel> {
        if self.completions@.len() == 0 {
            empty_report(label)
        } else {
            let figures = self.figures();
            let header = with_header(
                Seq::empty(),
                label,
                total_tasks,
                cpu_fraction,
                num_workers,
            );
            let times = with_times(header, self.makespan, self.completions@.len(), figures);
            let usage = with_usage(
                times,
                monitor,
                num_workers,
                figures.total_busy,
                self.makespan,
            );
            let queues = with_queues(usage, queue_stats, figures.fairness_gap);
            with_workers(queues, crate::sorting::stable_order(self.worker_busy@), self.makespan)
        }
    }

    /// The report of a run.
    pub fn report(
        &self,
        num_workers: usize,
        queue_stats: QueueStats,
        label: &str,
        monitor: &MonitorStats,
        cpu_fraction: Fraction,
        total_tasks: u64,
    ) -> (doc: Document)
        requires
            self.reportable(),
        ensures
            doc@ == self.report_model(
                num_workers,
                queue_stats,
                label@,
                *monitor,
                cpu_fraction,
                total_tasks,
            ),
    {
        let mut doc: Document = Document::empty();
        if self.completions.len() == 0 {
            doc.text("[");
            doc.text(label);
            doc.text("] No tasks completed.\n");
            return doc;
        }
        let figures: Rollup = self.rollup();
        put_header(&mut doc, label, total_tasks, cpu_fraction, num_workers);
        put_times(&mut doc, self.makespan, self.completions.len(), &figures);
        put_usage(&mut doc, monitor, num_workers, figures.total_busy, self.makespan);
        put_queues(&mut doc, queue_stats, figures.fairness_gap);
        let sorted: Vec<WorkerBusy> = self.workers_in_order();
        put_workers(&mut doc, &sorted, self.makespan);
        doc
    }
}

proof fn lemma_worker_lines_defined(
    doc: Seq<crate::document::PieceModel>,
    workers: Seq<WorkerBusy>,
    makespan: Duration,
)
    requires
        crate::document::all_defined(doc),
    ensures
        crate::document::all_defined(worker_lines(doc, workers, makespan)),
    decreases workers.len(),
{
    if workers.len() > 0 {
        lemma_worker_lines_defined(doc, workers.drop_last(), makespan);
    }
}

/// No figure of a report divides by zero, however short the run, however few the
/// workers, samples and queue movements.
pub proof fn law_report_figures_are_defined(
    summary: Summary,
    num_workers: usize,
    queue_stats: QueueStats,
    label: Seq<char>,
    monitor: MonitorStats,
    cpu_fraction: Fraction,
    total_tasks: u64,
)
    ensures
        crate::document::all_defined(
            summary.report_model(
                num_workers,
                queue_stats,
                label,
                monitor,
                cpu_fraction,
                total_tasks,
            ),
        ),
{
    if summary.completions@.len() > 0 {
        let figures = summary.figures();
        let header = with_header(Seq::empty(), label, total_tasks, cpu_fraction, num_workers);
        let times = with_times(header, summary.makespan, summary.completions@.len(), figures);
        let usage = with_usage(
            times,
            monitor,
            num_workers,
            figures.total_busy,
            summary.makespan,
        );
        let queues = with_queues(usage, queue_stats, figures.fairness_gap);
        assert(crate::document::all_defined(header));
        assert(crate::document::all_defined(times));
        assert(crate::document::all_defined(usage));
        assert(crate::document::all_defined(queues));
        lemma_worker_lines_defined(
            queues.push(Piece::Text("\n"@)).push(Piece::Text("— per-worker busy time —\n"@)),
            crate::sorting::stable_order(summary.worker_busy@),
            summary.makespan,
        );
    }
}

/// The headline gives the label, the number of tasks, the share of IO and of CPU tasks
/// in whole percent, cut off, and the number of workers.
pub proof fn law_header_lines(
    doc: Seq<crate::document::PieceModel>,
    label: Seq<char>,
    total_tasks: u64,
    cpu_fraction: Fraction,
    num_workers: usize,
)
    ensures
        with_header(doc, label, total_tasks, cpu_fraction, num_workers) == doc + seq![
            Piece::Text("== "@),
            Piece::Text(label),
            Piece::Text(" ==\n"@),
            Piece::Text(""@),
            Piece::Count { value: total_tasks as u128, width: 0 },
            Piece::Text(" tasks, "@),
            Piece::Text(""@),
            Piece::Share { fraction: cpu_fraction, rest: true, rounded: false },
            Piece::Text("% IO / "@),
            Piece::Text(""@),
            Piece::Share { fraction: cpu_fraction, rest: false, rounded: false },
            Piece::Text("% CPU, "@),
            Piece::Text(""@),
            Piece::Count { value: num_workers as u128, width: 0 },
            Piece::Text(" workers\n"@),
        ],
{
}

/// The results give the run time in whole milliseconds, the completed tasks, in all
/// and by kind, and the waits and turnarounds with two decimals, each behind its own
/// label. The longest wait comes without decimals and with its task.
pub proof fn law_times_lines(
    doc: Seq<crate::document::PieceModel>,
    makespan: Duration,
    completed: nat,
    figures: Rollup,
)
    ensures
        with_times(doc, makespan, completed, figures) == doc + seq![
            Piece::Text("\n"@),
            Piece::Text("— results —\n"@),
            Piece::Text("total runtime        : "@),
            Piece::Count { value: makespan.nanos / 1_000_000, width: 0 },
            Piece::Text(" ms\n"@),
            Piece::Text("makespan             : "@),
            Piece::Count { value: makespan.nanos / 1_000_000, width: 0 },
            Piece::Text(" ms\n"@),
            Piece::Text("tasks completed      : "@),
            Piece::Count { value: completed as u128, width: 0 },
            Piece::Text("  (IO="@),
            Piece::Text(""@),
            Piece::Count { value: figures.io_completed as u128, width: 0 },
            Piece::Text(", CPU="@),
            Piece::Text(""@),
            Piece::Count { value: figures.cpu_completed as u128, width: 0 },
            Piece::Text(")\n"@),
            Piece::Text("avg wait time        : "@),
            Piece::Millis { span: figures.avg_wait, places: 2, width: 0 },
            Piece::Text(" ms\n"@),
            Piece::Text("avg wait (IO only)   : "@),
            Piece::Millis { span: figures.avg_wait_io, places: 2, width: 0 },
            Piece::Text(" ms\n"@),
            Piece::Text("avg wait (CPU only)  : "@),
            Piece::Millis { span: figures.avg_wait_cpu, places: 2, width: 0 },
            Piece::Text(" ms\n"@),
            Piece::Text("avg turnaround time  : "@),
            Piece::Millis { span: figures.avg_turnaround, places: 2, width: 0 },
            Piece::Text(" ms\n"@),
            Piece::Text("max wait time        : "@),
            Piece::Millis { span: figures.max_wait, places: 0, width: 0 },
            Piece::Text(" ms  (task #"@),
            Piece::Text(""@),
            Piece::Count { value: figures.max_wait_task as u128, width: 0 },
            Piece::Text(")\n"@),
        ],
{
}

/// The usage lines give the mean CPU usage, the mean number of active workers, how
/// busy the workers were of the time that they had, and where the samples are. What
/// would be divided by zero is given as zero.
pub proof fn law_usage_lines(
    doc: Seq<crate::document::PieceModel>,
    monitor: MonitorStats,
    num_workers: usize,
    total_busy: Duration,
    makespan: Duration,
)
    ensures
        with_usage(doc, monitor, num_workers, total_busy, makespan) == doc + seq![
            Piece::Text("avg CPU usage        : "@),
            Piece::Binary64 { bits: monitor.avg_cpu_pct, places: 2 },
            Piece::Text(" %\n"@),
            Piece::Text("avg workers active   : "@),
            if monitor.avg_active_workers.count == 0 {
                Piece::Text("0.00"@)
            } else {
                Piece::Mean { average: monitor.avg_active_workers, places: 2 }
            },
            Piece::Text(" / "@),
            Piece::Text(""@),
            Piece::Count { value: num_workers as u128, width: 0 },
            Piece::Text("\n"@),
            Piece::Text("worker utilization   : "@),
            if makespan.nanos == 0 || num_workers == 0 {
                Piece::Text("0.0"@)
            } else {
                Piece::Percent { part: total_busy, whole: makespan, times: num_workers, places: 1, width: 0 }
            },
            Piece::Text(" %\n"@),
            Piece::Text("monitor samples      : "@),
            Piece::Count { value: monitor.sample_count as u128, width: 0 },
            Piece::Text("\n"@),
            Piece::Text("monitor csv          : "@),
            Piece::Text(monitor.csv_path@),
            Piece::Text("\n"@),
        ],
{
}

/// The queue lines give the longest and the mean length of either queue, and the gap
/// between the waits of the two kinds.
pub proof fn law_queue_lines(
    doc: Seq<crate::document::PieceModel>,
    stats: QueueStats,
    fairness_gap: Duration,
)
    ensures
        with_queues(doc, stats, fairness_gap) == doc + seq![
            Piece::Text("\n"@),
            Piece::Text("— queue statistics —\n"@),
            Piece::Text("CPU queue  max / avg : "@),
            Piece::Count { value: stats.cpu_max_len as u128, width: 0 },
            Piece::Text(" / "@),
            Piece::Text(""@),
            if stats.cpu_avg_len.count == 0 {
                Piece::Text("0.00"@)
            } else {
                Piece::Mean { average: stats.cpu_avg_len, places: 2 }
            },
            Piece::Text("\n"@),
            Piece::Text("IO  queue  max / avg : "@),
            Piece::Count { value: stats.io_max_len as u128, width: 0 },
            Piece::Text(" / "@),
            Piece::Text(""@),
            if stats.io_avg_len.count == 0 {
                Piece::Text("0.00"@)
            } else {
                Piece::Mean { average: stats.io_avg_len, places: 2 }
            },
            Piece::Text("\n"@),
            Piece::Text("fairness gap         : "@),
            Piece::Millis { span: fairness_gap, places: 2, width: 0 },
            Piece::Text(" ms  (|avg_wait_CPU - avg_wait_IO|)\n"@),
        ],
{
}

/// There is one line of nine pieces per worker, in the order given: its number, its
/// busy time in milliseconds and its share of the run, padded to columns.
pub proof fn law_worker_lines(
    doc: Seq<crate::document::PieceModel>,
    workers: Seq<WorkerBusy>,
    makespan: Duration,
    i: int,
)
    requires
        0 <= i < workers.len(),
    ensures
        worker_lines(doc, workers, makespan).len() == doc.len() + 9 * workers.len(),
        worker_lines(doc, workers, makespan).take(doc.len() as int) == doc,
        worker_lines(doc, workers, makespan).subrange(doc.len() + 9 * i, doc.len() + 9 * i + 9)
            == seq![
            Piece::Text("  worker "@),
            Piece::Count { value: workers[i].worker_id as u128, width: 2 },
            Piece::Text("          : "@),
            Piece::Text(""@),
            Piece::Millis { span: workers[i].total_busy, places: 2, width: 8 },
            Piece::Text(" ms ("@),
            Piece::Text(""@),
            if makespan.nanos == 0 {
                Piece::Text("  0.0"@)
            } else {
                Piece::Percent { part: workers[i].total_busy, whole: makespan, times: 1, places: 1, width: 5 }
            },
            Piece::Text("%)\n"@),
        ],
    decreases workers.len(),
{
    let front = workers.drop_last();
    let lines = worker_lines(doc, workers, makespan);
    let above = worker_lines(doc, front, makespan);
    if front.len() > 0 {
        law_worker_lines(
            doc,
            front,
            makespan,
            if i < front.len() {
                i
            } else {
                0
            },
        );
    }
    assert(above.len() == doc.len() + 9 * front.len());
    assert(lines.take(above.len() as int) =~= above);
    assert(lines.take(doc.len() as int) =~= above.take(doc.len() as int));
    if i < front.len() {
        assert(workers[i] == front[i]);
        assert(lines.subrange(doc.len() + 9 * i, doc.len() + 9 * i + 9) =~= above.subrange(
            doc.len() + 9 * i,
            doc.len() + 9 * i + 9,
        ));
    } else {
        assert(workers[i] == workers.last());
    }
}

/// A report without completions says just that. Any other starts with the headline,
/// then come the results, the usage of machine and workers, the queues, and the
/// workers in the order of their numbers, all for the same run.
pub proof fn law_report_sections(
    summary: Summary,
    num_workers: usize,
    queue_stats: QueueStats,
    label: Seq<char>,
    monitor: MonitorStats,
    cpu_fraction: Fraction,
    total_tasks: u64,
    workers: Seq<WorkerBusy>,
)
    requires
        crate::sorting::stably_sorted(summary.worker_busy@, workers),
    ensures
        ({
            let report = summary.report_model(
                num_workers,
                queue_stats,
                label,
                monitor,
                cpu_fraction,
                total_tasks,
            );
            let figures = summary.figures();
            let header = with_header(
                Seq::empty(),
                label,
                total_tasks,
                cpu_fraction,
                num_workers,
            );
            let times = with_times(
                header,
                summary.makespan,
                summary.completions@.len(),
                figures,
            );
            let usage = with_usage(
                times,
                monitor,
                num_workers,
                figures.total_busy,
                summary.makespan,
            );
            let queues = with_queues(usage, queue_stats, figures.fairness_gap);
            let title = queues + seq![
                Piece::Text("\n"@),
                Piece::Text("— per-worker busy time —\n"@),
            ];
            &&& summary.completions@.len() == 0 ==> report == seq![
                Piece::Text("["@),
                Piece::Text(label),
                Piece::Text("] No tasks completed.\n"@),
            ]
            &&& summary.completions@.len() > 0 ==> report == worker_lines(
                title,
                workers,
                summary.makespan,
            )
        }),
{
    let figures = summary.figures();
    let header = with_header(Seq::empty(), label, total_tasks, cpu_fraction, num_workers);
    let times = with_times(header, summary.makespan, summary.completions@.len(), figures);
    let usage = with_usage(times, monitor, num_workers, figures.total_busy, summary.makespan);
    let queues = with_queues(usage, queue_stats, figures.fairness_gap);
    assert(queues.push(Piece::Text("\n"@)).push(Piece::Text("— per-worker busy time —\n"@))
        =~= queues + seq![Piece::Text("\n"@), Piece::Text("— per-worker busy time —\n"@)]);
    crate::sorting::law_stable_sort_is_unique(
        summary.worker_busy@,
        workers,
        crate::sorting::stable_order(summary.worker_busy@),
    );
}

} // verus!

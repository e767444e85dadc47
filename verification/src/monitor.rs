//! Sampling of the active workers and of the machine's CPU usage.
use crate::document::{Document, Piece};
use crate::proc_stat::parse_counters;
use crate::queues::Average;
use vstd::prelude::*;

verus! {

/// Milliseconds between two samples.
pub const SAMPLE_MS: u64 = 10;

/// CPU ticks since the machine started: those spent idle, and all of them.
#[derive(Debug, Clone, Copy, PartialEq, Eq, Structural)]
pub struct CpuTicks {
    pub idle: u64,
    pub total: u64,
}

/// How many of the ticks between two readings were spent busy. A `total` of
/// zero counts as no usage.
#[derive(Debug, Clone, Copy, PartialEq, Eq, Structural)]
pub struct CpuUsage {
    pub busy: u64,
    pub total: u64,
}

/// One sample.
#[derive(Debug, Clone, Copy, PartialEq, Eq, Structural)]
pub struct Sample {
    pub elapsed_ms: u64,
    pub active: usize,
    pub usage: CpuUsage,
}

/// What the monitor reports at the end.
#[derive(Debug, PartialEq, Eq)]
pub struct MonitorStats {
    pub avg_active_workers: Average,
    /// The mean CPU usage in percent, as an IEEE 754 binary64 encoding.
    pub avg_cpu_pct: u64,
    pub sample_count: usize,
    pub csv_path: String,
}

/// The monitor between two samples.
#[derive(Debug, Clone, Copy, PartialEq, Eq, Structural)]
pub struct Monitor {
    pub count: usize,
    pub active_sum: u128,
    pub prev_ticks: Option<CpuTicks>,
}

/// The sum of all counters.
pub open spec fn total_of(fields: Seq<u64>) -> nat
    decreases fields.len(),
{
    if fields.len() == 0 {
        0
    } else {
        total_of(fields.drop_last()) + fields.last() as nat
    }
}

proof fn lemma_total_of_prefix(fields: Seq<u64>, n: int)
    requires
        0 <= n <= fields.len(),
    ensures
        total_of(fields.take(n)) <= total_of(fields),
    decreases fields.len(),
{
    if n == fields.len() {
        assert(fields.take(n) =~= fields);
    } else {
        lemma_total_of_prefix(fields.drop_last(), n);
        assert(fields.drop_last().take(n) =~= fields.take(n));
    }
}

/// The sum of all counters, or `None` if it exceeds the greatest `u64`.
pub fn checked_total(fields: &Vec<u64>) -> (total: Option<u64>)
    ensures
        total is Some <==> total_of(fields@) <= u64::MAX,
        total matches Some(t) ==> t == total_of(fields@),
{
    let mut total: u64 = 0;
    for i in 0..fields.len()
        invariant
            total == total_of(fields@.take(i as int)),
    {
        proof {
            assert(fields@.take(i + 1).drop_last() =~= fields@.take(i as int));
            lemma_total_of_prefix(fields@, i + 1);
        }
        match total.checked_add(fields[i]) {
            Some(t) => {
                total = t;
            },
            None => {
                return None;
            },
        }
    }
    assert(fields@.take(fields@.len() as int) =~= fields@);
    Some(total)
}

/// The ticks that the counters (user, nice, system, idle, iowait, ...) add up
/// to. Time spent waiting for IO counts as idle. Fewer than four counters give
/// no reading.
pub fn cpu_ticks(fields: &Vec<u64>) -> (ticks: Option<CpuTicks>)
    requires
        fields@.len() >= 4 ==> total_of(fields@) <= u64::MAX,
    ensures
        ticks is Some <==> fields@.len() >= 4,
        ticks matches Some(t) ==> {
            &&& t.idle == fields@[3] + (if fields@.len() > 4 {
                fields@[4] as int
            } else {
                0
            })
            &&& t.total == total_of(fields@)
            &&& t.idle <= t.total
        },
{
    if fields.len() < 4 {
        return None;
    }
    proof {
        lemma_total_of_prefix(fields@, 4);
        assert(fields@.take(4).drop_last() =~= fields@.take(3));
        if fields@.len() > 4 {
            lemma_total_of_prefix(fields@, 5);
            assert(fields@.take(5).drop_last() =~= fields@.take(4));
        }
    }
    let waiting: u64 = if fields.len() > 4 {
        fields[4]
    } else {
        0
    };
    let idle: u64 = fields[3] + waiting;
    match checked_total(fields) {
        Some(total) => Some(CpuTicks { idle, total }),
        None => None,
    }
}

/// The text of `/proc/stat` holds a reading: everything behind the label of its
/// first line is a number, and there are at least four of them.
pub open spec fn readable(text: Seq<char>) -> bool {
    let words = crate::proc_stat::counter_words(text);
    crate::proc_stat::all_numbers(words) && words.len() >= 4
}

/// The counters of a reading add up to no more than the greatest `u64`.
pub open spec fn total_fits(text: Seq<char>) -> bool {
    readable(text) ==> total_of(
        crate::proc_stat::numbers(crate::proc_stat::counter_words(text)),
    ) <= u64::MAX
}

/// Whether [`ticks_in`] can add up the counters.
pub fn ticks_fit(text: &str) -> (fits: bool)
    ensures
        fits == total_fits(text@),
{
    match parse_counters(text) {
        Some(fields) => fields.len() < 4 || checked_total(&fields).is_some(),
        None => true,
    }
}

/// The ticks that the text of `/proc/stat` reports. A counter that is no number
/// gives no reading, and neither do fewer than four counters.
pub fn ticks_in(text: &str) -> (ticks: Option<CpuTicks>)
    requires
        total_fits(text@),
    ensures
        ticks is Some <==> readable(text@),
        ticks matches Some(t) ==> {
            let fields = crate::proc_stat::numbers(crate::proc_stat::counter_words(text@));
            &&& t.idle == fields[3] + (if fields.len() > 4 {
                fields[4] as int
            } else {
                0
            })
            &&& t.total == total_of(fields)
            &&& t.idle <= t.total
        },
{
    match parse_counters(text) {
        Some(fields) => cpu_ticks(&fields),
        None => None,
    }
}

/// Ticks that passed from `before` to `after`, never below zero.
pub open spec fn passed(after: u64, before: u64) -> nat {
    if after >= before {
        (after - before) as nat
    } else {
        0
    }
}

/// CPU usage between two consecutive readings. Without both readings, or if no
/// time has passed between them, there is none.
pub fn cpu_delta(prev: Option<CpuTicks>, curr: Option<CpuTicks>) -> (usage: CpuUsage)
    ensures
        match (prev, curr) {
            (Some(p), Some(c)) => {
                &&& usage.total == passed(c.total, p.total)
                &&& usage.busy == if passed(c.idle, p.idle) <= usage.total {
                    usage.total - passed(c.idle, p.idle)
                } else {
                    0
                }
            },
            _ => usage == (CpuUsage { busy: 0, total: 0 }),
        },
        usage.busy <= usage.total,
{
    match (prev, curr) {
        (Some(p), Some(c)) => {
            let idle: u64 = c.idle.saturating_sub(p.idle);
            let total: u64 = c.total.saturating_sub(p.total);
            CpuUsage { busy: total.saturating_sub(idle), total }
        },
        _ => CpuUsage { busy: 0, total: 0 },
    }
}

/// The first row of the sample file.
pub fn csv_header() -> (row: &'static str)
    ensures
        row@ == "elapsed_ms,active_workers,cpu_pct"@,
{
    "elapsed_ms,active_workers,cpu_pct"
}

/// A usage in percent; 0 if no time has passed.
pub open spec fn usage_figure(usage: CpuUsage) -> crate::document::PieceModel {
    if usage.total == 0 {
        Piece::Text("0.00"@)
    } else {
        Piece::Ratio { numerator: usage.busy, denominator: usage.total, places: 2 }
    }
}

impl Sample {
    /// The row of this sample: milliseconds, active workers and CPU usage.
    pub open spec fn row_model(self) -> Seq<crate::document::PieceModel> {
        seq![
            crate::document::plain(self.elapsed_ms as u128),
            Piece::Text(","@),
            crate::document::plain(self.active as u128),
            Piece::Text(","@),
            usage_figure(self.usage),
        ]
    }

    pub fn csv_row(&self) -> (row: Document)
        ensures
            row@ == self.row_model(),
            crate::document::all_defined(row@),
    {
        let mut row: Document = Document::empty();
        row.put(Piece::Count { value: self.elapsed_ms as u128, width: 0 });
        row.text(",");
        row.put(Piece::Count { value: self.active as u128, width: 0 });
        row.text(",");
        if self.usage.total == 0 {
            row.text("0.00");
        } else {
            row.put(
                Piece::Ratio {
                    numerator: self.usage.busy,
                    denominator: self.usage.total,
                    places: 2,
                },
            );
        }
        row
    }
}

impl Monitor {
    pub open spec fn wf(self) -> bool {
        self.active_sum <= self.count * usize::MAX
    }

    /// A monitor that has taken no sample yet, after a first reading.
    pub fn new(first: Option<CpuTicks>) -> (monitor: Monitor)
        ensures
            monitor == (Monitor { count: 0, active_sum: 0, prev_ticks: first }),
            monitor.wf(),
    {
        Monitor { count: 0, active_sum: 0, prev_ticks: first }
    }

    /// Takes a sample of the number of active workers and a CPU reading.
    pub fn sample(&mut self, active: usize, curr: Option<CpuTicks>) -> (sample: Sample)
        requires
            old(self).wf(),
            old(self).count < usize::MAX,
            old(self).count * SAMPLE_MS <= u64::MAX,
        ensures
            sample.elapsed_ms == old(self).count * SAMPLE_MS,
            sample.elapsed_ms == old(self).count * 10,
            sample.active == active,
            sample.usage.busy <= sample.usage.total,
            match (old(self).prev_ticks, curr) {
                (Some(p), Some(c)) => {
                    &&& sample.usage.total == passed(c.total, p.total)
                    &&& sample.usage.busy == if passed(c.idle, p.idle) <= sample.usage.total {
                        sample.usage.total - passed(c.idle, p.idle)
                    } else {
                        0
                    }
                },
                _ => sample.usage == (CpuUsage { busy: 0, total: 0 }),
            },
            *final(self) == (Monitor {
                count: (old(self).count + 1) as usize,
                active_sum: (old(self).active_sum + active) as u128,
                prev_ticks: curr,
            }),
            final(self).count == old(self).count + 1,
            final(self).active_sum == old(self).active_sum + active,
            final(self).wf(),
    {
        let usage: CpuUsage = cpu_delta(self.prev_ticks, curr);
        self.prev_ticks = curr;
        let elapsed_ms: u64 = self.count as u64 * SAMPLE_MS;
        proof {
            let n = self.count as int;
            assert((n + 1) * usize::MAX == n * usize::MAX + usize::MAX) by (nonlinear_arith);
            assert((n + 1) * usize::MAX <= u128::MAX) by (nonlinear_arith)
                requires
                    0 <= n < usize::MAX,
                    usize::MAX <= 0xffff_ffff_ffff_ffff,
            ;
        }
        self.active_sum = self.active_sum + active as u128;
        self.count = self.count + 1;
        Sample { elapsed_ms, active, usage }
    }

    /// The results, with the mean CPU usage as computed from the samples. Without
    /// samples it is zero, whose encoding is zero too.
    pub fn into_stats(self, avg_cpu_pct: u64, csv_path: String) -> (stats: MonitorStats)
        ensures
            stats.avg_active_workers.sum == self.active_sum,
            stats.avg_active_workers.count == self.count,
            stats.avg_cpu_pct == if self.count == 0 {
                0
            } else {
                avg_cpu_pct
            },
            stats.sample_count == self.count,
            stats.csv_path@ == csv_path@,
    {
        MonitorStats {
            avg_active_workers: Average { sum: self.active_sum, count: self.count as u64 },
            avg_cpu_pct: if self.count == 0 {
                0
            } else {
                avg_cpu_pct
            },
            sample_count: self.count,
            csv_path,
        }
    }
}

/// Counters add up: the total of one counter is that counter, and the total of two
/// lists together is the sum of theirs.
pub proof fn law_counter_totals_add_up(counter: u64, a: Seq<u64>, b: Seq<u64>)
    ensures
        total_of(Seq::<u64>::empty()) == 0,
        total_of(seq![counter]) == counter,
        total_of(a + b) == total_of(a) + total_of(b),
    decreases b.len(),
{
    assert(seq![counter].drop_last() =~= Seq::<u64>::empty());
    assert(total_of(seq![counter].drop_last()) == 0);
    if b.len() == 0 {
        assert(a + b =~= a);
    } else {
        law_counter_totals_add_up(counter, a, b.drop_last());
        assert((a + b).drop_last() =~= a + b.drop_last());
    }
}

/// The ticks that passed take the earlier reading to the later one; a counter that
/// ran backwards counts as standing still.
pub proof fn law_passed_ticks_span_the_gap(after: u64, before: u64)
    ensures
        before <= after ==> before + passed(after, before) == after,
        before >= after ==> passed(after, before) == 0,
{
}

/// A text can be read if its first line holds at least four words behind the label
/// and all of them are numbers. Its total fits if it is at most the greatest `u64`;
/// without a reading there is nothing to fit.
pub proof fn law_reading_needs_four_numbers(text: Seq<char>)
    ensures
        ({
            let found = crate::proc_stat::counter_words(text);
            &&& readable(text) <==> found.len() >= 4 && (forall|i: int|
                0 <= i < found.len() ==> crate::proc_stat::number(#[trigger] found[i]) is Some)
            &&& !readable(text) ==> total_fits(text)
            &&& readable(text) ==> (total_fits(text) <==> total_of(
                crate::proc_stat::numbers(found),
            ) <= u64::MAX)
        }),
{
}

/// A row holds the time in milliseconds, the number of active workers and the busy
/// share of the ticks in percent with two decimals, separated by commas. Where no
/// ticks passed the share is given as zero. Samples are taken every 10 ms.
pub proof fn law_row_shows_time_workers_and_usage(sample: Sample)
    ensures
        SAMPLE_MS == 10,
        ({
            let row = sample.row_model();
            &&& row.len() == 5
            &&& row[0] == (Piece::<Seq<char>>::Count {
                value: sample.elapsed_ms as u128,
                width: 0,
            })
            &&& row[1] == Piece::Text(","@)
            &&& row[2] == (Piece::<Seq<char>>::Count { value: sample.active as u128, width: 0 })
            &&& row[3] == Piece::Text(","@)
            &&& row[4] == if sample.usage.total > 0 {
                Piece::Ratio {
                    numerator: sample.usage.busy,
                    denominator: sample.usage.total,
                    places: 2,
                }
            } else {
                Piece::Text("0.00"@)
            }
        }),
{
}

} // verus!

# Task dispatcher

A two-queue task scheduler. Tasks are either CPU-bound or IO-bound and wait in
one queue per kind. A dispatcher decides which queue to serve next and which
worker gets the task:

- **Weighted dispatch.** While both queues hold tasks, it takes `cpu_weight`
  tasks from the CPU queue, then `io_weight` from the IO queue, and repeats.
- **Aging.** A queue whose front task has waited longer than
  `aging_threshold_ms` is served at once, whatever the weights say.
- **Reservation.** The first `io_reserved_workers` workers only get IO tasks; one
  worker is always left for the rest. Each pool is served in turn.

Two experiments run the same reproducible burst of 1000 tasks on 8 workers. The
baseline uses weights `(1, 1)`: the round of 2 divides 8, so that even workers
get only CPU tasks and odd ones only IO tasks. The other uses `(1, 2)`: 3 and 8
have no common divisor, so that all workers get the same mix.

## Layout

- `src/` is the library, verified with Verus.
  - `task`, `time`, `sorting`, `text`, `document`: the basics.
  - `workload`, `workload_laws`: drawing the task list from a seed.
  - `queues`, `queue_laws`: the ready queues and what holds of every history.
  - `dispatcher`, `dispatch_laws`: the policy and what it guarantees.
  - `worker`, `metrics`, `report`: bookkeeping and the report of a run.
  - `monitor`, `proc_stat`: sampling, and reading `/proc/stat`.
  - `experiment`: the two experiments.
- `app/` is the program around it: threads, locks, the clock, files, and
  everything in floating point.
- `tests/` runs the library on concrete values.

The library keeps time as nanoseconds since the start of a run and fractions as
`numerator / 2^scale`, which is exact for doubles. A report is a list of texts
and figures; the program writes the figures out.

## Usage

With no argument or `all` both experiments run; with `fifo` or `optimized` that
one alone. The report is printed and saved to `fifo_output.txt` or
`optimized_output.txt`, the samples to `monitor_fifo.csv` or
`monitor_optimized.csv`.

## What is trusted

Random numbers come from `rand_chacha` and `rand`. `word_at` and `in_range_at`
in `src/workload.rs` make these calls; their contracts say that what is drawn is
determined by the seed, the stream position and the range, and lies in it.

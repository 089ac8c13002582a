//! Sampling and bounded-history tracking for a terminal system dashboard.
//!
//! Percentages are carried as whole hundredths of a percent (`10000` is
//! 100%), and times as whole seconds since the dashboard started.

mod cpu;
mod history;
mod memory;
mod metrics;
mod refresh;
mod series;
mod storage;
mod uptime;

pub use cpu::{cpu_value, CPUTracker, CpuChart};
pub use history::{latest, lemma_appends_keep_latest, replay, BoundedHistory, ConfigError};
pub use memory::{lemma_series_stay_paired, MemChart, MemReading, MemTracker};
pub use metrics::{usage_of, usage_percent, Sample, FULL_PERCENT};
pub use series::{clamp_percent, paired, stamp_after, times_ordered, valid_series, values_in_range};
pub use storage::{
    first_of_each_name, gauge_of, gauge_share, gauges_for, lemma_one_gauge_per_name, named_before,
    names_covered, names_distinct, used_space, DiskGauge, DiskReading, StorageTracker,
};
pub use uptime::{amount, decimal, digit_char, format_uptime, uptime_text};
pub use refresh::{
    key_event, lemma_quit_is_final, run, step, transition, LoopAction, LoopEvent, LoopState,
    DEFAULT_CAPACITY, QUIT_KEY, TICK_MILLIS,
};

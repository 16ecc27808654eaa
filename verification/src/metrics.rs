//! Latency bookkeeping for quote and order paths.
//!
//! Sums, counts and maxima are plain 64-bit counters with exact
//! contracts; sums saturate instead of wrapping. Timestamps come from the
//! monotonic clock, which the library treats as opaque: a timer can be
//! started and read, but nothing is claimed about the time it reports.

use vstd::prelude::*;

verus! {

#[verifier::external_type_specification]
#[verifier::external_body]
pub struct ExInstant(std::time::Instant);

/// Relies on `std::time::Instant::now`: an opaque monotonic timestamp.
#[verifier::external_body]
fn instant_now() -> std::time::Instant {
    std::time::Instant::now()
}

/// Relies on `std::time::Instant::elapsed`: the time since `start`, as an
/// opaque duration.
#[verifier::external_body]
fn instant_elapsed(start: &std::time::Instant) -> std::time::Duration {
    start.elapsed()
}

/// Saturating update of one latency series.
pub open spec fn sum_after(sum: int, micros: int) -> int {
    if sum + micros <= u64::MAX {
        sum + micros
    } else {
        u64::MAX as int
    }
}

pub open spec fn count_after(count: int) -> int {
    if count + 1 <= u64::MAX {
        count + 1
    } else {
        u64::MAX as int
    }
}

pub open spec fn max_after(max: int, micros: int) -> int {
    if micros > max {
        micros
    } else {
        max
    }
}

pub struct LatencyMetrics {
    pub quote_latency_sum: u64,
    pub quote_count: u64,
    pub max_quote_latency: u64,
    pub order_latency_sum: u64,
    pub order_count: u64,
    pub max_order_latency: u64,
}

impl LatencyMetrics {
    pub fn new() -> (r: Self)
        ensures
            r.quote_latency_sum == 0,
            r.quote_count == 0,
            r.max_quote_latency == 0,
            r.order_latency_sum == 0,
            r.order_count == 0,
            r.max_order_latency == 0,
    {
        LatencyMetrics {
            quote_latency_sum: 0,
            quote_count: 0,
            max_quote_latency: 0,
            order_latency_sum: 0,
            order_count: 0,
            max_order_latency: 0,
        }
    }

    /// Folds one quote latency, in microseconds, into the series.
    pub fn record_quote_latency(&mut self, micros: u64)
        ensures
            final(self).quote_latency_sum == sum_after(
                old(self).quote_latency_sum as int,
                micros as int,
            ),
            final(self).quote_count == count_after(old(self).quote_count as int),
            final(self).max_quote_latency == max_after(
                old(self).max_quote_latency as int,
                micros as int,
            ),
            final(self).order_latency_sum == old(self).order_latency_sum,
            final(self).order_count == old(self).order_count,
            final(self).max_order_latency == old(self).max_order_latency,
    {
        self.quote_latency_sum = if self.quote_latency_sum <= u64::MAX - micros {
            self.quote_latency_sum + micros
        } else {
            u64::MAX
        };
        self.quote_count = if self.quote_count < u64::MAX {
            self.quote_count + 1
        } else {
            u64::MAX
        };
        if micros > self.max_quote_latency {
            self.max_quote_latency = micros;
        }
    }

    /// Folds one order latency, in microseconds, into the series.
    pub fn record_order_latency(&mut self, micros: u64)
        ensures
            final(self).order_latency_sum == sum_after(
                old(self).order_latency_sum as int,
                micros as int,
            ),
            final(self).order_count == count_after(old(self).order_count as int),
            final(self).max_order_latency == max_after(
                old(self).max_order_latency as int,
                micros as int,
            ),
            final(self).quote_latency_sum == old(self).quote_latency_sum,
            final(self).quote_count == old(self).quote_count,
            final(self).max_quote_latency == old(self).max_quote_latency,
    {
        self.order_latency_sum = if self.order_latency_sum <= u64::MAX - micros {
            self.order_latency_sum + micros
        } else {
            u64::MAX
        };
        self.order_count = if self.order_count < u64::MAX {
            self.order_count + 1
        } else {
            u64::MAX
        };
        if micros > self.max_order_latency {
            self.max_order_latency = micros;
        }
    }

    /// Mean recorded quote latency in whole microseconds; zero with no
    /// samples.
    pub fn avg_quote_latency_us(&self) -> (r: u64)
        ensures
            r == if self.quote_count == 0 {
                0int
            } else {
                self.quote_latency_sum as int / self.quote_count as int
            },
    {
        if self.quote_count > 0 {
            self.quote_latency_sum / self.quote_count
        } else {
            0
        }
    }

    pub fn max_quote_latency_us(&self) -> (r: u64)
        ensures
            r == self.max_quote_latency,
    {
        self.max_quote_latency
    }

    /// Mean recorded order latency in whole microseconds; zero with no
    /// samples.
    pub fn avg_order_latency_us(&self) -> (r: u64)
        ensures
            r == if self.order_count == 0 {
                0int
            } else {
                self.order_latency_sum as int / self.order_count as int
            },
    {
        if self.order_count > 0 {
            self.order_latency_sum / self.order_count
        } else {
            0
        }
    }

    pub fn max_order_latency_us(&self) -> (r: u64)
        ensures
            r == self.max_order_latency,
    {
        self.max_order_latency
    }
}

/// A running stopwatch on the opaque monotonic clock.
pub struct LatencyTimer {
    pub start: std::time::Instant,
}

impl LatencyTimer {
    pub fn start() -> (r: Self) {
        LatencyTimer { start: instant_now() }
    }

    pub fn elapsed(&self) -> std::time::Duration {
        instant_elapsed(&self.start)
    }
}

} // verus!

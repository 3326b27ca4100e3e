use vstd::prelude::*;
use vstd::arithmetic::mul::lemma_mul_upper_bound;
use vstd::arithmetic::mul::lemma_mul_strictly_positive;
use crate::clock::GetTimestamp;

verus! {

/// Fixed-point scale for rates: a stored rate of `RATE_SCALE` stands for one
/// percent of the task per millisecond.
pub const RATE_SCALE: u128 = 1_000_000_000_000;

/// `100 * RATE_SCALE`: the whole task (one hundred percent) at rate scale.
pub const FULL_SCALE: u128 = 100_000_000_000_000;

pub const U64_MAX: u64 = 0xffff_ffff_ffff_ffff;

pub const U128_MAX: u128 = 0xffff_ffff_ffff_ffff_ffff_ffff_ffff_ffff;

/// The mathematical state of an estimator.
///
/// After the first observation, `base_time` and `base_units` hold the
/// baseline sample. Each later observation at a strictly newer timestamp
/// contributes one term to `rate_sum`: the average rate since the baseline,
/// at fixed-point scale. The estimator's rate is the mean of those terms.
pub ghost struct EstimatorModel {
    pub initialized: bool,
    pub base_time: int,
    pub base_units: int,
    pub last_time: int,
    pub last_units: int,
    pub last_total: int,
    pub rate_sum: int,
    pub rate_samples: int,
}

/// The state of a freshly constructed estimator.
pub open spec fn initial_model() -> EstimatorModel {
    EstimatorModel {
        initialized: false,
        base_time: 0,
        base_units: 0,
        last_time: 0,
        last_units: 0,
        last_total: 0,
        rate_sum: 0,
        rate_samples: 0,
    }
}

/// Units of work done since the baseline, clamped at zero if progress
/// moved backwards.
pub open spec fn units_since(base: int, units: int) -> int {
    if units >= base {
        units - base
    } else {
        0
    }
}

/// The average rate since the baseline, at fixed-point scale: the share of
/// the task done since the baseline (in hundredths of `total`), divided by
/// the milliseconds elapsed since the baseline.
pub open spec fn cumulative_rate(m: EstimatorModel, ts: int, units: int, total: int) -> int {
    FULL_SCALE * units_since(m.base_units, units) / (total * (ts - m.base_time))
}

/// Addition clamped at the largest storable sum.
pub open spec fn clamped_add(sum: int, term: int) -> int {
    if sum + term > U128_MAX {
        U128_MAX as int
    } else {
        sum + term
    }
}

/// How one observation `(ts, units, total)` transforms the estimator state.
///
/// The first observation only records the baseline: a single point defines
/// no rate. A later one at a strictly newer timestamp, with a nonzero total,
/// contributes one rate term; any other observation (a repeated or earlier
/// timestamp, a zero total) only refreshes the latest sample.
pub open spec fn step_model(m: EstimatorModel, ts: int, units: int, total: int) -> EstimatorModel {
    if !m.initialized {
        EstimatorModel {
            initialized: true,
            base_time: ts,
            base_units: units,
            last_time: ts,
            last_units: units,
            last_total: total,
            rate_sum: 0,
            rate_samples: 0,
        }
    } else if ts > m.last_time && ts > m.base_time && total > 0 {
        EstimatorModel {
            last_time: ts,
            last_units: units,
            last_total: total,
            rate_sum: clamped_add(m.rate_sum, cumulative_rate(m, ts, units, total)),
            rate_samples: if m.rate_samples < U64_MAX {
                m.rate_samples + 1
            } else {
                m.rate_samples
            },
            ..m
        }
    } else {
        EstimatorModel { last_time: ts, last_units: units, last_total: total, ..m }
    }
}

/// The smoothed rate at fixed-point scale: the mean of the recorded rate
/// terms, or zero while no term exists.
pub open spec fn rate_scaled(m: EstimatorModel) -> int {
    if m.rate_samples <= 0 {
        0
    } else {
        m.rate_sum / m.rate_samples
    }
}

/// The smoothed rate clamped to the reportable range.
pub open spec fn rate_scaled_clamped(m: EstimatorModel) -> int {
    if rate_scaled(m) > U64_MAX {
        U64_MAX as int
    } else {
        rate_scaled(m)
    }
}

/// Projected milliseconds until the work done since the baseline reaches the
/// latest total: the share of the task still open, divided by the smoothed
/// rate. Zero while no estimate exists (no baseline, no rate term yet, a
/// zero rate, or a zero total), and zero once that share is exhausted.
pub open spec fn remaining_ms(m: EstimatorModel) -> int {
    if !m.initialized || m.last_total <= 0 || rate_scaled(m) <= 0 {
        0
    } else {
        let done = units_since(m.base_units, m.last_units);
        let left = if m.last_total > done {
            m.last_total - done
        } else {
            0
        };
        let est = (FULL_SCALE * left / m.last_total) / rate_scaled(m);
        if est > U64_MAX {
            U64_MAX as int
        } else {
            est
        }
    }
}

/// A remaining-time estimator over an injected time source.
///
/// Feed it one `update_eta` call per observed progress report; read back the
/// smoothed rate or the projected remaining time at any point in between.
pub struct TimeContext<T: GetTimestamp> {
    timefunc: T,
    initialized: bool,
    base_time: u64,
    base_units: u64,
    last_time: u64,
    last_units: u64,
    last_total: u64,
    rate_sum: u128,
    rate_samples: u64,
}

impl<T: GetTimestamp> View for TimeContext<T> {
    type V = EstimatorModel;

    closed spec fn view(&self) -> EstimatorModel {
        EstimatorModel {
            initialized: self.initialized,
            base_time: self.base_time as int,
            base_units: self.base_units as int,
            last_time: self.last_time as int,
            last_units: self.last_units as int,
            last_total: self.last_total as int,
            rate_sum: self.rate_sum as int,
            rate_samples: self.rate_samples as int,
        }
    }
}

impl<T: GetTimestamp> TimeContext<T> {
    pub closed spec fn spec_timefunc(&self) -> T {
        self.timefunc
    }

    pub fn new(timefunc: T) -> (r: TimeContext<T>)
        ensures
            r@ == initial_model(),
            r.spec_timefunc() == timefunc,
    {
        TimeContext {
            timefunc,
            initialized: false,
            base_time: 0,
            base_units: 0,
            last_time: 0,
            last_units: 0,
            last_total: 0,
            rate_sum: 0,
            rate_samples: 0,
        }
    }

    /// Borrow the injected time source, so that a deterministic one can be
    /// scripted between updates.
    pub fn get_timefunc_mut(&mut self) -> (r: &mut T)
        ensures
            *r == old(self).spec_timefunc(),
            final(self).spec_timefunc() == *final(r),
            final(self)@ == old(self)@,
    {
        &mut self.timefunc
    }

    /// Record one observation with an explicit timestamp.
    fn observe(&mut self, ts: u64, units: u64, total: u64)
        ensures
            final(self)@ == step_model(old(self)@, ts as int, units as int, total as int),
            final(self).spec_timefunc() == old(self).spec_timefunc(),
    {
        if !self.initialized {
            self.initialized = true;
            self.base_time = ts;
            self.base_units = units;
            self.last_time = ts;
            self.last_units = units;
            self.last_total = total;
            self.rate_sum = 0;
            self.rate_samples = 0;
        } else if ts > self.last_time && ts > self.base_time && total > 0 {
            let du: u64 = if units >= self.base_units {
                units - self.base_units
            } else {
                0
            };
            let dt: u64 = ts - self.base_time;
            proof {
                lemma_mul_upper_bound(FULL_SCALE as int, FULL_SCALE as int, du as int, U64_MAX as int);
                lemma_mul_upper_bound(total as int, U64_MAX as int, dt as int, U64_MAX as int);
                lemma_mul_strictly_positive(total as int, dt as int);
            }
            let numer: u128 = FULL_SCALE * (du as u128);
            let denom: u128 = (total as u128) * (dt as u128);
            let term: u128 = numer / denom;
            self.rate_sum = if self.rate_sum <= U128_MAX - term {
                self.rate_sum + term
            } else {
                U128_MAX
            };
            if self.rate_samples < U64_MAX {
                self.rate_samples = self.rate_samples + 1;
            }
            self.last_time = ts;
            self.last_units = units;
            self.last_total = total;
        } else {
            self.last_time = ts;
            self.last_units = units;
            self.last_total = total;
        }
    }

    /// Read the time source and record the latest progress report against
    /// the timestamp it returned.
    pub fn update_eta(&mut self, units: u64, total: u64)
        ensures
            final(self).spec_timefunc() == old(self).spec_timefunc(),
            exists|ts: u64|
                final(self)@ == step_model(old(self)@, ts as int, units as int, total as int),
            old(self).spec_timefunc().known_timestamp() is Some ==> final(self)@ == step_model(
                old(self)@,
                old(self).spec_timefunc().known_timestamp()->Some_0 as int,
                units as int,
                total as int,
            ),
    {
        let ts = self.timefunc.get_timestamp();
        self.observe(ts, units, total);
    }

    /// The smoothed rate at fixed-point scale: `RATE_SCALE` stands for one
    /// percent of the task per millisecond.
    pub fn calc_speed_per_unit(&self) -> (r: u64)
        ensures
            r == rate_scaled_clamped(self@),
    {
        if self.rate_samples == 0 {
            0
        } else {
            let s: u128 = self.rate_sum / (self.rate_samples as u128);
            if s > U64_MAX as u128 {
                U64_MAX
            } else {
                s as u64
            }
        }
    }

    /// Projected milliseconds until completion; zero while no estimate
    /// exists.
    pub fn get_remaining_time(&self) -> (r: u64)
        ensures
            r == remaining_ms(self@),
    {
        if !self.initialized {
            return 0;
        }
        if self.last_total == 0 {
            return 0;
        }
        let speed: u128 = if self.rate_samples == 0 {
            0
        } else {
            self.rate_sum / (self.rate_samples as u128)
        };
        if speed == 0 {
            return 0;
        }
        let done: u64 = if self.last_units >= self.base_units {
            self.last_units - self.base_units
        } else {
            0
        };
        let left: u64 = if self.last_total > done {
            self.last_total - done
        } else {
            0
        };
        proof {
            lemma_mul_upper_bound(FULL_SCALE as int, FULL_SCALE as int, left as int, U64_MAX as int);
        }
        let scaled: u128 = FULL_SCALE * (left as u128) / (self.last_total as u128);
        let est: u128 = scaled / speed;
        if est > U64_MAX as u128 {
            U64_MAX
        } else {
            est as u64
        }
    }
}

} // verus!

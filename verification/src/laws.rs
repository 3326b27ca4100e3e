use vstd::prelude::*;
use vstd::arithmetic::div_mod::lemma_div_multiples_vanish_quotient;
use crate::estimator::EstimatorModel;
use crate::estimator::initial_model;
use crate::estimator::step_model;
use crate::estimator::rate_scaled;
use crate::estimator::remaining_ms;
use crate::estimator::cumulative_rate;
use crate::estimator::FULL_SCALE;
use crate::estimator::U64_MAX;
use crate::estimator::U128_MAX;

verus! {

/// One progress report fed to the estimator: a timestamp in milliseconds, a
/// progress value and a total.
pub ghost struct Observation {
    pub time: int,
    pub units: int,
    pub total: int,
}

/// The estimator state after feeding the observations to `m` in order.
pub open spec fn run_model(m: EstimatorModel, obs: Seq<Observation>) -> EstimatorModel
    decreases obs.len(),
{
    if obs.len() == 0 {
        m
    } else {
        run_model(step_model(m, obs[0].time, obs[0].units, obs[0].total), obs.drop_first())
    }
}

/// Law: an estimator that has recorded no observation projects no remaining
/// time; the query yields the sentinel zero, not a computed estimate.
pub proof fn lemma_uninitialized_remaining_time_zero(m: EstimatorModel)
    requires
        !m.initialized,
    ensures
        remaining_ms(m) == 0,
{
}

/// Law: a freshly constructed estimator reports a zero rate as well as a
/// zero remaining time.
pub proof fn lemma_fresh_estimator_reports_zero()
    ensures
        rate_scaled(initial_model()) == 0,
        remaining_ms(initial_model()) == 0,
{
}

/// Law: an observation whose timestamp does not advance past the previous
/// one contributes no rate information — the smoothed rate is exactly the
/// rate before the observation, whatever progress value it carries.
pub proof fn lemma_repeated_timestamp_keeps_rate(
    m: EstimatorModel,
    ts: int,
    units: int,
    total: int,
)
    requires
        m.initialized,
        ts <= m.last_time,
    ensures
        rate_scaled(step_model(m, ts, units, total)) == rate_scaled(m),
{
}

/// The estimator state after a baseline at `(t0, u0)` followed by `k`
/// observations in a perfectly regular cadence: every `dt` milliseconds the
/// progress grows by `du`, against one fixed `total`.
pub open spec fn regular_model(t0: int, u0: int, total: int, dt: int, du: int, k: nat) -> EstimatorModel
    decreases k,
{
    if k == 0 {
        step_model(initial_model(), t0, u0, total)
    } else {
        step_model(
            regular_model(t0, u0, total, dt, du, (k - 1) as nat),
            t0 + k * dt,
            u0 + k * du,
            total,
        )
    }
}

/// Law: under a perfectly regular cadence the smoothed rate equals the true
/// average rate — progress per elapsed time at fixed-point scale — after
/// every observation past the baseline, and it is never negative. The bound
/// on `k * (...)` only keeps the running sum inside its machine range.
pub proof fn lemma_regular_cadence_rate(
    t0: int,
    u0: int,
    total: int,
    dt: int,
    du: int,
    k: nat,
)
    requires
        0 < dt,
        0 <= du,
        0 < total,
        k <= U64_MAX,
        k * (FULL_SCALE * du / (total * dt)) <= U128_MAX,
    ensures
        regular_model(t0, u0, total, dt, du, k).initialized,
        regular_model(t0, u0, total, dt, du, k).base_time == t0,
        regular_model(t0, u0, total, dt, du, k).base_units == u0,
        regular_model(t0, u0, total, dt, du, k).last_time == t0 + k * dt,
        regular_model(t0, u0, total, dt, du, k).last_units == u0 + k * du,
        regular_model(t0, u0, total, dt, du, k).last_total == total,
        regular_model(t0, u0, total, dt, du, k).rate_samples == k,
        regular_model(t0, u0, total, dt, du, k).rate_sum == k * (FULL_SCALE * du / (total * dt)),
        k > 0 ==> rate_scaled(regular_model(t0, u0, total, dt, du, k)) == FULL_SCALE * du / (
        total * dt),
        rate_scaled(regular_model(t0, u0, total, dt, du, k)) >= 0,
    decreases k,
{
    let a = FULL_SCALE * du;
    let d = total * dt;
    assert(d > 0) by (nonlinear_arith)
        requires
            0 < total,
            0 < dt,
            d == total * dt,
    ;
    assert(a >= 0) by (nonlinear_arith)
        requires
            0 <= du,
            a == FULL_SCALE * du,
    ;
    let term = a / d;
    assert(term >= 0) by {
        vstd::arithmetic::div_mod::lemma_div_is_ordered(0, a, d);
    }
    if k == 0 {
        assert(k * dt == 0 && k * du == 0 && k * term == 0) by (nonlinear_arith)
            requires
                k == 0,
        ;
    } else {
        let prev = regular_model(t0, u0, total, dt, du, (k - 1) as nat);
        assert((k - 1) * term <= k * term && k * term == (k - 1) * term + term)
            by (nonlinear_arith)
            requires
                term >= 0,
                k >= 1,
        ;
        lemma_regular_cadence_rate(t0, u0, total, dt, du, (k - 1) as nat);
        let ts = t0 + k * dt;
        let units = u0 + k * du;
        assert(ts > prev.last_time && ts > prev.base_time) by (nonlinear_arith)
            requires
                prev.last_time == t0 + (k - 1) * dt,
                prev.base_time == t0,
                ts == t0 + k * dt,
                k >= 1,
                dt > 0,
        ;
        assert(units >= u0) by (nonlinear_arith)
            requires
                units == u0 + k * du,
                k >= 1,
                du >= 0,
        ;
        let cur = step_model(prev, ts, units, total);
        assert(FULL_SCALE * (units - u0) == k * a && total * (ts - t0) == k * d)
            by (nonlinear_arith)
            requires
                units - u0 == k * du,
                ts - t0 == k * dt,
                a == FULL_SCALE * du,
                d == total * dt,
        ;
        lemma_div_multiples_vanish_quotient(k as int, a, d);
        assert(cumulative_rate(prev, ts, units, total) == term);
        assert(cur.rate_sum == (k - 1) * term + term);
        assert(cur.rate_samples == k);
        assert(cur.rate_sum == k * term);
        assert(cur.rate_sum / k as int == term) by {
            vstd::arithmetic::div_mod::lemma_div_multiples_vanish(term, k as int);
            assert(k * term == k as int * term);
        }
    }
}

/// The same observations with every timestamp shifted by `c`.
pub open spec fn shift_times(obs: Seq<Observation>, c: int) -> Seq<Observation> {
    obs.map(|i: int, o: Observation| Observation { time: o.time + c, ..o })
}

/// The same estimator state with its recorded times shifted by `c`.
pub open spec fn shift_model_times(m: EstimatorModel, c: int) -> EstimatorModel {
    EstimatorModel { base_time: m.base_time + c, last_time: m.last_time + c, ..m }
}

proof fn lemma_step_shift_times(m: EstimatorModel, c: int, ts: int, units: int, total: int)
    ensures
        step_model(shift_model_times(m, c), ts + c, units, total) == shift_model_times(
            step_model(m, ts, units, total),
            c,
        ),
{
}

proof fn lemma_run_shift_times(m: EstimatorModel, obs: Seq<Observation>, c: int)
    ensures
        run_model(shift_model_times(m, c), shift_times(obs, c)) == shift_model_times(
            run_model(m, obs),
            c,
        ),
    decreases obs.len(),
{
    if obs.len() == 0 {
    } else {
        lemma_step_shift_times(m, c, obs[0].time, obs[0].units, obs[0].total);
        assert(shift_times(obs, c).drop_first() =~= shift_times(obs.drop_first(), c));
        lemma_run_shift_times(
            step_model(m, obs[0].time, obs[0].units, obs[0].total),
            obs.drop_first(),
            c,
        );
    }
}

/// Law: shifting every timestamp by one constant — starting a task at any
/// clock reading — changes neither the smoothed rate nor the projected
/// remaining time.
pub proof fn lemma_time_translation_invariance(obs: Seq<Observation>, c: int)
    ensures
        rate_scaled(run_model(initial_model(), shift_times(obs, c))) == rate_scaled(
            run_model(initial_model(), obs),
        ),
        remaining_ms(run_model(initial_model(), shift_times(obs, c))) == remaining_ms(
            run_model(initial_model(), obs),
        ),
{
    if obs.len() == 0 {
    } else {
        let first = step_model(initial_model(), obs[0].time, obs[0].units, obs[0].total);
        assert(step_model(initial_model(), obs[0].time + c, obs[0].units, obs[0].total)
            == shift_model_times(first, c));
        assert(shift_times(obs, c).drop_first() =~= shift_times(obs.drop_first(), c));
        lemma_run_shift_times(first, obs.drop_first(), c);
        let end = run_model(first, obs.drop_first());
        assert(run_model(initial_model(), shift_times(obs, c)) == shift_model_times(end, c));
    }
}

/// The same observations with every progress value shifted by `d`.
pub open spec fn shift_units(obs: Seq<Observation>, d: int) -> Seq<Observation> {
    obs.map(|i: int, o: Observation| Observation { units: o.units + d, ..o })
}

/// The same estimator state with its recorded progress values shifted by `d`.
pub open spec fn shift_model_units(m: EstimatorModel, d: int) -> EstimatorModel {
    EstimatorModel { base_units: m.base_units + d, last_units: m.last_units + d, ..m }
}

proof fn lemma_step_shift_units(m: EstimatorModel, d: int, ts: int, units: int, total: int)
    ensures
        step_model(shift_model_units(m, d), ts, units + d, total) == shift_model_units(
            step_model(m, ts, units, total),
            d,
        ),
{
}

proof fn lemma_run_shift_units(m: EstimatorModel, obs: Seq<Observation>, d: int)
    ensures
        run_model(shift_model_units(m, d), shift_units(obs, d)) == shift_model_units(
            run_model(m, obs),
            d,
        ),
    decreases obs.len(),
{
    if obs.len() == 0 {
    } else {
        lemma_step_shift_units(m, d, obs[0].time, obs[0].units, obs[0].total);
        assert(shift_units(obs, d).drop_first() =~= shift_units(obs.drop_first(), d));
        lemma_run_shift_units(
            step_model(m, obs[0].time, obs[0].units, obs[0].total),
            obs.drop_first(),
            d,
        );
    }
}

/// Law: shifting every progress value by one constant — tracking a task
/// whose counter starts anywhere — changes neither the smoothed rate nor
/// the projected remaining time. Only progress made since the baseline
/// drives the projection, not the absolute counter.
pub proof fn lemma_progress_translation_invariance(obs: Seq<Observation>, d: int)
    ensures
        rate_scaled(run_model(initial_model(), shift_units(obs, d))) == rate_scaled(
            run_model(initial_model(), obs),
        ),
        remaining_ms(run_model(initial_model(), shift_units(obs, d))) == remaining_ms(
            run_model(initial_model(), obs),
        ),
{
    if obs.len() == 0 {
    } else {
        let first = step_model(initial_model(), obs[0].time, obs[0].units, obs[0].total);
        assert(step_model(initial_model(), obs[0].time, obs[0].units + d, obs[0].total)
            == shift_model_units(first, d));
        assert(shift_units(obs, d).drop_first() =~= shift_units(obs.drop_first(), d));
        lemma_run_shift_units(first, obs.drop_first(), d);
        let end = run_model(first, obs.drop_first());
        assert(run_model(initial_model(), shift_units(obs, d)) == shift_model_units(end, d));
    }
}

} // verus!

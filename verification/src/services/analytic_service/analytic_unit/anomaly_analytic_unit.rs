use vstd::prelude::*;
use vstd::arithmetic::div_mod::{
    lemma_fundamental_div_mod, lemma_fundamental_div_mod_converse, lemma_fundamental_div_mod_converse_div,
    lemma_mod_add_multiples_vanish,
};

use super::runs::{runs_closed_at, runs_until};

verus! {

/// The time step, in seconds, at which the anomaly unit reads the metric.
pub const DETECTION_STEP: u64 = 10;

/// The point `offset` seconds back from the end of a series without gaps:
/// `offset / DETECTION_STEP` positions before the last one, if there are that many.
pub open spec fn value_with_offset<T>(ts: Seq<T>, offset: u64) -> Option<T> {
    let k = offset / DETECTION_STEP;
    if ts.len() - 1 < k {
        None
    } else {
        Some(ts[ts.len() - 1 - k])
    }
}

/// The point `offset` seconds back from the end of a series without gaps.
pub fn get_value_with_offset<T: Copy>(ts: &Vec<T>, offset: u64) -> (r: Option<T>)
    requires
        ts@.len() >= 1,
    ensures
        r == value_with_offset(ts@, offset),
{
    let indexes_offset = offset / DETECTION_STEP;
    let n = ts.len() - 1;
    if (n as u64) < indexes_offset {
        return None;
    }
    let i = n - (indexes_offset as usize);
    Some(ts[i])
}

/// The timestamp a seasonal model looks up for `t`: a timestamp before the model's
/// start `from` is moved forward by whole seasons to the first one at or after `from`.
pub open spec fn aligned_timestamp(from: u64, seasonality: u64, t: u64) -> int {
    if t >= from {
        t as int
    } else {
        let len = (from - t) as int;
        t + seasonality * (len / seasonality as int) + (if len % seasonality as int != 0 {
            seasonality as int
        } else {
            0
        })
    }
}

/// The position in a seasonal model of `model_len` points that predicts `t`.
pub open spec fn prediction_index(from: u64, seasonality: u64, model_len: nat, t: u64) -> int {
    ((aligned_timestamp(from, seasonality, t) - from) / DETECTION_STEP as int) % (model_len as int)
}

/// The position in a seasonal model, starting at `from` with `model_len` points one
/// step apart, whose value predicts the metric at `timestamp`.
pub fn sarima_prediction_index(from: u64, seasonality: u64, model_len: usize, timestamp: u64) -> (i: usize)
    requires
        model_len > 0,
        timestamp < from ==> seasonality > 0 && aligned_timestamp(from, seasonality, timestamp)
            <= u64::MAX,
    ensures
        i == prediction_index(from, seasonality, model_len as nat, timestamp),
        i < model_len,
        timestamp < from ==> from <= aligned_timestamp(from, seasonality, timestamp) < from
            + seasonality,
        timestamp < from ==> (aligned_timestamp(from, seasonality, timestamp) - timestamp)
            % seasonality as int == 0,
{
    let mut t = timestamp;
    if t < from {
        let len = from - t;
        proof {
            lemma_fundamental_div_mod(len as int, seasonality as int);
            assert(seasonality * (len / seasonality) <= len) by (nonlinear_arith)
                requires
                    len == seasonality * (len / seasonality) + len % seasonality,
                    len % seasonality >= 0,
            ;
        }
        t = t + seasonality * (len / seasonality);
        if len % seasonality != 0 {
            t = t + seasonality;
        }
        proof {
            let q = (len / seasonality) as int;
            let s = seasonality as int;
            assert(t - timestamp == s * q + (if len % seasonality != 0 { s } else { 0 }));
            if len % seasonality != 0 {
                assert((s * (q + 1)) % s == 0) by {
                    vstd::arithmetic::div_mod::lemma_mod_multiples_basic(q + 1, s);
                    vstd::arithmetic::mul::lemma_mul_is_commutative(q + 1, s);
                }
                assert(s * q + s == s * (q + 1)) by (nonlinear_arith);
            } else {
                assert((s * q) % s == 0) by {
                    vstd::arithmetic::div_mod::lemma_mod_multiples_basic(q, s);
                    vstd::arithmetic::mul::lemma_mul_is_commutative(q, s);
                }
            }
        }
    }
    let len_from = t - from;
    let index_diff = (len_from / DETECTION_STEP) % (model_len as u64);
    index_diff as usize
}

/// Timestamps one season apart are looked up at the same model timestamp when the
/// earlier one lies before the model's start.
proof fn lemma_aligned_shift_before_start(from: u64, seasonality: u64, t: u64)
    requires
        seasonality > 0,
        t < from,
        t + seasonality <= u64::MAX,
    ensures
        aligned_timestamp(from, seasonality, (t + seasonality) as u64) == aligned_timestamp(
            from,
            seasonality,
            t,
        ),
{
    let s = seasonality as int;
    let len = (from - t) as int;
    if t + seasonality < from {
        let l2 = len - s;
        let q = l2 / s;
        let r = l2 % s;
        lemma_fundamental_div_mod(l2, s);
        assert(len == (q + 1) * s + r) by (nonlinear_arith)
            requires
                l2 == s * q + r,
                len == l2 + s,
        ;
        lemma_fundamental_div_mod_converse(len, s, q + 1, r);
        assert(s * (q + 1) == s * q + s) by (nonlinear_arith);
    } else {
        lemma_fundamental_div_mod(len, s);
        if len < s {
            vstd::arithmetic::div_mod::lemma_small_div_converse(len, s);
            vstd::arithmetic::div_mod::lemma_small_mod(len as nat, s as nat);
        } else {
            lemma_fundamental_div_mod_converse(len, s, 1, 0);
        }
    }
}

/// A seasonal model whose length covers exactly one season predicts the same
/// position for timestamps one season apart.
pub proof fn lemma_prediction_is_seasonal(from: u64, seasonality: u64, model_len: nat, t: u64)
    requires
        model_len > 0,
        seasonality == DETECTION_STEP * model_len,
        t + seasonality <= u64::MAX,
    ensures
        prediction_index(from, seasonality, model_len, (t + seasonality) as u64)
            == prediction_index(from, seasonality, model_len, t),
{
    if t < from {
        lemma_aligned_shift_before_start(from, seasonality, t);
    } else {
        let x = (t - from) as int;
        let n = model_len as int;
        let q = x / 10;
        lemma_fundamental_div_mod(x, 10);
        lemma_fundamental_div_mod_converse_div(x + 10 * n, 10, q + n, x % 10);
        assert((x + 10 * n) / 10 == q + n);
        lemma_mod_add_multiples_vanish(q, n);
        assert((n + q) % n == q % n);
        assert(q + n == n + q);
    }
}

/// Whether the model's lookup timestamp for `timestamp` fits in a `u64`, so that
/// `sarima_prediction_index` may be asked for it.
pub fn aligned_timestamp_fits(from: u64, seasonality: u64, timestamp: u64) -> (b: bool)
    requires
        timestamp < from ==> seasonality > 0,
    ensures
        b == (aligned_timestamp(from, seasonality, timestamp) <= u64::MAX),
{
    if timestamp >= from {
        return true;
    }
    let len = from - timestamp;
    let r = len % seasonality;
    proof {
        lemma_fundamental_div_mod(len as int, seasonality as int);
        assert(timestamp + seasonality * (len / seasonality) == from - r);
    }
    if r == 0 {
        return true;
    }
    from - r <= u64::MAX - seasonality
}

/// Why a seasonal model cannot learn from a series.
#[derive(Debug, Clone, Copy, PartialEq, Eq, Structural)]
pub enum SarimaError {
    /// The series has fewer than two points (its length is given).
    TooShort(usize),
    /// The series does not span exactly the learned number of seasons.
    BadSpan,
}

/// Checks that a series of `len` points from `first` to `last` can be learned
/// from: it has two points or more and spans exactly `iterations` seasons.
/// Returns the number of points in one season.
pub fn check_learning_series(len: usize, first: u64, last: u64, seasonality: u64, iterations: u64) -> (r: Result<usize, SarimaError>)
    requires
        len >= 2 ==> first <= last,
        len >= 2 ==> iterations * seasonality <= u64::MAX,
    ensures
        len < 2 ==> r == Err::<usize, SarimaError>(SarimaError::TooShort(len)),
        len >= 2 && last - first != iterations * seasonality ==> r == Err::<usize, SarimaError>(SarimaError::BadSpan),
        len >= 2 && last - first == iterations * seasonality ==> r == Ok::<usize, SarimaError>((seasonality / DETECTION_STEP) as usize),
{
    if len < 2 {
        return Err(SarimaError::TooShort(len));
    }
    let iter_steps = (seasonality / DETECTION_STEP) as usize;
    if last - first != iterations * seasonality {
        return Err(SarimaError::BadSpan);
    }
    Ok(iter_steps)
}

/// Every position that learning one season of `iter_steps` points, averaged over
/// `iterations` seasons, reads lies within a series of `len` points: the point
/// `k + iter_steps * si` of each season and the timestamp at `len - iter_steps + k`.
pub open spec fn season_samples_fit(len: nat, iter_steps: nat, iterations: nat) -> bool {
    iter_steps == 0 || (iter_steps <= len && iter_steps * iterations <= len)
}

/// Whether the positions a seasonal model learns from lie within a series of `len` points.
pub fn season_samples_in_range(len: usize, iter_steps: usize, iterations: u64) -> (b: bool)
    ensures
        b == season_samples_fit(len as nat, iter_steps as nat, iterations as nat),
{
    if iter_steps == 0 {
        return true;
    }
    if iter_steps > len {
        return false;
    }
    let q = len / iter_steps;
    proof {
        lemma_fundamental_div_mod(len as int, iter_steps as int);
        let (a, n, m, l) = (iter_steps as int, iterations as int, q as int, len as int);
        let rem = l % a;
        assert(a * m <= l) by (nonlinear_arith)
            requires l == a * m + rem, rem >= 0;
        assert(l < a * (m + 1)) by (nonlinear_arith)
            requires l == a * m + rem, rem < a;
        if n <= m {
            assert(a * n <= a * m) by (nonlinear_arith) requires n <= m, a > 0;
        } else {
            assert(a * n >= a * (m + 1)) by (nonlinear_arith) requires n >= m + 1, a > 0;
        }
    }
    iterations <= q as u64
}

/// The positions a seasonal model reads: for each step `k` of one season, the
/// points `k + iter_steps * si` of every season `si < iterations`, averaged into
/// the model's value, and the position `len - iter_steps + k` whose timestamp the
/// model keeps.
pub fn season_sample_positions(len: usize, iter_steps: usize, iterations: u64) -> (r: Vec<(Vec<usize>, usize)>)
    requires
        season_samples_fit(len as nat, iter_steps as nat, iterations as nat),
    ensures
        r@.len() == iter_steps,
        forall|k: int|
            0 <= k < iter_steps ==> (#[trigger] r@[k]).1 == len - iter_steps + k && r@[k].0@.len()
                == iterations && forall|si: int|
                0 <= si < iterations ==> #[trigger] r@[k].0@[si] == k + iter_steps * si,
        forall|k: int, si: int|
            0 <= k < iter_steps && 0 <= si < iterations ==> #[trigger] r@[k].0@[si] < len,
{
    let mut r: Vec<(Vec<usize>, usize)> = Vec::new();
    let mut k: usize = 0;
    while k < iter_steps
        invariant
            k <= iter_steps,
            iter_steps > 0 ==> iter_steps <= len && iter_steps * iterations <= len,
            r@.len() == k,
            forall|j: int|
                0 <= j < k ==> (#[trigger] r@[j]).1 == len - iter_steps + j && r@[j].0@.len()
                    == iterations && forall|si: int|
                    0 <= si < iterations ==> #[trigger] r@[j].0@[si] == j + iter_steps * si
                        && r@[j].0@[si] < len,
        decreases iter_steps - k,
    {
        let mut idx: Vec<usize> = Vec::new();
        let mut si: u64 = 0;
        while si < iterations
            invariant
                k < iter_steps,
                iter_steps <= len,
                iter_steps * iterations <= len,
                si <= iterations,
                idx@.len() == si,
                forall|j: int| 0 <= j < si ==> #[trigger] idx@[j] == k + iter_steps * j && idx@[j] < len,
            decreases iterations - si,
        {
            proof {
                let (a, n, x) = (iter_steps as int, iterations as int, si as int);
                assert(a * x + a <= a * n) by (nonlinear_arith)
                    requires x + 1 <= n, a >= 0;
                assert(x <= a * x) by (nonlinear_arith)
                    requires x >= 0, a >= 1;
                assert(si < len);
                assert(k + iter_steps * si < len);
            }
            let p = k + iter_steps * (si as usize);
            idx.push(p);
            si = si + 1;
        }
        r.push((idx, len - iter_steps + k));
        k = k + 1;
    }
    r
}

/// The span `[now - seasonality * iterations, now]` that a seasonal model learns from.
pub fn learning_range(now: u64, seasonality: u64, iterations: u64) -> (r: (u64, u64))
    requires
        seasonality * iterations <= now,
    ensures
        r == ((now - seasonality * iterations) as u64, now),
{
    (now - seasonality * iterations, now)
}

/// Calls `chrono::Utc::now().timestamp()`: the current UNIX time in seconds.
/// Nothing is claimed of it: it is the clock's reading.
#[verifier::external_body]
fn now_timestamp() -> u64 {
    chrono::Utc::now().timestamp() as u64
}

/// The span a seasonal model learns from when it ends at `now`: the last
/// `seasonality * iterations` seconds; `None` when that is more than `now`.
pub open spec fn learning_range_from(now: u64, seasonality: u64, iterations: u64) -> Option<(u64, u64)> {
    if seasonality * iterations <= now {
        Some(((now - seasonality * iterations) as u64, now))
    } else {
        None
    }
}

/// The span a seasonal model learns from when it ends at `now`.
pub fn learning_range_at(now: u64, seasonality: u64, iterations: u64) -> (r: Option<(u64, u64)>)
    ensures
        r == learning_range_from(now, seasonality, iterations),
{
    if iterations > 0 && seasonality > u64::MAX / iterations {
        proof {
            let q = u64::MAX / iterations;
            vstd::arithmetic::div_mod::lemma_fundamental_div_mod(u64::MAX as int, iterations as int);
            assert(u64::MAX - iterations * q < iterations);
            assert(seasonality * iterations >= (q + 1) * iterations) by (nonlinear_arith)
                requires seasonality >= q + 1, iterations > 0;
            assert((q + 1) * iterations == iterations * q + iterations) by (nonlinear_arith);
        }
        return None;
    }
    proof {
        if iterations > 0 {
            assert(seasonality * iterations <= (u64::MAX / iterations) * iterations) by (nonlinear_arith)
                requires seasonality <= u64::MAX / iterations, iterations > 0;
            assert((u64::MAX / iterations) * iterations <= u64::MAX) by (nonlinear_arith)
                requires iterations > 0;
        }
    }
    if seasonality * iterations > now {
        return None;
    }
    Some(learning_range(now, seasonality, iterations))
}

/// The span a seasonal model learns from, ending now; `None` when fewer seconds
/// than `seasonality * iterations` have passed since the epoch. It is always
/// `None` when that product exceeds `u64::MAX`, and always a span when it is zero.
pub fn current_learning_range(seasonality: u64, iterations: u64) -> (r: Option<(u64, u64)>)
    ensures
        exists|now: u64| #![trigger learning_range_from(now, seasonality, iterations)]
            r == learning_range_from(now, seasonality, iterations),
{
    let now = now_timestamp();
    let r = learning_range_at(now, seasonality, iterations);
    assert(r == learning_range_from(now, seasonality, iterations));
    r
}

/// The span read for anomaly detection in `[from, to]`: five seasons of history before `from`.
pub fn detection_query_range(from: u64, to: u64, seasonality: u64) -> (r: (u64, u64))
    requires
        seasonality * 5 <= from,
    ensures
        r == ((from - seasonality * 5) as u64, to),
{
    (from - seasonality * 5, to)
}

/// The metric's points `(time, value outside the confidence band)`.
pub open spec fn outside_marks(points: Seq<(u64, u64, bool)>) -> Seq<(u64, bool)> {
    points.map_values(|p: (u64, u64, bool)| (p.0, p.2))
}

/// A point whose predicted time differs from the metric's time.
pub open spec fn has_time_mismatch(points: Seq<(u64, u64, bool)>) -> bool {
    exists|i: int| 0 <= i < points.len() && points[i].0 != points[i].1
}

/// Why anomaly detection failed.
#[derive(Debug, Clone, Copy, PartialEq, Eq, Structural)]
pub enum AnomalyDetectError {
    /// The prediction and the metric are not on the same timestamps.
    IncompatibleHsr,
}

/// Anomalies from points `(predicted time, metric time, outside the band)`: an
/// error if the two times differ anywhere, else each run of points outside the
/// band, closed at the first point inside it or at `last` (the metric's last time).
pub fn anomaly_runs(points: &Vec<(u64, u64, bool)>, last: u64) -> (r: Result<Vec<(u64, u64)>, AnomalyDetectError>)
    ensures
        r is Err <==> has_time_mismatch(points@),
        r matches Ok(v) ==> v@ == runs_closed_at(outside_marks(points@), last),
{
    let mut marks: Vec<(u64, bool)> = Vec::new();
    let mut i: usize = 0;
    while i < points.len()
        invariant
            i <= points@.len(),
            marks@ == outside_marks(points@.take(i as int)),
            forall|j: int| 0 <= j < i ==> points@[j].0 == points@[j].1,
        decreases points@.len() - i,
    {
        let (t, t1, outside) = points[i];
        if t != t1 {
            return Err(AnomalyDetectError::IncompatibleHsr);
        }
        marks.push((t, outside));
        proof {
            assert(marks@ =~= outside_marks(points@.take(i + 1)));
        }
        i = i + 1;
    }
    proof {
        assert(points@.take(i as int) =~= points@);
    }
    Ok(runs_until(&marks, last))
}

} // verus!

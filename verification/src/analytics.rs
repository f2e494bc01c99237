//! Time series of requests on a grid.
//!
//! Latencies and rates (`L`) come from the database as they are and are carried
//! through.

use std::collections::HashMap;
use vstd::prelude::*;
use crate::time::Timestamp;

verus! {

broadcast use vstd::std_specs::hash::group_hash_axioms;

/// How far apart the points of a time series are.
#[derive(Debug, Clone, Copy, PartialEq, Eq, Structural)]
pub enum TimeGranularity {
    /// Ten minutes.
    TenMinutes,
    /// One hour.
    Hour,
}

impl TimeGranularity {
    /// The distance of two points in minutes.
    pub open spec fn minutes(self) -> int {
        match self {
            TimeGranularity::TenMinutes => 10,
            TimeGranularity::Hour => 60,
        }
    }

    /// The distance of two points in seconds.
    pub open spec fn seconds(self) -> int {
        60 * self.minutes()
    }

    /// The distance of two points in minutes.
    pub fn duration_minutes(self) -> (r: i32)
        ensures
            r == self.minutes(),
    {
        match self {
            TimeGranularity::TenMinutes => 10,
            TimeGranularity::Hour => 60,
        }
    }
}

/// One point of a time series.
#[derive(Debug, Clone, Copy)]
pub struct TimeSeriesPoint<L> {
    pub timestamp: Timestamp,
    pub duration_minutes: i32,
    pub requests: i64,
    pub input_tokens: i64,
    pub output_tokens: i64,
    pub avg_latency_ms: Option<L>,
    pub p95_latency_ms: Option<L>,
    pub p99_latency_ms: Option<L>,
}

/// One point of a model's sparkline.
#[derive(Debug, Clone, Copy, PartialEq, Eq, Structural)]
pub struct ModelTimeSeriesPoint {
    pub timestamp: Timestamp,
    pub requests: i64,
}

/// A row of a time series query.
#[derive(Debug, Clone, Copy)]
pub struct TimeSeriesRow<L> {
    pub timestamp: Option<Timestamp>,
    pub requests_count: Option<i64>,
    pub input_tokens: Option<i64>,
    pub output_tokens: Option<i64>,
    pub avg_latency_ms: Option<L>,
    pub p95_latency_ms: Option<L>,
    pub p99_latency_ms: Option<L>,
}

/// A count, zero where there is none.
pub open spec fn count_of(n: Option<i64>) -> i64 {
    match n {
        Some(v) => v,
        None => 0,
    }
}

pub(crate) fn or_zero(n: Option<i64>) -> (r: i64)
    ensures
        r == count_of(n),
{
    match n {
        Some(v) => v,
        None => 0,
    }
}

/// The point that a row with a timestamp gives.
pub open spec fn point_of_row<L>(row: TimeSeriesRow<L>, minutes: i32) -> TimeSeriesPoint<L> {
    TimeSeriesPoint {
        timestamp: row.timestamp->0,
        duration_minutes: minutes,
        requests: count_of(row.requests_count),
        input_tokens: count_of(row.input_tokens),
        output_tokens: count_of(row.output_tokens),
        avg_latency_ms: row.avg_latency_ms,
        p95_latency_ms: row.p95_latency_ms,
        p99_latency_ms: row.p99_latency_ms,
    }
}

/// The points of the first `n` rows; rows without a timestamp give none.
pub open spec fn points_of_rows<L>(rows: Seq<TimeSeriesRow<L>>, minutes: i32, n: int) -> Seq<
    TimeSeriesPoint<L>,
>
    decreases n,
{
    if n <= 0 {
        Seq::empty()
    } else if rows[n - 1].timestamp is Some {
        points_of_rows(rows, minutes, n - 1).push(point_of_row(rows[n - 1], minutes))
    } else {
        points_of_rows(rows, minutes, n - 1)
    }
}

/// The points of a time series query's rows.
pub fn series_points<L: Copy>(rows: &Vec<TimeSeriesRow<L>>, granularity: TimeGranularity) -> (r: Vec<
    TimeSeriesPoint<L>,
>)
    ensures
        r@ == points_of_rows(rows@, granularity.minutes() as i32, rows@.len() as int),
{
    let minutes: i32 = granularity.duration_minutes();
    let mut out: Vec<TimeSeriesPoint<L>> = Vec::new();
    let mut i: usize = 0;
    while i < rows.len()
        invariant
            i <= rows@.len(),
            out@ == points_of_rows(rows@, minutes, i as int),
        decreases rows@.len() - i,
    {
        let row = rows[i];
        match row.timestamp {
            Some(timestamp) => {
                out.push(
                    TimeSeriesPoint {
                        timestamp,
                        duration_minutes: minutes,
                        requests: or_zero(row.requests_count),
                        input_tokens: or_zero(row.input_tokens),
                        output_tokens: or_zero(row.output_tokens),
                        avg_latency_ms: row.avg_latency_ms,
                        p95_latency_ms: row.p95_latency_ms,
                        p99_latency_ms: row.p99_latency_ms,
                    },
                );
            },
            None => {},
        }
        i = i + 1;
    }
    out
}

/// The last multiple of `step` at or before a second.
pub open spec fn floor_to(secs: int, step: int) -> int {
    secs - secs % step
}

fn floor_hour(secs: i64) -> (r: i64)
    requires
        i64::MIN + 3600 <= secs,
    ensures
        r == floor_to(secs as int, 3600),
{
    let over: i64 = secs.checked_rem_euclid(3600).unwrap();
    secs - over
}

fn floor_ten_minutes(secs: i64) -> (r: i64)
    requires
        i64::MIN + 600 <= secs,
    ensures
        r == floor_to(secs as int, 600),
{
    let over: i64 = secs.checked_rem_euclid(600).unwrap();
    secs - over
}

/// The point on a whole second.
pub open spec fn on_second(secs: int) -> Timestamp {
    Timestamp { secs: secs as i64, nanos: 0 }
}

/// A point of a series on a grid of seconds.
pub trait GridPoint: Copy {
    /// When the point stands.
    spec fn at(self) -> Timestamp;

    /// The point without any request.
    spec fn zero_at(secs: int, minutes: int) -> Self;

    /// The point without any request stands where it is asked to.
    proof fn zero_stands(secs: int, minutes: int)
        ensures
            Self::zero_at(secs, minutes).at() == on_second(secs),
    ;

    /// When the point stands.
    fn stamp(&self) -> (r: Timestamp)
        ensures
            r == self.at(),
    ;

    /// The point without any request.
    fn zero(secs: i64, minutes: i32) -> (r: Self)
        ensures
            r == Self::zero_at(secs as int, minutes as int),
    ;
}

impl<L: Copy> GridPoint for TimeSeriesPoint<L> {
    open spec fn at(self) -> Timestamp {
        self.timestamp
    }

    open spec fn zero_at(secs: int, minutes: int) -> TimeSeriesPoint<L> {
        TimeSeriesPoint {
            timestamp: on_second(secs),
            duration_minutes: minutes as i32,
            requests: 0,
            input_tokens: 0,
            output_tokens: 0,
            avg_latency_ms: None,
            p95_latency_ms: None,
            p99_latency_ms: None,
        }
    }

    proof fn zero_stands(secs: int, minutes: int) {
    }

    fn stamp(&self) -> (r: Timestamp) {
        self.timestamp
    }

    fn zero(secs: i64, minutes: i32) -> (r: TimeSeriesPoint<L>) {
        TimeSeriesPoint {
            timestamp: Timestamp { secs, nanos: 0 },
            duration_minutes: minutes,
            requests: 0,
            input_tokens: 0,
            output_tokens: 0,
            avg_latency_ms: None,
            p95_latency_ms: None,
            p99_latency_ms: None,
        }
    }
}

impl GridPoint for ModelTimeSeriesPoint {
    open spec fn at(self) -> Timestamp {
        self.timestamp
    }

    open spec fn zero_at(secs: int, minutes: int) -> ModelTimeSeriesPoint {
        ModelTimeSeriesPoint { timestamp: on_second(secs), requests: 0 }
    }

    proof fn zero_stands(secs: int, minutes: int) {
    }

    fn stamp(&self) -> (r: Timestamp) {
        self.timestamp
    }

    fn zero(secs: i64, minutes: i32) -> (r: ModelTimeSeriesPoint) {
        ModelTimeSeriesPoint { timestamp: Timestamp { secs, nanos: 0 }, requests: 0 }
    }
}

/// The last of the first `n` points that stands on a second.
pub open spec fn last_point_at<P: GridPoint>(series: Seq<P>, secs: int, n: int) -> Option<int>
    decreases n,
{
    if n <= 0 {
        None
    } else if series[n - 1].at().secs == secs && series[n - 1].at().nanos == 0 {
        Some(n - 1)
    } else {
        last_point_at(series, secs, n - 1)
    }
}

/// What stands at a second of the grid: the series' own point, or zeros.
pub open spec fn slot<P: GridPoint>(series: Seq<P>, secs: int, minutes: int) -> P {
    match last_point_at(series, secs, series.len() as int) {
        Some(i) => series[i],
        None => P::zero_at(secs, minutes),
    }
}

/// The `i`th second of a grid.
pub open spec fn tick(first: int, step: int, i: int) -> int {
    first + i * step
}

/// Whether `filled` is a series on its whole grid: a point for every step from
/// `first` up to `end`, and no more.
pub open spec fn is_filled<P: GridPoint>(
    filled: Seq<P>,
    series: Seq<P>,
    first: int,
    end: int,
    step: int,
) -> bool {
    &&& forall|i: int| 0 <= i < filled.len() ==> #[trigger] tick(first, step, i) <= end
    &&& forall|i: int|
        0 <= i < filled.len() ==> #[trigger] filled[i] == slot(
            series,
            tick(first, step, i),
            step / 60,
        )
    &&& tick(first, step, filled.len() as int) > end
}

/// Whether a map gives the place of the last of the first `n` points on a
/// second.
pub open spec fn gives_place<P: GridPoint>(
    places: Map<i64, usize>,
    series: Seq<P>,
    n: int,
    secs: i64,
) -> bool {
    match last_point_at(series, secs as int, n) {
        Some(i) => places.contains_key(secs) && places[secs] == i && 0 <= i < n,
        None => !places.contains_key(secs),
    }
}

/// The places of a series' points by the second they stand on.
fn index_points<P: GridPoint>(series: &Vec<P>) -> (r: HashMap<i64, usize>)
    ensures
        forall|secs: i64| #[trigger] gives_place(r@, series@, series@.len() as int, secs),
{
    let mut places: HashMap<i64, usize> = HashMap::new();
    let mut n: usize = 0;
    while n < series.len()
        invariant
            n <= series@.len(),
            forall|secs: i64| #[trigger] gives_place(places@, series@, n as int, secs),
        decreases series@.len() - n,
    {
        let ghost before = places@;
        let stamp = series[n].stamp();
        if stamp.nanos == 0 {
            let key: i64 = stamp.secs;
            places.insert(key, n);
        }
        assert forall|secs: i64| #[trigger] gives_place(places@, series@, n + 1, secs) by {
            assert(gives_place(before, series@, n as int, secs));
        }
        n = n + 1;
    }
    places
}

/// Fills a series on a grid from the second `first` up to the second `end`.
fn fill<P: GridPoint>(
    series: &Vec<P>,
    first: i64,
    end: i64,
    granularity: TimeGranularity,
) -> (r: Vec<P>)
    requires
        end + granularity.seconds() <= i64::MAX,
    ensures
        is_filled(r@, series@, first as int, end as int, granularity.seconds()),
{
    let minutes: i32 = granularity.duration_minutes();
    let step: i64 = 60 * minutes as i64;
    let places = index_points(series);
    let mut out: Vec<P> = Vec::new();
    let mut current: i64 = first;
    assert(0 * step == 0) by (nonlinear_arith);
    while current <= end
        invariant
            step == granularity.seconds(),
            minutes == step as int / 60,
            end + step <= i64::MAX,
            current == tick(first as int, step as int, out@.len() as int),
            forall|secs: i64| #[trigger] gives_place(places@, series@, series@.len() as int, secs),
            forall|i: int|
                0 <= i < out@.len() ==> #[trigger] tick(first as int, step as int, i) <= end,
            forall|i: int|
                0 <= i < out@.len() ==> #[trigger] out@[i] == slot(
                    series@,
                    tick(first as int, step as int, i),
                    step as int / 60,
                ),
        decreases end - current + step,
    {
        let ghost n = out@.len();
        assert(gives_place(places@, series@, series@.len() as int, current));
        match places.get(&current) {
            Some(place) => {
                out.push(series[*place]);
            },
            None => {
                out.push(P::zero(current, minutes));
            },
        }
        assert((n + 1) * step == n * step + step) by (nonlinear_arith);
        current = current + step;
    }
    out
}

/// A series on every hour from the hour of the start up to the end, with zeros
/// where it has no point. Of several points on one hour the last counts.
pub fn fill_missing_intervals<L: Copy>(
    time_series: Vec<TimeSeriesPoint<L>>,
    time_range_start: Timestamp,
    time_range_end: Timestamp,
) -> (r: Vec<TimeSeriesPoint<L>>)
    requires
        i64::MIN + 3600 <= time_range_start.secs,
        time_range_end.secs <= i64::MAX - 3600,
    ensures
        is_filled(
            r@,
            time_series@,
            floor_to(time_range_start.secs as int, 3600),
            time_range_end.secs as int,
            3600,
        ),
{
    fill(
        &time_series,
        floor_hour(time_range_start.secs),
        time_range_end.secs,
        TimeGranularity::Hour,
    )
}

/// A series on every ten minutes from those of the start up to the end, with
/// zeros where it has no point.
pub fn fill_missing_intervals_ten_minutes<L: Copy>(
    time_series: Vec<TimeSeriesPoint<L>>,
    time_range_start: Timestamp,
    time_range_end: Timestamp,
) -> (r: Vec<TimeSeriesPoint<L>>)
    requires
        i64::MIN + 600 <= time_range_start.secs,
        time_range_end.secs <= i64::MAX - 600,
    ensures
        is_filled(
            r@,
            time_series@,
            floor_to(time_range_start.secs as int, 600),
            time_range_end.secs as int,
            600,
        ),
{
    fill(
        &time_series,
        floor_ten_minutes(time_range_start.secs),
        time_range_end.secs,
        TimeGranularity::TenMinutes,
    )
}

/// A sparkline on every ten minutes from those of the start up to the end, with
/// zeros where it has no point.
pub fn fill_missing_intervals_for_sparklines(
    time_series: Vec<ModelTimeSeriesPoint>,
    time_range_start: Timestamp,
    time_range_end: Timestamp,
) -> (r: Vec<ModelTimeSeriesPoint>)
    requires
        i64::MIN + 600 <= time_range_start.secs,
        time_range_end.secs <= i64::MAX - 600,
    ensures
        is_filled(
            r@,
            time_series@,
            floor_to(time_range_start.secs as int, 600),
            time_range_end.secs as int,
            600,
        ),
{
    fill(
        &time_series,
        floor_ten_minutes(time_range_start.secs),
        time_range_end.secs,
        TimeGranularity::TenMinutes,
    )
}

/// The time series of a query's rows on the whole grid of a granularity.
pub fn filled_series<L: Copy>(
    rows: &Vec<TimeSeriesRow<L>>,
    time_range_start: Timestamp,
    time_range_end: Timestamp,
    granularity: TimeGranularity,
) -> (r: Vec<TimeSeriesPoint<L>>)
    requires
        i64::MIN + 3600 <= time_range_start.secs,
        time_range_end.secs <= i64::MAX - 3600,
    ensures
        is_filled(
            r@,
            points_of_rows(rows@, granularity.minutes() as i32, rows@.len() as int),
            floor_to(time_range_start.secs as int, granularity.seconds()),
            time_range_end.secs as int,
            granularity.seconds(),
        ),
{
    let points = series_points(rows, granularity);
    match granularity {
        TimeGranularity::Hour => fill_missing_intervals(points, time_range_start, time_range_end),
        TimeGranularity::TenMinutes => fill_missing_intervals_ten_minutes(
            points,
            time_range_start,
            time_range_end,
        ),
    }
}

proof fn lemma_last_point_at<P: GridPoint>(series: Seq<P>, secs: int, n: int)
    requires
        0 <= n <= series.len(),
    ensures
        match last_point_at(series, secs, n) {
            Some(i) => 0 <= i < n && series[i].at().secs == secs && series[i].at().nanos
                == 0 && forall|j: int|
                i < j < n ==> !((#[trigger] series[j]).at().secs == secs
                    && series[j].at().nanos == 0),
            None => forall|j: int|
                0 <= j < n ==> !((#[trigger] series[j]).at().secs == secs
                    && series[j].at().nanos == 0),
        },
    decreases n,
{
    if n > 0 {
        lemma_last_point_at(series, secs, n - 1);
    }
}

/// The points of a filled series stand on the grid, in order, one step apart.
pub proof fn law_filled_series_is_the_grid<P: GridPoint>(
    filled: Seq<P>,
    series: Seq<P>,
    first: int,
    end: int,
    step: int,
    i: int,
)
    requires
        is_filled(filled, series, first, end, step),
        step == 600 || step == 3600,
        i64::MIN <= first,
        end <= i64::MAX,
        0 <= i < filled.len(),
    ensures
        filled[i].at() == on_second(tick(first, step, i)),
        filled[i].at().secs == tick(first, step, i),
{
    let secs = tick(first, step, i);
    assert(0 <= i * step) by (nonlinear_arith)
        requires
            0 <= i,
            step > 0,
    ;
    assert(filled[i] == slot(series, secs, step / 60));
    lemma_last_point_at(series, secs, series.len() as int);
    P::zero_stands(secs, step / 60);
}

/// A point of the series that stands on the grid within the range is in the
/// filled series, unless a later one stands on the same second.
pub proof fn law_filled_series_keeps_points<P: GridPoint>(
    filled: Seq<P>,
    series: Seq<P>,
    first: int,
    end: int,
    step: int,
    k: int,
    place: int,
)
    requires
        is_filled(filled, series, first, end, step),
        step > 0,
        0 <= k < series.len(),
        0 <= place,
        series[k].at().secs == tick(first, step, place),
        series[k].at().nanos == 0,
        series[k].at().secs <= end,
        forall|j: int|
            k < j < series.len() ==> (#[trigger] series[j]).at() != series[k].at(),
    ensures
        place < filled.len(),
        filled[place] == series[k],
{
    if place >= filled.len() {
        assert(filled.len() * step <= place * step) by (nonlinear_arith)
            requires
                filled.len() <= place,
                step > 0,
        ;
        assert(false);
    }
    lemma_last_point_at(series, tick(first, step, place), series.len() as int);
    assert(filled[place] == slot(series, tick(first, step, place), step / 60));
    let found = last_point_at(series, tick(first, step, place), series.len() as int);
    assert(found is Some) by {
        if found is None {
            assert(!(series[k].at().secs == tick(first, step, place) && series[k].at().nanos
                == 0));
        }
    }
    let i = found->0;
    if i > k {
        assert(series[i].at() != series[k].at());
    } else if i < k {
        assert(!(series[k].at().secs == tick(first, step, place) && series[k].at().nanos
            == 0));
    }
}

/// Filling a filled series again changes nothing.
pub proof fn law_filling_is_idempotent<P: GridPoint>(
    filled: Seq<P>,
    again: Seq<P>,
    series: Seq<P>,
    first: int,
    end: int,
    step: int,
)
    requires
        is_filled(filled, series, first, end, step),
        is_filled(again, filled, first, end, step),
        step == 600 || step == 3600,
        i64::MIN <= first,
        end <= i64::MAX,
    ensures
        again == filled,
{
    assert(again.len() == filled.len()) by {
        if again.len() < filled.len() {
            let i = again.len() as int;
            assert(filled[i] == slot(series, tick(first, step, i), step / 60));
        } else if filled.len() < again.len() {
            let i = filled.len() as int;
            assert(again[i] == slot(filled, tick(first, step, i), step / 60));
        }
    }
    assert forall|i: int| 0 <= i < filled.len() implies again[i] == filled[i] by {
        law_filled_series_is_the_grid(filled, series, first, end, step, i);
        assert forall|j: int| i < j < filled.len() implies (#[trigger] filled[j]).at()
            != filled[i].at() by {
            law_filled_series_is_the_grid(filled, series, first, end, step, j);
            assert(i * step < j * step) by (nonlinear_arith)
                requires
                    i < j,
                    step > 0,
            ;
        }
        law_filled_series_keeps_points(again, filled, first, end, step, i, i);
    }
    assert(again =~= filled);
}

/// How many of the first `n` rows have a timestamp.
pub open spec fn stamped<L>(rows: Seq<TimeSeriesRow<L>>, n: int) -> int
    decreases n,
{
    if n <= 0 {
        0
    } else {
        stamped(rows, n - 1) + if rows[n - 1].timestamp is Some {
            1int
        } else {
            0int
        }
    }
}

/// A count that is there is shown as it is, and one that is not as zero.
pub proof fn law_known_counts_are_shown(n: i64)
    ensures
        count_of(Some(n)) == n,
        count_of(None) == 0,
{
}

proof fn lemma_stamped<L>(rows: Seq<TimeSeriesRow<L>>, minutes: i32, n: int)
    requires
        0 <= n <= rows.len(),
    ensures
        points_of_rows(rows, minutes, n).len() == stamped(rows, n),
        forall|i: int|
            0 <= i < n && (#[trigger] rows[i]).timestamp is Some ==> 0 <= stamped(rows, i)
                < stamped(rows, n) && points_of_rows(rows, minutes, n)[stamped(rows, i)]
                == point_of_row(rows[i], minutes),
    decreases n,
{
    if n > 0 {
        lemma_stamped(rows, minutes, n - 1);
    }
}

/// Every row with a timestamp gives one point, in the order of the rows: on that
/// timestamp, with the row's own requests and tokens where it has them and zero
/// where it has none, and with its latencies.
pub proof fn law_every_row_is_a_point<L>(rows: Seq<TimeSeriesRow<L>>, minutes: i32, i: int)
    requires
        0 <= i < rows.len(),
        rows[i].timestamp is Some,
    ensures
        ({
            let points = points_of_rows(rows, minutes, rows.len() as int);
            let p = points[stamped(rows, i)];
            &&& points.len() == stamped(rows, rows.len() as int)
            &&& 0 <= stamped(rows, i) < points.len()
            &&& Some(p.timestamp) == rows[i].timestamp
            &&& p.duration_minutes == minutes
            &&& rows[i].requests_count == Some(p.requests) || (rows[i].requests_count is None
                && p.requests == 0)
            &&& rows[i].input_tokens == Some(p.input_tokens) || (rows[i].input_tokens is None
                && p.input_tokens == 0)
            &&& rows[i].output_tokens == Some(p.output_tokens) || (rows[i].output_tokens is None
                && p.output_tokens == 0)
            &&& p.avg_latency_ms == rows[i].avg_latency_ms
            &&& p.p95_latency_ms == rows[i].p95_latency_ms
            &&& p.p99_latency_ms == rows[i].p99_latency_ms
        }),
{
    lemma_stamped(rows, minutes, rows.len() as int);
}

/// The requests and tokens of points, summed up.
pub open spec fn totals_of_points<L>(points: Seq<TimeSeriesPoint<L>>) -> (int, int, int)
    decreases points.len(),
{
    if points.len() == 0 {
        (0, 0, 0)
    } else {
        let (r, i, o) = totals_of_points(points.drop_last());
        let p = points.last();
        (r + p.requests, i + p.input_tokens, o + p.output_tokens)
    }
}

/// The known requests and tokens of the first `n` rows with a timestamp, summed
/// up.
pub open spec fn totals_of_rows<L>(rows: Seq<TimeSeriesRow<L>>, n: int) -> (int, int, int)
    decreases n,
{
    if n <= 0 {
        (0, 0, 0)
    } else {
        let (r, i, o) = totals_of_rows(rows, n - 1);
        let row = rows[n - 1];
        if row.timestamp is None {
            (r, i, o)
        } else {
            (
                r + if row.requests_count is Some {
                    row.requests_count->0 as int
                } else {
                    0
                },
                i + if row.input_tokens is Some {
                    row.input_tokens->0 as int
                } else {
                    0
                },
                o + if row.output_tokens is Some {
                    row.output_tokens->0 as int
                } else {
                    0
                },
            )
        }
    }
}

/// No request and no token is lost or made up on the way from rows to points:
/// the sums are the same.
pub proof fn law_points_sum_up_to_the_rows<L>(rows: Seq<TimeSeriesRow<L>>, minutes: i32, n: int)
    requires
        0 <= n <= rows.len(),
    ensures
        totals_of_points(points_of_rows(rows, minutes, n)) == totals_of_rows(rows, n),
    decreases n,
{
    if n > 0 {
        law_points_sum_up_to_the_rows(rows, minutes, n - 1);
        let before = points_of_rows(rows, minutes, n - 1);
        if rows[n - 1].timestamp is Some {
            assert(points_of_rows(rows, minutes, n).drop_last() =~= before);
        }
    }
}

/// A grid begins at the last step at or before the start.
pub proof fn law_grid_begins_at_the_start(secs: int, step: int)
    requires
        step > 0,
    ensures
        floor_to(secs, step) <= secs < floor_to(secs, step) + step,
        floor_to(secs, step) % step == 0,
{
    vstd::arithmetic::div_mod::lemma_fundamental_div_mod(secs, step);
    vstd::arithmetic::div_mod::lemma_mod_multiples_basic(secs / step, step);
    assert(step * (secs / step) == (secs / step) * step) by (nonlinear_arith);
}

/// The steps of a time series are ten minutes or an hour.
pub proof fn law_granularity_is_its_name(g: TimeGranularity)
    ensures
        g is TenMinutes ==> g.minutes() == 10 && g.seconds() == 10 * 60,
        g is Hour ==> g.minutes() == 60 && g.seconds() == 60 * 60,
{
}

/// A row that stands on the grid within the range is shown there, with its own
/// requests and tokens, unless a later row stands on the same second.
pub proof fn law_filled_series_shows_the_rows<L: Copy>(
    filled: Seq<TimeSeriesPoint<L>>,
    rows: Seq<TimeSeriesRow<L>>,
    minutes: i32,
    first: int,
    end: int,
    step: int,
    i: int,
    place: int,
)
    requires
        is_filled(
            filled,
            points_of_rows(rows, minutes, rows.len() as int),
            first,
            end,
            step,
        ),
        step > 0,
        0 <= i < rows.len(),
        0 <= place,
        rows[i].timestamp == Some(on_second(first + place * step)),
        i64::MIN <= first + place * step <= end,
        end <= i64::MAX,
        forall|j: int|
            i < j < rows.len() ==> (#[trigger] rows[j]).timestamp != rows[i].timestamp,
    ensures
        place < filled.len(),
        Some(filled[place].timestamp) == rows[i].timestamp,
        filled[place].duration_minutes == minutes,
        rows[i].requests_count == Some(filled[place].requests) || (rows[i].requests_count is None
            && filled[place].requests == 0),
        rows[i].input_tokens == Some(filled[place].input_tokens) || (rows[i].input_tokens is None
            && filled[place].input_tokens == 0),
        rows[i].output_tokens == Some(filled[place].output_tokens) || (rows[i].output_tokens is None
            && filled[place].output_tokens == 0),
        filled[place].avg_latency_ms == rows[i].avg_latency_ms,
        filled[place].p95_latency_ms == rows[i].p95_latency_ms,
        filled[place].p99_latency_ms == rows[i].p99_latency_ms,
{
    let n = rows.len() as int;
    let points = points_of_rows(rows, minutes, n);
    let k = stamped(rows, i);
    law_every_row_is_a_point(rows, minutes, i);
    assert forall|q: int| k < q < points.len() implies (#[trigger] points[q]).at()
        != points[k].at() by {
        lemma_later_point_differs(rows, minutes, i, q);
    }
    law_filled_series_keeps_points(filled, points, first, end, step, k, place);
}

proof fn lemma_stamped_grows<L>(rows: Seq<TimeSeriesRow<L>>, a: int, b: int)
    ensures
        a <= b ==> stamped(rows, a) <= stamped(rows, b),
    decreases b - a,
{
    if a < b {
        lemma_stamped_grows(rows, a, b - 1);
    }
}

/// The row with a timestamp that a point comes from.
proof fn lemma_row_of_point<L>(rows: Seq<TimeSeriesRow<L>>, minutes: i32, n: int, q: int) -> (j: int)
    requires
        0 <= n <= rows.len(),
        0 <= q < points_of_rows(rows, minutes, n).len(),
    ensures
        0 <= j < n,
        rows[j].timestamp is Some,
        stamped(rows, j) == q,
        points_of_rows(rows, minutes, n)[q] == point_of_row(rows[j], minutes),
    decreases n,
{
    lemma_stamped(rows, minutes, n - 1);
    if q < points_of_rows(rows, minutes, n - 1).len() {
        lemma_row_of_point(rows, minutes, n - 1, q)
    } else {
        n - 1
    }
}

/// A point behind that of a row stands elsewhere, if all later rows do.
proof fn lemma_later_point_differs<L: Copy>(
    rows: Seq<TimeSeriesRow<L>>,
    minutes: i32,
    i: int,
    q: int,
)
    requires
        0 <= i < rows.len(),
        rows[i].timestamp is Some,
        stamped(rows, i) < q < points_of_rows(rows, minutes, rows.len() as int).len(),
        forall|j: int|
            i < j < rows.len() ==> (#[trigger] rows[j]).timestamp != rows[i].timestamp,
    ensures
        Some(points_of_rows(rows, minutes, rows.len() as int)[q].timestamp) != rows[i].timestamp,
{
    law_every_row_is_a_point(rows, minutes, i);
    let j = lemma_row_of_point(rows, minutes, rows.len() as int, q);
    lemma_stamped_grows(rows, j, i);
    assert(rows[j].timestamp != rows[i].timestamp);
}

/// Where no row stands on a second of the grid, nothing happened there: the point
/// has no request, no token and no latency.
pub proof fn law_gaps_are_shown_empty<L: Copy>(
    filled: Seq<TimeSeriesPoint<L>>,
    rows: Seq<TimeSeriesRow<L>>,
    minutes: i32,
    first: int,
    end: int,
    step: int,
    place: int,
)
    requires
        is_filled(
            filled,
            points_of_rows(rows, minutes, rows.len() as int),
            first,
            end,
            step,
        ),
        step == 600 || step == 3600,
        i64::MIN <= first,
        end <= i64::MAX,
        0 <= place < filled.len(),
        forall|j: int|
            0 <= j < rows.len() ==> (#[trigger] rows[j]).timestamp != Some(
                on_second(first + place * step),
            ),
    ensures
        filled[place].timestamp == on_second(first + place * step),
        filled[place].duration_minutes == step / 60,
        filled[place].requests == 0,
        filled[place].input_tokens == 0,
        filled[place].output_tokens == 0,
        filled[place].avg_latency_ms is None,
        filled[place].p95_latency_ms is None,
        filled[place].p99_latency_ms is None,
{
    let n = rows.len() as int;
    let points = points_of_rows(rows, minutes, n);
    let secs = tick(first, step, place);
    law_filled_series_is_the_grid(filled, points, first, end, step, place);
    lemma_last_point_at(points, secs, points.len() as int);
    assert(filled[place] == slot(points, secs, step / 60));
    assert(0 <= place * step) by (nonlinear_arith)
        requires
            0 <= place,
            step > 0,
    ;
    if let Some(q) = last_point_at(points, secs, points.len() as int) {
        let j = lemma_row_of_point(rows, minutes, n, q);
        law_every_row_is_a_point(rows, minutes, j);
        assert(points[q].timestamp == on_second(secs));
        assert(rows[j].timestamp == Some(on_second(secs)));
        assert(false);
    }
}

/// Where a sparkline has no point on a second of the grid, it shows no request.
pub proof fn law_sparkline_gaps_are_empty(
    filled: Seq<ModelTimeSeriesPoint>,
    series: Seq<ModelTimeSeriesPoint>,
    first: int,
    end: int,
    step: int,
    place: int,
)
    requires
        is_filled(filled, series, first, end, step),
        step == 600 || step == 3600,
        i64::MIN <= first,
        end <= i64::MAX,
        0 <= place < filled.len(),
        forall|j: int|
            0 <= j < series.len() ==> (#[trigger] series[j]).timestamp != on_second(
                first + place * step,
            ),
    ensures
        filled[place].timestamp == on_second(first + place * step),
        filled[place].requests == 0,
{
    let secs = tick(first, step, place);
    law_filled_series_is_the_grid(filled, series, first, end, step, place);
    lemma_last_point_at(series, secs, series.len() as int);
    assert(filled[place] == slot(series, secs, step / 60));
    assert(0 <= place * step) by (nonlinear_arith)
        requires
            0 <= place,
            step > 0,
    ;
    if let Some(q) = last_point_at(series, secs, series.len() as int) {
        assert(series[q].timestamp == on_second(secs));
        assert(false);
    }
}

/// A time series shows every row that stands on its grid within the range, unless
/// a later row stands on the same second: with the row's own requests and tokens,
/// zero only for a count that is missing, and with its latencies.
pub proof fn law_series_show_every_row<L: Copy>(
    rows: Vec<TimeSeriesRow<L>>,
    start: Timestamp,
    end: Timestamp,
    granularity: TimeGranularity,
    r: Vec<TimeSeriesPoint<L>>,
    i: int,
    place: int,
)
    requires
        call_ensures(filled_series::<L>, (&rows, start, end, granularity), r),
        i64::MIN + 3600 <= start.secs,
        end.secs <= i64::MAX - 3600,
        0 <= i < rows@.len(),
        0 <= place,
        rows@[i].timestamp is Some,
        (rows@[i].timestamp->0).nanos == 0,
        (rows@[i].timestamp->0).secs <= end.secs,
        (rows@[i].timestamp->0).secs == start.secs - start.secs as int % granularity.seconds()
            + place * granularity.seconds(),
        forall|j: int|
            i < j < rows@.len() ==> (#[trigger] rows@[j]).timestamp != rows@[i].timestamp,
    ensures
        place < r@.len(),
        Some(r@[place].timestamp) == rows@[i].timestamp,
        rows@[i].requests_count is Some ==> r@[place].requests == rows@[i].requests_count->0,
        rows@[i].requests_count is None ==> r@[place].requests == 0,
        rows@[i].input_tokens is Some ==> r@[place].input_tokens == rows@[i].input_tokens->0,
        rows@[i].input_tokens is None ==> r@[place].input_tokens == 0,
        rows@[i].output_tokens is Some ==> r@[place].output_tokens == rows@[i].output_tokens->0,
        rows@[i].output_tokens is None ==> r@[place].output_tokens == 0,
        r@[place].avg_latency_ms == rows@[i].avg_latency_ms,
        r@[place].p95_latency_ms == rows@[i].p95_latency_ms,
        r@[place].p99_latency_ms == rows@[i].p99_latency_ms,
        r@[place].duration_minutes == (if granularity is Hour {
            60int
        } else {
            10int
        }),
{
    let step = granularity.seconds();
    let first = floor_to(start.secs as int, step);
    law_filled_series_shows_the_rows(
        r@,
        rows@,
        granularity.minutes() as i32,
        first,
        end.secs as int,
        step,
        i,
        place,
    );
}

/// A time series has a point on every step from that of the start up to the end,
/// and no more, in order.
pub proof fn law_series_cover_the_range<L: Copy>(
    rows: Vec<TimeSeriesRow<L>>,
    start: Timestamp,
    end: Timestamp,
    granularity: TimeGranularity,
    r: Vec<TimeSeriesPoint<L>>,
    place: int,
)
    requires
        call_ensures(filled_series::<L>, (&rows, start, end, granularity), r),
        i64::MIN + 3600 <= start.secs,
        end.secs <= i64::MAX - 3600,
        0 <= place < r@.len(),
    ensures
        ({
            let step = if granularity is Hour {
                3600int
            } else {
                600int
            };
            let first = start.secs - start.secs as int % step;
            &&& r@[place].timestamp.secs == first + place * step
            &&& r@[place].timestamp.nanos == 0
            &&& r@[place].timestamp.secs <= end.secs
            &&& first + r@.len() * step > end.secs
        }),
{
    let step = granularity.seconds();
    let first = floor_to(start.secs as int, step);
    let points = points_of_rows(rows@, granularity.minutes() as i32, rows@.len() as int);
    law_filled_series_is_the_grid(r@, points, first, end.secs as int, step, place);
    assert(tick(first, step, place) <= end.secs);
    assert(tick(first, step, r@.len() as int) > end.secs);
}

/// A sparkline that is filled has a point on every ten minutes from those of the
/// start up to the end.
pub proof fn law_filled_sparklines_cover_the_range(
    series: Vec<ModelTimeSeriesPoint>,
    start: Timestamp,
    end: Timestamp,
    r: Vec<ModelTimeSeriesPoint>,
    place: int,
)
    requires
        call_ensures(fill_missing_intervals_for_sparklines, (series, start, end), r),
        i64::MIN + 600 <= start.secs,
        end.secs <= i64::MAX - 600,
        0 <= place < r@.len(),
    ensures
        r@[place].timestamp.secs == start.secs - start.secs as int % 600 + place * 600,
        r@[place].timestamp.secs <= end.secs,
        start.secs - start.secs as int % 600 + r@.len() * 600 > end.secs,
{
    let first = floor_to(start.secs as int, 600);
    law_filled_series_is_the_grid(r@, series@, first, end.secs as int, 600, place);
    assert(tick(first, 600, place) <= end.secs);
    assert(tick(first, 600, r@.len() as int) > end.secs);
}

}

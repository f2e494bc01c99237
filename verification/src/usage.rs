//! Usage records: breakdowns, model metrics, user and batch usage, and the
//! entries of the request log.
//!
//! Latencies, rates and floating-point costs (`L`) come from the database as
//! they are and are carried through.

use std::collections::HashMap;
use vstd::prelude::*;
use crate::amount::{
    law_whole_parts_are_cut_toward_zero, lemma_ten_to_positive, ten_to, Amount, Number,
};
use crate::analytics::{
    count_of, fill_missing_intervals_for_sparklines, floor_to, is_filled, or_zero, ModelTimeSeriesPoint,
    TimeSeriesPoint,
};
use crate::ids::{id_digits, id_text};
use crate::names::{distinct, join, joined, text_or_none, texts, without_repeats};
use crate::order::{sort, text_order};
use crate::text::{same_text, signed_decimal, signed_decimal_text};
use crate::time::Timestamp;

verus! {

broadcast use vstd::std_specs::hash::group_hash_axioms;

/// A row of the status code query.
#[derive(Debug)]
pub struct StatusCodeRow {
    pub status_code: Option<i32>,
    pub status_count: Option<i64>,
}

/// How many requests ended with a status.
#[derive(Debug)]
pub struct StatusCodeBreakdown {
    pub status: String,
    pub count: i64,
}

/// A row of the model usage query.
#[derive(Debug)]
pub struct ModelUsageRow<L> {
    pub model_name: Option<String>,
    pub model_count: Option<i64>,
    pub model_avg_latency_ms: Option<L>,
}

/// How many requests a model served.
#[derive(Debug)]
pub struct ModelUsage<L> {
    pub model: String,
    pub count: i64,
    pub avg_latency_ms: Option<L>,
}

/// All of a time range's requests, together.
#[derive(Debug)]
pub struct RequestsAggregate<L> {
    pub total_requests: i64,
    pub model: Option<String>,
    pub status_codes: Vec<StatusCodeBreakdown>,
    pub models: Option<Vec<ModelUsage<L>>>,
    pub time_series: Vec<TimeSeriesPoint<L>>,
}

/// The statuses and counts of the first `n` rows that have both.
pub open spec fn status_counts(rows: Seq<StatusCodeRow>, n: int) -> Seq<(Seq<char>, i64)>
    decreases n,
{
    if n <= 0 {
        Seq::empty()
    } else {
        let before = status_counts(rows, n - 1);
        match (rows[n - 1].status_code, rows[n - 1].status_count) {
            (Some(code), Some(count)) => before.push((signed_decimal(code as int), count)),
            _ => before,
        }
    }
}

/// The views of a status breakdown.
pub open spec fn status_views(list: Seq<StatusCodeBreakdown>) -> Seq<(Seq<char>, i64)> {
    list.map_values(|s: StatusCodeBreakdown| (s.status@, s.count))
}

/// The breakdown by status: rows without a code or a count are left out.
pub fn status_breakdown(rows: &Vec<StatusCodeRow>) -> (r: Vec<StatusCodeBreakdown>)
    ensures
        status_views(r@) == status_counts(rows@, rows@.len() as int),
{
    let mut out: Vec<StatusCodeBreakdown> = Vec::new();
    let mut i: usize = 0;
    assert(status_views(out@) =~= status_counts(rows@, 0));
    while i < rows.len()
        invariant
            i <= rows@.len(),
            status_views(out@) == status_counts(rows@, i as int),
        decreases rows@.len() - i,
    {
        let ghost before = out@;
        match (rows[i].status_code, rows[i].status_count) {
            (Some(code), Some(count)) => {
                out.push(StatusCodeBreakdown { status: signed_decimal_text(code as i64), count });
                assert(status_views(out@) =~= status_views(before).push(
                    (signed_decimal(code as int), count),
                ));
            },
            _ => {},
        }
        i = i + 1;
    }
    out
}

/// The models, counts and latencies of the first `n` rows that have a model and
/// a count.
pub open spec fn model_counts<L>(rows: Seq<ModelUsageRow<L>>, n: int) -> Seq<
    (Seq<char>, i64, Option<L>),
>
    decreases n,
{
    if n <= 0 {
        Seq::empty()
    } else {
        let before = model_counts(rows, n - 1);
        match (rows[n - 1].model_name, rows[n - 1].model_count) {
            (Some(name), Some(count)) => before.push(
                (name@, count, rows[n - 1].model_avg_latency_ms),
            ),
            _ => before,
        }
    }
}

/// The views of a model breakdown.
pub open spec fn usage_views<L>(list: Seq<ModelUsage<L>>) -> Seq<(Seq<char>, i64, Option<L>)> {
    list.map_values(|m: ModelUsage<L>| (m.model@, m.count, m.avg_latency_ms))
}

/// The breakdown by model: rows without a model or a count are left out.
pub fn model_breakdown<L: Copy>(rows: &Vec<ModelUsageRow<L>>) -> (r: Vec<ModelUsage<L>>)
    ensures
        usage_views(r@) == model_counts(rows@, rows@.len() as int),
{
    let mut out: Vec<ModelUsage<L>> = Vec::new();
    let mut i: usize = 0;
    assert(usage_views(out@) =~= model_counts(rows@, 0));
    while i < rows.len()
        invariant
            i <= rows@.len(),
            usage_views(out@) == model_counts(rows@, i as int),
        decreases rows@.len() - i,
    {
        let ghost before = out@;
        let row = &rows[i];
        match (&row.model_name, row.model_count) {
            (Some(name), Some(count)) => {
                out.push(
                    ModelUsage {
                        model: name.clone(),
                        count,
                        avg_latency_ms: row.model_avg_latency_ms,
                    },
                );
                assert(usage_views(out@) =~= usage_views(before).push(
                    (name@, count, row.model_avg_latency_ms),
                ));
            },
            _ => {},
        }
        i = i + 1;
    }
    out
}

/// All of a time range's requests, from the rows of its queries. A view of one
/// model has no breakdown by model, nor has one without any model row.
pub fn requests_aggregate<L: Copy>(
    total_requests: Option<i64>,
    model_filter: Option<&str>,
    status_rows: &Vec<StatusCodeRow>,
    model_rows: &Vec<ModelUsageRow<L>>,
    time_series: Vec<TimeSeriesPoint<L>>,
) -> (r: RequestsAggregate<L>)
    ensures
        r.total_requests == count_of(total_requests),
        text_or_none(r.model) == crate::names::str_or_none(model_filter),
        status_views(r.status_codes@) == status_counts(status_rows@, status_rows@.len() as int),
        match r.models {
            Some(models) => model_filter is None && model_rows@.len() > 0 && usage_views(models@)
                == model_counts(model_rows@, model_rows@.len() as int),
            None => model_filter is Some || model_rows@.len() == 0,
        },
        r.time_series == time_series,
{
    let models = if model_filter.is_none() && model_rows.len() > 0 {
        Some(model_breakdown(model_rows))
    } else {
        None
    };
    RequestsAggregate {
        total_requests: or_zero(total_requests),
        model: match model_filter {
            Some(m) => Some(m.to_owned()),
            None => None,
        },
        status_codes: status_breakdown(status_rows),
        models,
        time_series,
    }
}

/// The key under which the metrics of models are cached, and the models sorted:
/// the key does not depend on the order in which they are asked for.
pub fn metrics_cache_key(model_aliases: &Vec<String>) -> (r: (Vec<String>, String))
    ensures
        vstd::relations::sorted_by(texts(r.0@), text_order()),
        texts(r.0@).to_multiset() == texts(model_aliases@).to_multiset(),
        r.1@ == joined(texts(r.0@), ","@),
{
    let sorted = sort(model_aliases);
    let key = join(&sorted, ",");
    (sorted, key)
}

/// Whatever the order in which the same models are asked for, the cache key is
/// the same.
pub proof fn law_cache_key_forgets_order(a: Seq<Seq<char>>, b: Seq<Seq<char>>)
    requires
        vstd::relations::sorted_by(a, text_order()),
        vstd::relations::sorted_by(b, text_order()),
        a.to_multiset() == b.to_multiset(),
    ensures
        joined(a, ","@) == joined(b, ","@),
{
    crate::order::law_sorting_forgets_order(a, b);
}

/// A row of the model metrics query.
#[derive(Debug)]
pub struct ModelMetricsRow<L> {
    pub model: Option<String>,
    pub total_requests: Option<i64>,
    pub avg_latency_ms: Option<L>,
    pub total_input_tokens: Option<i64>,
    pub total_output_tokens: Option<i64>,
    pub last_active_at: Option<Timestamp>,
}

/// A row of the sparkline query.
#[derive(Debug)]
pub struct BulkTimeSeriesRow {
    pub model: Option<String>,
    pub timestamp: Option<Timestamp>,
    pub requests_count: Option<i64>,
}

/// What a model did.
#[derive(Debug)]
pub struct ModelMetrics<L> {
    pub avg_latency_ms: Option<L>,
    pub total_requests: i64,
    pub total_input_tokens: i64,
    pub total_output_tokens: i64,
    pub last_active_at: Option<Timestamp>,
    pub time_series: Option<Vec<ModelTimeSeriesPoint>>,
}

/// The last of the first `n` rows of a model.
pub open spec fn metrics_row_of<L>(rows: Seq<ModelMetricsRow<L>>, model: Seq<char>, n: int) -> Option<
    int,
>
    decreases n,
{
    if n <= 0 {
        None
    } else if text_or_none(rows[n - 1].model) == Some(model) {
        Some(n - 1)
    } else {
        metrics_row_of(rows, model, n - 1)
    }
}

/// The sparkline points of a model, of the first `n` rows.
pub open spec fn points_of_model(rows: Seq<BulkTimeSeriesRow>, model: Seq<char>, n: int) -> Seq<
    ModelTimeSeriesPoint,
>
    decreases n,
{
    if n <= 0 {
        Seq::empty()
    } else {
        let row = rows[n - 1];
        let before = points_of_model(rows, model, n - 1);
        if text_or_none(row.model) == Some(model) && row.timestamp is Some {
            before.push(
                ModelTimeSeriesPoint {
                    timestamp: row.timestamp->0,
                    requests: count_of(row.requests_count),
                },
            )
        } else {
            before
        }
    }
}

/// Where a sparkline that ends now begins: two hours before.
pub open spec fn two_hours_before(now: Timestamp) -> Timestamp {
    Timestamp { secs: (now.secs - 7200) as i64, nanos: now.nanos }
}

/// Where a sparkline that ends now begins: two hours before.
pub fn sparkline_start(now: Timestamp) -> (r: Timestamp)
    requires
        i64::MIN + 7200 <= now.secs,
    ensures
        r == two_hours_before(now),
{
    Timestamp { secs: now.secs - 7200, nanos: now.nanos }
}

/// Whether metrics are those of a model: its row's counts, or zeros where it has
/// none, and its sparkline on the whole grid, where there are sparkline rows.
pub open spec fn are_metrics_of<L>(
    m: ModelMetrics<L>,
    model: Seq<char>,
    rows: Seq<ModelMetricsRow<L>>,
    series_rows: Option<Seq<BulkTimeSeriesRow>>,
    now: Timestamp,
) -> bool {
    &&& (match metrics_row_of(rows, model, rows.len() as int) {
        Some(i) => m.avg_latency_ms == rows[i].avg_latency_ms && m.total_requests == count_of(
            rows[i].total_requests,
        ) && m.total_input_tokens == count_of(rows[i].total_input_tokens) && m.total_output_tokens
            == count_of(rows[i].total_output_tokens) && m.last_active_at == rows[i].last_active_at,
        None => m.avg_latency_ms is None && m.total_requests == 0 && m.total_input_tokens == 0
            && m.total_output_tokens == 0 && m.last_active_at is None,
    })
    &&& (match series_rows {
        Some(series) => m.time_series matches Some(points) && is_filled(
            points@,
            points_of_model(series, model, series.len() as int),
            floor_to(two_hours_before(now).secs as int, 600),
            now.secs as int,
            600,
        ),
        None => m.time_series is None,
    })
}

fn model_points(rows: &Vec<BulkTimeSeriesRow>, model: &str) -> (r: Vec<ModelTimeSeriesPoint>)
    ensures
        r@ == points_of_model(rows@, model@, rows@.len() as int),
{
    let mut out: Vec<ModelTimeSeriesPoint> = Vec::new();
    let mut i: usize = 0;
    while i < rows.len()
        invariant
            i <= rows@.len(),
            out@ == points_of_model(rows@, model@, i as int),
        decreases rows@.len() - i,
    {
        let row = &rows[i];
        match (&row.model, row.timestamp) {
            (Some(name), Some(timestamp)) => {
                if same_text(name.as_str(), model) {
                    out.push(
                        ModelTimeSeriesPoint { timestamp, requests: or_zero(row.requests_count) },
                    );
                }
            },
            _ => {},
        }
        i = i + 1;
    }
    out
}

fn find_metrics_row<L>(rows: &Vec<ModelMetricsRow<L>>, model: &str) -> (r: Option<usize>)
    ensures
        match r {
            Some(i) => i < rows@.len() && metrics_row_of(rows@, model@, rows@.len() as int) == Some(
                i as int,
            ),
            None => metrics_row_of(rows@, model@, rows@.len() as int) is None,
        },
{
    let mut n: usize = rows.len();
    while n > 0
        invariant
            n <= rows@.len(),
            metrics_row_of(rows@, model@, rows@.len() as int) == metrics_row_of(
                rows@,
                model@,
                n as int,
            ),
        decreases n,
    {
        let found = match &rows[n - 1].model {
            Some(name) => same_text(name.as_str(), model),
            None => false,
        };
        if found {
            return Some(n - 1);
        }
        n = n - 1;
    }
    None
}

/// The metrics of each model that is asked for. A model without any row has
/// zeros; the sparklines are there only if their query gave rows to read.
pub fn model_metrics<L: Copy>(
    model_aliases: &Vec<String>,
    rows: &Vec<ModelMetricsRow<L>>,
    series_rows: Option<&Vec<BulkTimeSeriesRow>>,
    now: Timestamp,
) -> (r: Vec<(String, ModelMetrics<L>)>)
    requires
        i64::MIN + 7800 <= now.secs <= i64::MAX - 600,
    ensures
        r@.map_values(|e: (String, ModelMetrics<L>)| e.0@) == without_repeats(texts(model_aliases@)),
        forall|i: int|
            0 <= i < r@.len() ==> are_metrics_of(
                (#[trigger] r@[i]).1,
                r@[i].0@,
                rows@,
                match series_rows {
                    Some(s) => Some(s@),
                    None => None,
                },
                now,
            ),
{
    let models = distinct(model_aliases);
    let start = sparkline_start(now);
    let ghost series = match series_rows {
        Some(s) => Some(s@),
        None => None,
    };
    let mut out: Vec<(String, ModelMetrics<L>)> = Vec::new();
    let mut i: usize = 0;
    while i < models.len()
        invariant
            i <= models@.len(),
            out@.len() == i,
            start == two_hours_before(now),
            i64::MIN + 7800 <= now.secs <= i64::MAX - 600,
            series == (match series_rows {
                Some(s) => Some(s@),
                None => None,
            }),
            forall|j: int| 0 <= j < i ==> (#[trigger] out@[j]).0@ == models@[j]@,
            forall|j: int|
                0 <= j < i ==> are_metrics_of(
                    (#[trigger] out@[j]).1,
                    out@[j].0@,
                    rows@,
                    series,
                    now,
                ),
        decreases models@.len() - i,
    {
        let model = models[i].as_str();
        let time_series = match series_rows {
            Some(s) => Some(
                fill_missing_intervals_for_sparklines(model_points(s, model), start, now),
            ),
            None => None,
        };
        let metrics = match find_metrics_row(rows, model) {
            Some(place) => {
                let row = &rows[place];
                ModelMetrics {
                    avg_latency_ms: row.avg_latency_ms,
                    total_requests: or_zero(row.total_requests),
                    total_input_tokens: or_zero(row.total_input_tokens),
                    total_output_tokens: or_zero(row.total_output_tokens),
                    last_active_at: row.last_active_at,
                    time_series,
                }
            },
            None => ModelMetrics {
                avg_latency_ms: None,
                total_requests: 0,
                total_input_tokens: 0,
                total_output_tokens: 0,
                last_active_at: None,
                time_series,
            },
        };
        out.push((models[i].clone(), metrics));
        i = i + 1;
    }
    assert(out@.map_values(|e: (String, ModelMetrics<L>)| e.0@) =~= texts(models@));
    out
}

/// A row of the user usage query.
#[derive(Debug)]
pub struct UserUsageRow<L> {
    pub user_id: Option<u128>,
    pub user_email: Option<String>,
    pub request_count: Option<i64>,
    pub total_input_tokens: Option<i64>,
    pub total_output_tokens: Option<i64>,
    pub total_tokens: Option<i64>,
    pub total_cost: Option<L>,
    pub last_active_at: Option<Timestamp>,
}

/// What a user asked of a model.
#[derive(Debug)]
pub struct UserUsage<L> {
    pub user_id: Option<String>,
    pub user_email: Option<String>,
    pub request_count: i64,
    pub total_tokens: i64,
    pub input_tokens: i64,
    pub output_tokens: i64,
    pub total_cost: Option<L>,
    pub last_active_at: Option<Timestamp>,
}

/// What users asked of a model, each and all together.
#[derive(Debug)]
pub struct ModelUserUsageResponse<L> {
    pub model: String,
    pub start_date: Timestamp,
    pub end_date: Timestamp,
    pub total_requests: i64,
    pub total_tokens: i64,
    pub total_cost: Option<L>,
    pub users: Vec<UserUsage<L>>,
}

/// Whether a record is the usage of a row.
pub open spec fn is_usage_of<L>(u: UserUsage<L>, row: UserUsageRow<L>) -> bool {
    &&& text_or_none(u.user_id) == (match row.user_id {
        Some(id) => Some(id_digits(id)),
        None => None,
    })
    &&& text_or_none(u.user_email) == text_or_none(row.user_email)
    &&& u.request_count == count_of(row.request_count)
    &&& u.total_tokens == count_of(row.total_tokens)
    &&& u.input_tokens == count_of(row.total_input_tokens)
    &&& u.output_tokens == count_of(row.total_output_tokens)
    &&& u.total_cost == row.total_cost
    &&& u.last_active_at == row.last_active_at
}

/// What users asked of a model in a time range, from the rows of its queries.
pub fn model_user_usage<L: Copy>(
    model_alias: &str,
    start_date: Timestamp,
    end_date: Timestamp,
    user_rows: &Vec<UserUsageRow<L>>,
    total_requests: Option<i64>,
    total_tokens: Option<i64>,
    total_cost: Option<L>,
) -> (r: ModelUserUsageResponse<L>)
    ensures
        r.model@ == model_alias@,
        r.start_date == start_date,
        r.end_date == end_date,
        r.total_requests == count_of(total_requests),
        r.total_tokens == count_of(total_tokens),
        r.total_cost == total_cost,
        r.users@.len() == user_rows@.len(),
        forall|i: int|
            0 <= i < user_rows@.len() ==> is_usage_of(#[trigger] r.users@[i], user_rows@[i]),
{
    let mut users: Vec<UserUsage<L>> = Vec::new();
    let mut i: usize = 0;
    while i < user_rows.len()
        invariant
            i <= user_rows@.len(),
            users@.len() == i,
            forall|j: int| 0 <= j < i ==> is_usage_of(#[trigger] users@[j], user_rows@[j]),
        decreases user_rows@.len() - i,
    {
        let row = &user_rows[i];
        users.push(
            UserUsage {
                user_id: match row.user_id {
                    Some(id) => Some(id_text(id)),
                    None => None,
                },
                user_email: match &row.user_email {
                    Some(email) => Some(email.clone()),
                    None => None,
                },
                request_count: or_zero(row.request_count),
                total_tokens: or_zero(row.total_tokens),
                input_tokens: or_zero(row.total_input_tokens),
                output_tokens: or_zero(row.total_output_tokens),
                total_cost: row.total_cost,
                last_active_at: row.last_active_at,
            },
        );
        i = i + 1;
    }
    ModelUserUsageResponse {
        model: model_alias.to_owned(),
        start_date,
        end_date,
        total_requests: or_zero(total_requests),
        total_tokens: or_zero(total_tokens),
        total_cost,
        users,
    }
}

/// A row of the batch analytics query.
#[derive(Debug)]
pub struct BatchAnalyticsRow<L> {
    pub batch_id: Option<u128>,
    pub total_requests: i64,
    pub total_prompt_tokens: Amount,
    pub total_completion_tokens: Amount,
    pub total_tokens: Amount,
    pub avg_duration_ms: Option<L>,
    pub avg_ttfb_ms: Option<L>,
    pub total_cost: Option<Amount>,
}

/// What a batch used.
#[derive(Debug)]
pub struct BatchAnalytics<L> {
    pub total_requests: i64,
    pub total_prompt_tokens: i64,
    pub total_completion_tokens: i64,
    pub total_tokens: i64,
    pub avg_duration_ms: Option<L>,
    pub avg_ttfb_ms: Option<L>,
    pub total_cost: Option<String>,
}

/// A sum as a count: its whole part, or zero where that does not fit.
pub open spec fn whole_count(n: Number) -> i64 {
    if i64::MIN <= n.whole() <= i64::MAX {
        n.whole() as i64
    } else {
        0
    }
}

fn count_from(sum: Amount) -> (r: i64)
    ensures
        r == whole_count(sum@),
{
    match sum.to_i64() {
        Some(n) => n,
        None => 0,
    }
}

/// The digits of an optional amount.
pub open spec fn cost_digits(cost: Option<Amount>) -> Option<Seq<char>> {
    match cost {
        Some(c) => Some(c@.digits()),
        None => None,
    }
}

fn cost_text(cost: Option<Amount>) -> (r: Option<String>)
    ensures
        text_or_none(r) == cost_digits(cost),
{
    match cost {
        Some(c) => Some(c.text()),
        None => None,
    }
}

/// Whether analytics are those of a row.
pub open spec fn are_analytics_of<L>(a: BatchAnalytics<L>, row: BatchAnalyticsRow<L>) -> bool {
    &&& a.total_requests == row.total_requests
    &&& a.total_prompt_tokens == whole_count(row.total_prompt_tokens@)
    &&& a.total_completion_tokens == whole_count(row.total_completion_tokens@)
    &&& a.total_tokens == whole_count(row.total_tokens@)
    &&& a.avg_duration_ms == row.avg_duration_ms
    &&& a.avg_ttfb_ms == row.avg_ttfb_ms
    &&& text_or_none(a.total_cost) == cost_digits(row.total_cost)
}

/// Whether analytics are those of a batch without any request.
pub open spec fn are_empty_analytics<L>(a: BatchAnalytics<L>) -> bool {
    &&& a.total_requests == 0
    &&& a.total_prompt_tokens == 0
    &&& a.total_completion_tokens == 0
    &&& a.total_tokens == 0
    &&& a.avg_duration_ms is None
    &&& a.avg_ttfb_ms is None
    &&& a.total_cost is None
}

/// The analytics of a batch, from its row.
pub fn batch_analytics<L: Copy>(row: &BatchAnalyticsRow<L>) -> (r: BatchAnalytics<L>)
    ensures
        are_analytics_of(r, *row),
{
    BatchAnalytics {
        total_requests: row.total_requests,
        total_prompt_tokens: count_from(row.total_prompt_tokens),
        total_completion_tokens: count_from(row.total_completion_tokens),
        total_tokens: count_from(row.total_tokens),
        avg_duration_ms: row.avg_duration_ms,
        avg_ttfb_ms: row.avg_ttfb_ms,
        total_cost: cost_text(row.total_cost),
    }
}

/// The last of the first `n` rows of a batch.
pub open spec fn batch_row_of<L>(rows: Seq<BatchAnalyticsRow<L>>, batch: u128, n: int) -> Option<int>
    decreases n,
{
    if n <= 0 {
        None
    } else if rows[n - 1].batch_id == Some(batch) {
        Some(n - 1)
    } else {
        batch_row_of(rows, batch, n - 1)
    }
}

/// Whether a map gives a batch what it is to have: its row's analytics, those of
/// an empty batch where it is only asked for, or nothing.
pub open spec fn gives_batch<L>(
    result: Map<u128, BatchAnalytics<L>>,
    rows: Seq<BatchAnalyticsRow<L>>,
    asked: Seq<u128>,
    batch: u128,
) -> bool {
    match batch_row_of(rows, batch, rows.len() as int) {
        Some(i) => result.contains_key(batch) && are_analytics_of(result[batch], rows[i]),
        None => if asked.contains(batch) {
            result.contains_key(batch) && are_empty_analytics(result[batch])
        } else {
            !result.contains_key(batch)
        },
    }
}

/// Whether a map gives a batch the analytics of the last of its first `n` rows.
spec fn gives_row<L>(
    result: Map<u128, BatchAnalytics<L>>,
    rows: Seq<BatchAnalyticsRow<L>>,
    n: int,
    batch: u128,
) -> bool {
    match batch_row_of(rows, batch, n) {
        Some(i) => result.contains_key(batch) && are_analytics_of(result[batch], rows[i]),
        None => !result.contains_key(batch),
    }
}

proof fn lemma_take_push<T>(s: Seq<T>, n: int, x: T)
    requires
        0 <= n < s.len(),
    ensures
        s.take(n + 1).contains(x) <==> (s.take(n).contains(x) || s[n] == x),
{
    let longer = s.take(n + 1);
    let shorter = s.take(n);
    if longer.contains(x) {
        let i = choose|i: int| 0 <= i < longer.len() && longer[i] == x;
        if i < n {
            assert(shorter[i] == x);
        }
    }
    if shorter.contains(x) {
        let i = choose|i: int| 0 <= i < shorter.len() && shorter[i] == x;
        assert(longer[i] == x);
    }
    assert(longer[n] == s[n]);
}

/// The analytics of several batches: every batch that is asked for has some.
pub fn batches_analytics<L: Copy>(rows: &Vec<BatchAnalyticsRow<L>>, batch_ids: &Vec<u128>) -> (r:
    HashMap<u128, BatchAnalytics<L>>)
    ensures
        forall|batch: u128| #[trigger] gives_batch(r@, rows@, batch_ids@, batch),
{
    let mut result: HashMap<u128, BatchAnalytics<L>> = HashMap::new();
    let mut n: usize = 0;
    while n < rows.len()
        invariant
            n <= rows@.len(),
            forall|batch: u128| #[trigger] gives_row(result@, rows@, n as int, batch),
        decreases rows@.len() - n,
    {
        let ghost before = result@;
        match rows[n].batch_id {
            Some(batch_id) => {
                result.insert(batch_id, batch_analytics(&rows[n]));
            },
            None => {},
        }
        assert forall|batch: u128| #[trigger] gives_row(result@, rows@, n + 1, batch) by {
            assert(gives_row(before, rows@, n as int, batch));
        }
        n = n + 1;
    }
    let mut k: usize = 0;
    assert forall|batch: u128| #[trigger]
        gives_batch(result@, rows@, batch_ids@.take(0), batch) by {
        assert(gives_row(result@, rows@, rows@.len() as int, batch));
    }
    while k < batch_ids.len()
        invariant
            k <= batch_ids@.len(),
            forall|batch: u128| #[trigger]
                gives_batch(result@, rows@, batch_ids@.take(k as int), batch),
        decreases batch_ids@.len() - k,
    {
        let ghost before = result@;
        let batch_id: u128 = batch_ids[k];
        assert(gives_batch(before, rows@, batch_ids@.take(k as int), batch_id));
        if !result.contains_key(&batch_id) {
            result.insert(
                batch_id,
                BatchAnalytics {
                    total_requests: 0,
                    total_prompt_tokens: 0,
                    total_completion_tokens: 0,
                    total_tokens: 0,
                    avg_duration_ms: None,
                    avg_ttfb_ms: None,
                    total_cost: None,
                },
            );
        }
        assert forall|batch: u128| #[trigger]
            gives_batch(result@, rows@, batch_ids@.take(k + 1), batch) by {
            assert(gives_batch(before, rows@, batch_ids@.take(k as int), batch));
            lemma_take_push(batch_ids@, k as int, batch);
        }
        k = k + 1;
    }
    assert(batch_ids@.take(batch_ids@.len() as int) =~= batch_ids@);
    result
}

/// Every batch that is asked for is in the answer, and a batch that is neither
/// asked for nor has a row is not.
pub proof fn law_every_asked_batch_is_answered<L>(
    result: Map<u128, BatchAnalytics<L>>,
    rows: Seq<BatchAnalyticsRow<L>>,
    asked: Seq<u128>,
    batch: u128,
)
    requires
        gives_batch(result, rows, asked, batch),
    ensures
        asked.contains(batch) ==> result.contains_key(batch),
        result.contains_key(batch) ==> asked.contains(batch) || batch_row_of(
            rows,
            batch,
            rows.len() as int,
        ) is Some,
{
}

/// A row of the request log.
#[derive(Debug)]
pub struct HttpAnalyticsRow {
    pub id: i64,
    pub timestamp: Timestamp,
    pub method: String,
    pub uri: String,
    pub model: Option<String>,
    pub status_code: Option<i32>,
    pub duration_ms: Option<i64>,
    pub prompt_tokens: Option<i64>,
    pub completion_tokens: Option<i64>,
    pub total_tokens: Option<i64>,
    pub response_type: Option<String>,
    pub fusillade_batch_id: Option<u128>,
    pub input_price_per_token: Option<Amount>,
    pub output_price_per_token: Option<Amount>,
    pub custom_id: Option<String>,
}

/// An entry of the request log, its prices in digits.
#[derive(Debug)]
pub struct AnalyticsEntry {
    pub id: i64,
    pub timestamp: Timestamp,
    pub method: String,
    pub uri: String,
    pub model: Option<String>,
    pub status_code: Option<i32>,
    pub duration_ms: Option<i64>,
    pub prompt_tokens: Option<i64>,
    pub completion_tokens: Option<i64>,
    pub total_tokens: Option<i64>,
    pub response_type: Option<String>,
    pub fusillade_batch_id: Option<u128>,
    pub input_price_per_token: Option<String>,
    pub output_price_per_token: Option<String>,
    pub custom_id: Option<String>,
}

/// Whether an entry is that of a row.
pub open spec fn is_entry_of(e: AnalyticsEntry, row: HttpAnalyticsRow) -> bool {
    &&& e.id == row.id
    &&& e.timestamp == row.timestamp
    &&& e.method == row.method
    &&& e.uri == row.uri
    &&& e.model == row.model
    &&& e.status_code == row.status_code
    &&& e.duration_ms == row.duration_ms
    &&& e.prompt_tokens == row.prompt_tokens
    &&& e.completion_tokens == row.completion_tokens
    &&& e.total_tokens == row.total_tokens
    &&& e.response_type == row.response_type
    &&& e.fusillade_batch_id == row.fusillade_batch_id
    &&& text_or_none(e.input_price_per_token) == cost_digits(row.input_price_per_token)
    &&& text_or_none(e.output_price_per_token) == cost_digits(row.output_price_per_token)
    &&& e.custom_id == row.custom_id
}

fn analytics_entry(row: HttpAnalyticsRow) -> (r: AnalyticsEntry)
    ensures
        is_entry_of(r, row),
{
    AnalyticsEntry {
        id: row.id,
        timestamp: row.timestamp,
        method: row.method,
        uri: row.uri,
        model: row.model,
        status_code: row.status_code,
        duration_ms: row.duration_ms,
        prompt_tokens: row.prompt_tokens,
        completion_tokens: row.completion_tokens,
        total_tokens: row.total_tokens,
        response_type: row.response_type,
        fusillade_batch_id: row.fusillade_batch_id,
        input_price_per_token: cost_text(row.input_price_per_token),
        output_price_per_token: cost_text(row.output_price_per_token),
        custom_id: row.custom_id,
    }
}

/// The entries of rows that come newest first: in that order, or the other way
/// round where the oldest is to come first.
pub fn analytics_entries(rows: Vec<HttpAnalyticsRow>, order_desc: bool) -> (r: Vec<AnalyticsEntry>)
    ensures
        r@.len() == rows@.len(),
        forall|i: int|
            0 <= i < rows@.len() ==> is_entry_of(
                #[trigger] r@[i],
                if order_desc {
                    rows@[i]
                } else {
                    rows@[rows@.len() - 1 - i]
                },
            ),
{
    let mut rest = rows;
    let mut out: Vec<AnalyticsEntry> = Vec::new();
    let ghost n = rows@.len();
    while rest.len() > 0
        invariant
            out@.len() + rest@.len() == n,
            n == rows@.len(),
            rest@ == rows@.take(rest@.len() as int),
            forall|i: int| 0 <= i < out@.len() ==> is_entry_of(#[trigger] out@[i], rows@[n - 1 - i]),
        decreases rest@.len(),
    {
        let ghost before = rest@;
        let row = rest.pop().unwrap();
        assert(row == rows@[before.len() - 1]);
        assert(rest@ =~= rows@.take(rest@.len() as int));
        out.push(analytics_entry(row));
    }
    if !order_desc {
        return out;
    }
    let mut turned: Vec<AnalyticsEntry> = Vec::new();
    let ghost reversed = out@;
    while out.len() > 0
        invariant
            turned@.len() + out@.len() == n,
            n == rows@.len(),
            reversed.len() == n,
            out@ == reversed.take(out@.len() as int),
            forall|i: int|
                0 <= i < n ==> is_entry_of(#[trigger] reversed[i], rows@[n - 1 - i]),
            forall|i: int|
                0 <= i < turned@.len() ==> #[trigger] turned@[i] == reversed[n - 1 - i],
        decreases out@.len(),
    {
        let ghost before = out@;
        let entry = out.pop().unwrap();
        assert(entry == reversed[before.len() - 1]);
        assert(out@ =~= reversed.take(out@.len() as int));
        turned.push(entry);
    }
    assert forall|i: int| 0 <= i < n implies is_entry_of(#[trigger] turned@[i], rows@[i]) by {
        assert(is_entry_of(reversed[n - 1 - i], rows@[i]));
    }
    turned
}

/// The pattern that matches a custom identifier anywhere in a text.
pub fn custom_id_pattern(custom_id: &Option<String>) -> (r: Option<String>)
    ensures
        text_or_none(r) == (match custom_id {
            Some(id) => Some("%"@ + id@ + "%"@),
            None => None,
        }),
{
    match custom_id {
        Some(id) => Some("%".to_owned().concat(id.as_str()).concat("%")),
        None => None,
    }
}

/// The digits of a cost, `0` where there is none.
pub open spec fn cost_or_zero(cost: Option<Amount>) -> Seq<char> {
    match cost {
        Some(c) => c@.digits(),
        None => "0"@,
    }
}

/// A cost in digits, `0` where there is none.
pub fn cost_or_zero_text(cost: Option<Amount>) -> (r: String)
    ensures
        r@ == cost_or_zero(cost),
{
    match cost {
        Some(c) => c.text(),
        None => "0".to_owned(),
    }
}

/// How many batches a user had, how many requests each had on average, and what
/// they cost together.
pub fn user_batch_counts<L: Copy>(
    total_batch_count: Option<i64>,
    avg_requests_per_batch: Option<L>,
    total_cost: Option<Amount>,
) -> (r: (i64, Option<L>, String))
    ensures
        r.0 == count_of(total_batch_count),
        r.1 == avg_requests_per_batch,
        r.2@ == cost_or_zero(total_cost),
{
    (or_zero(total_batch_count), avg_requests_per_batch, cost_or_zero_text(total_cost))
}

/// A row of the per-model usage of a user.
#[derive(Debug)]
pub struct ModelBreakdownRow {
    pub model: Option<String>,
    pub input_tokens: Option<i64>,
    pub output_tokens: Option<i64>,
    pub cost: Option<Amount>,
    pub request_count: Option<i64>,
}

/// What a user asked of a model, and what it cost.
#[derive(Debug)]
pub struct ModelBreakdownEntry {
    pub model: String,
    pub input_tokens: i64,
    pub output_tokens: i64,
    pub cost: String,
    pub request_count: i64,
}

/// A breakdown entry by its texts and counts.
pub struct BreakdownView {
    pub model: Seq<char>,
    pub input_tokens: i64,
    pub output_tokens: i64,
    pub cost: Seq<char>,
    pub request_count: i64,
}

/// The view of a breakdown entry.
pub open spec fn breakdown_view(e: ModelBreakdownEntry) -> BreakdownView {
    BreakdownView {
        model: e.model@,
        input_tokens: e.input_tokens,
        output_tokens: e.output_tokens,
        cost: e.cost@,
        request_count: e.request_count,
    }
}

/// The breakdown of the first `n` rows; rows without a model are left out.
pub open spec fn breakdown_of(rows: Seq<ModelBreakdownRow>, n: int) -> Seq<BreakdownView>
    decreases n,
{
    if n <= 0 {
        Seq::empty()
    } else {
        let row = rows[n - 1];
        match row.model {
            Some(model) => breakdown_of(rows, n - 1).push(
                BreakdownView {
                    model: model@,
                    input_tokens: count_of(row.input_tokens),
                    output_tokens: count_of(row.output_tokens),
                    cost: cost_or_zero(row.cost),
                    request_count: count_of(row.request_count),
                },
            ),
            None => breakdown_of(rows, n - 1),
        }
    }
}

/// What a user asked of each model, in the order of the rows.
pub fn user_model_breakdown(rows: &Vec<ModelBreakdownRow>) -> (r: Vec<ModelBreakdownEntry>)
    ensures
        r@.map_values(|e: ModelBreakdownEntry| breakdown_view(e)) == breakdown_of(
            rows@,
            rows@.len() as int,
        ),
{
    let mut out: Vec<ModelBreakdownEntry> = Vec::new();
    let ghost view = |e: ModelBreakdownEntry| breakdown_view(e);
    let mut i: usize = 0;
    assert(out@.map_values(view) =~= breakdown_of(rows@, 0));
    while i < rows.len()
        invariant
            i <= rows@.len(),
            view == (|e: ModelBreakdownEntry| breakdown_view(e)),
            out@.map_values(view) == breakdown_of(rows@, i as int),
        decreases rows@.len() - i,
    {
        let ghost before = out@;
        let row = &rows[i];
        match &row.model {
            Some(model) => {
                let entry = ModelBreakdownEntry {
                    model: model.clone(),
                    input_tokens: or_zero(row.input_tokens),
                    output_tokens: or_zero(row.output_tokens),
                    cost: cost_or_zero_text(row.cost),
                    request_count: or_zero(row.request_count),
                };
                out.push(entry);
                assert(out@.map_values(view) =~= before.map_values(view).push(
                    breakdown_view(entry),
                ));
            },
            None => {},
        }
        i = i + 1;
    }
    out
}

/// How many of the first `n` rows have a model.
pub open spec fn with_model(rows: Seq<ModelBreakdownRow>, n: int) -> int
    decreases n,
{
    if n <= 0 {
        0
    } else {
        with_model(rows, n - 1) + if rows[n - 1].model is Some {
            1int
        } else {
            0int
        }
    }
}

proof fn lemma_breakdown(rows: Seq<ModelBreakdownRow>, n: int, i: int)
    requires
        0 <= i < rows.len(),
        0 <= n <= rows.len(),
    ensures
        breakdown_of(rows, n).len() == with_model(rows, n),
        i < n && rows[i].model is Some ==> 0 <= with_model(rows, i) < with_model(rows, n)
            && breakdown_of(rows, n)[with_model(rows, i)] == breakdown_of(rows, i + 1).last(),
        0 <= with_model(rows, n),
    decreases n,
{
    if n > 0 {
        lemma_breakdown(rows, n - 1, i);
        if i == n - 1 {
            lemma_breakdown(rows, n - 1, 0);
        }
    }
}

/// Every row with a model gives one entry, in the order of the rows: with the
/// model's name, the row's tokens and requests where it has them and zero where
/// it has none, and with the digits of the row's cost, which are `0` only where
/// the row has no cost.
pub proof fn law_every_model_has_its_spend(
    rows: Seq<ModelBreakdownRow>,
    entries: Seq<ModelBreakdownEntry>,
    i: int,
)
    requires
        entries.map_values(|e: ModelBreakdownEntry| breakdown_view(e)) == breakdown_of(
            rows,
            rows.len() as int,
        ),
        0 <= i < rows.len(),
        rows[i].model is Some,
    ensures
        ({
            let e = entries[with_model(rows, i)];
            &&& entries.len() == with_model(rows, rows.len() as int)
            &&& 0 <= with_model(rows, i) < entries.len()
            &&& e.model@ == (rows[i].model->0)@
            &&& rows[i].cost is Some ==> e.cost@ == (rows[i].cost->0)@.digits()
            &&& rows[i].cost is None ==> e.cost@ == seq!['0']
            &&& rows[i].input_tokens == Some(e.input_tokens) || (rows[i].input_tokens is None
                && e.input_tokens == 0)
            &&& rows[i].output_tokens == Some(e.output_tokens) || (rows[i].output_tokens is None
                && e.output_tokens == 0)
            &&& rows[i].request_count == Some(e.request_count) || (rows[i].request_count is None
                && e.request_count == 0)
        }),
{
    let n = rows.len() as int;
    let view = |e: ModelBreakdownEntry| breakdown_view(e);
    lemma_breakdown(rows, n, i);
    let place = with_model(rows, i);
    assert(entries.map_values(view).len() == entries.len());
    assert(entries.map_values(view)[place] == breakdown_view(entries[place]));
    reveal_strlit("0");
    assert("0"@ =~= seq!['0']);
}

/// Two rows with a model that cost different digits give different entries,
/// whatever else they hold.
pub proof fn law_different_spends_differ(
    rows: Seq<ModelBreakdownRow>,
    entries: Seq<ModelBreakdownEntry>,
    i: int,
    j: int,
)
    requires
        entries.map_values(|e: ModelBreakdownEntry| breakdown_view(e)) == breakdown_of(
            rows,
            rows.len() as int,
        ),
        0 <= i < rows.len(),
        0 <= j < rows.len(),
        rows[i].model is Some,
        rows[j].model is Some,
        rows[i].cost is Some,
        rows[j].cost is Some,
        (rows[i].cost->0)@.digits() != (rows[j].cost->0)@.digits(),
    ensures
        entries[with_model(rows, i)].cost@ != entries[with_model(rows, j)].cost@,
{
    law_every_model_has_its_spend(rows, entries, i);
    law_every_model_has_its_spend(rows, entries, j);
}

/// A cost that is there is shown in its own digits.
pub proof fn law_known_costs_are_shown(c: Amount)
    ensures
        cost_digits(Some(c)) == Some(c@.digits()),
        cost_digits(None) is None,
        cost_or_zero(Some(c)) == c@.digits(),
        cost_or_zero(None) == seq!['0'],
{
    reveal_strlit("0");
    assert("0"@ =~= seq!['0']);
}

proof fn lemma_status_prefix(rows: Seq<StatusCodeRow>, more: Seq<StatusCodeRow>, n: int)
    requires
        n <= rows.len(),
    ensures
        status_counts(rows + more, n) == status_counts(rows, n),
    decreases n,
{
    if n > 0 {
        lemma_status_prefix(rows, more, n - 1);
        assert((rows + more)[n - 1] == rows[n - 1]);
    }
}

/// One row more, with a code and a count, adds that code's digits with that count
/// to the breakdown by status; a row that lacks either adds nothing. No row gives
/// no breakdown.
pub proof fn law_status_breakdown_grows_by_its_rows(rows: Seq<StatusCodeRow>, row: StatusCodeRow)
    ensures
        ({
            let before = status_counts(rows, rows.len() as int);
            let after = status_counts(rows + seq![row], (rows.len() + 1) as int);
            &&& row.status_code is Some && row.status_count is Some ==> after.len() == before.len()
                + 1 && after.last().0 == signed_decimal(row.status_code->0 as int)
                && after.last().1 == row.status_count->0 && after.drop_last() == before
            &&& row.status_code is None || row.status_count is None ==> after == before
        }),
        status_counts(Seq::empty(), 0).len() == 0,
{
    let n = rows.len() as int;
    lemma_status_prefix(rows, seq![row], n);
    assert((rows + seq![row])[n] == row);
    let before = status_counts(rows, n);
    let after = status_counts(rows + seq![row], n + 1);
    if row.status_code is Some && row.status_count is Some {
        assert(after.drop_last() =~= before);
    }
}

proof fn lemma_model_prefix<L>(rows: Seq<ModelUsageRow<L>>, more: Seq<ModelUsageRow<L>>, n: int)
    requires
        n <= rows.len(),
    ensures
        model_counts(rows + more, n) == model_counts(rows, n),
    decreases n,
{
    if n > 0 {
        lemma_model_prefix(rows, more, n - 1);
        assert((rows + more)[n - 1] == rows[n - 1]);
    }
}

/// One row more, with a model and a count, adds that model with that count and
/// latency to the breakdown by model; a row that lacks either adds nothing.
pub proof fn law_model_breakdown_grows_by_its_rows<L>(
    rows: Seq<ModelUsageRow<L>>,
    row: ModelUsageRow<L>,
)
    ensures
        ({
            let before = model_counts(rows, rows.len() as int);
            let after = model_counts(rows + seq![row], (rows.len() + 1) as int);
            &&& row.model_name is Some && row.model_count is Some ==> after.len() == before.len()
                + 1 && after.last().0 == (row.model_name->0)@ && after.last().1
                == row.model_count->0 && after.last().2 == row.model_avg_latency_ms
                && after.drop_last() == before
            &&& row.model_name is None || row.model_count is None ==> after == before
        }),
        model_counts(Seq::<ModelUsageRow<L>>::empty(), 0).len() == 0,
{
    let n = rows.len() as int;
    lemma_model_prefix(rows, seq![row], n);
    assert((rows + seq![row])[n] == row);
    let before = model_counts(rows, n);
    let after = model_counts(rows + seq![row], n + 1);
    if row.model_name is Some && row.model_count is Some {
        assert(after.drop_last() =~= before);
    }
}

/// What a breakdown shows is what its entries hold.
pub proof fn law_breakdowns_are_seen_as_they_are<L>(
    statuses: Seq<StatusCodeBreakdown>,
    models: Seq<ModelUsage<L>>,
    i: int,
)
    ensures
        0 <= i < statuses.len() ==> status_views(statuses)[i].0 == statuses[i].status@
            && status_views(statuses)[i].1 == statuses[i].count,
        0 <= i < models.len() ==> usage_views(models)[i].0 == models[i].model@ && usage_views(
            models,
        )[i].1 == models[i].count && usage_views(models)[i].2 == models[i].avg_latency_ms,
        status_views(statuses).len() == statuses.len(),
        usage_views(models).len() == models.len(),
{
}

proof fn lemma_spark_prefix(
    rows: Seq<BulkTimeSeriesRow>,
    more: Seq<BulkTimeSeriesRow>,
    model: Seq<char>,
    n: int,
)
    requires
        n <= rows.len(),
    ensures
        points_of_model(rows + more, model, n) == points_of_model(rows, model, n),
    decreases n,
{
    if n > 0 {
        lemma_spark_prefix(rows, more, model, n - 1);
        assert((rows + more)[n - 1] == rows[n - 1]);
    }
}

/// One row more of a model, with a timestamp, adds a point on that timestamp to
/// the model's sparkline, with the row's requests, or none where it has no count.
/// A row of another model, or without a timestamp, adds nothing.
pub proof fn law_sparkline_grows_by_its_rows(
    rows: Seq<BulkTimeSeriesRow>,
    row: BulkTimeSeriesRow,
    model: Seq<char>,
)
    ensures
        ({
            let before = points_of_model(rows, model, rows.len() as int);
            let after = points_of_model(rows + seq![row], model, (rows.len() + 1) as int);
            let is_own = row.model is Some && (row.model->0)@ == model && row.timestamp is Some;
            &&& is_own ==> after.len() == before.len() + 1 && Some(after.last().timestamp)
                == row.timestamp && (row.requests_count == Some(after.last().requests) || (
            row.requests_count is None && after.last().requests == 0)) && after.drop_last()
                == before
            &&& !is_own ==> after == before
        }),
        points_of_model(Seq::empty(), model, 0).len() == 0,
{
    let n = rows.len() as int;
    lemma_spark_prefix(rows, seq![row], model, n);
    assert((rows + seq![row])[n] == row);
    let before = points_of_model(rows, model, n);
    let after = points_of_model(rows + seq![row], model, n + 1);
    if row.model is Some && (row.model->0)@ == model && row.timestamp is Some {
        assert(after.drop_last() =~= before);
    }
}

proof fn lemma_metrics_row<L>(rows: Seq<ModelMetricsRow<L>>, model: Seq<char>, n: int)
    requires
        0 <= n <= rows.len(),
    ensures
        match metrics_row_of(rows, model, n) {
            Some(i) => 0 <= i < n && text_or_none(rows[i].model) == Some(model) && forall|j: int|
                i < j < n ==> text_or_none((#[trigger] rows[j]).model) != Some(model),
            None => forall|j: int|
                0 <= j < n ==> text_or_none((#[trigger] rows[j]).model) != Some(model),
        },
    decreases n,
{
    if n > 0 {
        lemma_metrics_row(rows, model, n - 1);
    }
}

/// The metrics of a model are those of its last row: the row's own counts, zero
/// for a count that is missing, its latency and its last activity.
pub proof fn law_metrics_are_the_models_own<L>(
    m: ModelMetrics<L>,
    model: Seq<char>,
    rows: Seq<ModelMetricsRow<L>>,
    series_rows: Option<Seq<BulkTimeSeriesRow>>,
    now: Timestamp,
    i: int,
)
    requires
        are_metrics_of(m, model, rows, series_rows, now),
        0 <= i < rows.len(),
        text_or_none(rows[i].model) == Some(model),
        forall|j: int|
            i < j < rows.len() ==> text_or_none((#[trigger] rows[j]).model) != Some(model),
    ensures
        rows[i].total_requests == Some(m.total_requests) || (rows[i].total_requests is None
            && m.total_requests == 0),
        rows[i].total_input_tokens == Some(m.total_input_tokens) || (
        rows[i].total_input_tokens is None && m.total_input_tokens == 0),
        rows[i].total_output_tokens == Some(m.total_output_tokens) || (
        rows[i].total_output_tokens is None && m.total_output_tokens == 0),
        m.avg_latency_ms == rows[i].avg_latency_ms,
        m.last_active_at == rows[i].last_active_at,
        m.time_series is Some <==> series_rows is Some,
{
    lemma_metrics_row(rows, model, rows.len() as int);
    if let Some(f) = metrics_row_of(rows, model, rows.len() as int) {
        if f > i {
            assert(text_or_none(rows[f].model) != Some(model));
        }
    }
}

/// A model without a row did nothing.
pub proof fn law_unused_models_have_no_metrics<L>(
    m: ModelMetrics<L>,
    model: Seq<char>,
    rows: Seq<ModelMetricsRow<L>>,
    series_rows: Option<Seq<BulkTimeSeriesRow>>,
    now: Timestamp,
)
    requires
        are_metrics_of(m, model, rows, series_rows, now),
        forall|j: int|
            0 <= j < rows.len() ==> text_or_none((#[trigger] rows[j]).model) != Some(model),
    ensures
        m.total_requests == 0,
        m.total_input_tokens == 0,
        m.total_output_tokens == 0,
        m.avg_latency_ms is None,
        m.last_active_at is None,
{
    lemma_metrics_row(rows, model, rows.len() as int);
}

/// A sparkline covers two hours: it begins on the ten minutes of two hours before
/// now and shows a request count of every row of the model on its grid.
pub proof fn law_sparkline_shows_the_last_two_hours<L>(
    m: ModelMetrics<L>,
    model: Seq<char>,
    rows: Seq<ModelMetricsRow<L>>,
    series: Seq<BulkTimeSeriesRow>,
    now: Timestamp,
    place: int,
)
    requires
        are_metrics_of(m, model, rows, Some(series), now),
        i64::MIN + 7800 <= now.secs <= i64::MAX - 600,
        0 <= place < (m.time_series->0)@.len(),
    ensures
        now.secs - 7800 < (m.time_series->0)@[0].timestamp.secs <= now.secs - 7200,
        (m.time_series->0)@[0].timestamp.secs % 600 == 0,
        (m.time_series->0)@[place].timestamp.secs == (m.time_series->0)@[0].timestamp.secs + 600
            * place,
        (m.time_series->0)@[place].timestamp.nanos == 0,
        (m.time_series->0)@[place].timestamp.secs <= now.secs,
        now.secs < (m.time_series->0)@[0].timestamp.secs + 600 * (m.time_series->0)@.len(),
{
    let points = (m.time_series->0)@;
    let own = points_of_model(series, model, series.len() as int);
    let first = floor_to(two_hours_before(now).secs as int, 600);
    crate::analytics::law_grid_begins_at_the_start(now.secs - 7200, 600);
    crate::analytics::law_filled_series_is_the_grid(points, own, first, now.secs as int, 600, 0);
    crate::analytics::law_filled_series_is_the_grid(
        points,
        own,
        first,
        now.secs as int,
        600,
        place,
    );
    assert(crate::analytics::tick(first, 600, place) <= now.secs);
    assert(crate::analytics::tick(first, 600, points.len() as int) > now.secs);
}

/// What a user asked of a model is the user's row: the identifier in digits, the
/// mail address, the row's own counts, zero for one that is missing, and the cost.
pub proof fn law_user_usage_is_the_users_row<L>(u: UserUsage<L>, row: UserUsageRow<L>)
    requires
        is_usage_of(u, row),
    ensures
        row.user_id is Some ==> u.user_id is Some && (u.user_id->0)@ == id_digits(row.user_id->0),
        row.user_id is None ==> u.user_id is None,
        row.user_email is Some ==> u.user_email is Some && (u.user_email->0)@ == (
        row.user_email->0)@,
        row.user_email is None ==> u.user_email is None,
        row.request_count == Some(u.request_count) || (row.request_count is None && u.request_count
            == 0),
        row.total_tokens == Some(u.total_tokens) || (row.total_tokens is None && u.total_tokens
            == 0),
        row.total_input_tokens == Some(u.input_tokens) || (row.total_input_tokens is None
            && u.input_tokens == 0),
        row.total_output_tokens == Some(u.output_tokens) || (row.total_output_tokens is None
            && u.output_tokens == 0),
        u.total_cost == row.total_cost,
        u.last_active_at == row.last_active_at,
{
}

/// What a batch used is its row: its requests, its sums of tokens where they are
/// whole and fit, its times, and the digits of its cost.
pub proof fn law_batch_usage_is_the_batchs_row<L>(a: BatchAnalytics<L>, row: BatchAnalyticsRow<L>)
    requires
        are_analytics_of(a, row),
    ensures
        a.total_requests == row.total_requests,
        row.total_prompt_tokens@.scale == 0 && i64::MIN <= row.total_prompt_tokens@.mantissa
            <= i64::MAX ==> a.total_prompt_tokens == row.total_prompt_tokens@.mantissa,
        row.total_completion_tokens@.scale == 0 && i64::MIN
            <= row.total_completion_tokens@.mantissa <= i64::MAX ==> a.total_completion_tokens
            == row.total_completion_tokens@.mantissa,
        row.total_tokens@.scale == 0 && i64::MIN <= row.total_tokens@.mantissa <= i64::MAX
            ==> a.total_tokens == row.total_tokens@.mantissa,
        a.avg_duration_ms == row.avg_duration_ms,
        a.avg_ttfb_ms == row.avg_ttfb_ms,
        row.total_cost is Some ==> a.total_cost is Some && (a.total_cost->0)@ == (
        row.total_cost->0)@.digits(),
        row.total_cost is None ==> a.total_cost is None,
{
    assert(crate::amount::ten_to(0) == 1);
}

proof fn lemma_batch_row<L>(rows: Seq<BatchAnalyticsRow<L>>, batch: u128, n: int)
    requires
        0 <= n <= rows.len(),
    ensures
        match batch_row_of(rows, batch, n) {
            Some(i) => 0 <= i < n && rows[i].batch_id == Some(batch) && forall|j: int|
                i < j < n ==> (#[trigger] rows[j]).batch_id != Some(batch),
            None => forall|j: int| 0 <= j < n ==> (#[trigger] rows[j]).batch_id != Some(batch),
        },
    decreases n,
{
    if n > 0 {
        lemma_batch_row(rows, batch, n - 1);
    }
}

/// Among several batches, each has the analytics of its own last row.
pub proof fn law_each_batch_has_its_own_usage<L>(
    result: Map<u128, BatchAnalytics<L>>,
    rows: Seq<BatchAnalyticsRow<L>>,
    asked: Seq<u128>,
    batch: u128,
    i: int,
)
    requires
        gives_batch(result, rows, asked, batch),
        0 <= i < rows.len(),
        rows[i].batch_id == Some(batch),
        forall|j: int| i < j < rows.len() ==> (#[trigger] rows[j]).batch_id != Some(batch),
    ensures
        result.contains_key(batch),
        result[batch].total_requests == rows[i].total_requests,
        result[batch].avg_duration_ms == rows[i].avg_duration_ms,
        result[batch].avg_ttfb_ms == rows[i].avg_ttfb_ms,
        rows[i].total_cost is Some ==> result[batch].total_cost is Some && (
        result[batch].total_cost->0)@ == (rows[i].total_cost->0)@.digits(),
        rows[i].total_cost is None ==> result[batch].total_cost is None,
{
    lemma_batch_row(rows, batch, rows.len() as int);
    if let Some(f) = batch_row_of(rows, batch, rows.len() as int) {
        if f > i {
            assert(rows[f].batch_id != Some(batch));
        }
    }
}

/// A batch that is asked for and has no row used nothing.
pub proof fn law_unused_batches_have_no_usage<L>(
    result: Map<u128, BatchAnalytics<L>>,
    rows: Seq<BatchAnalyticsRow<L>>,
    asked: Seq<u128>,
    batch: u128,
)
    requires
        gives_batch(result, rows, asked, batch),
        asked.contains(batch),
        forall|j: int| 0 <= j < rows.len() ==> (#[trigger] rows[j]).batch_id != Some(batch),
    ensures
        result.contains_key(batch),
        result[batch].total_requests == 0,
        result[batch].total_prompt_tokens == 0,
        result[batch].total_completion_tokens == 0,
        result[batch].total_tokens == 0,
        result[batch].avg_duration_ms is None,
        result[batch].avg_ttfb_ms is None,
        result[batch].total_cost is None,
{
    lemma_batch_row(rows, batch, rows.len() as int);
}

/// An entry of the request log holds what its row holds, the prices in their
/// digits and each under its own name.
pub proof fn law_log_entries_keep_their_rows(e: AnalyticsEntry, row: HttpAnalyticsRow)
    requires
        is_entry_of(e, row),
    ensures
        e.id == row.id,
        e.timestamp == row.timestamp,
        e.method@ == row.method@,
        e.uri@ == row.uri@,
        e.model == row.model,
        e.status_code == row.status_code,
        e.duration_ms == row.duration_ms,
        e.prompt_tokens == row.prompt_tokens,
        e.completion_tokens == row.completion_tokens,
        e.total_tokens == row.total_tokens,
        e.response_type == row.response_type,
        e.fusillade_batch_id == row.fusillade_batch_id,
        e.custom_id == row.custom_id,
        row.input_price_per_token is Some ==> e.input_price_per_token is Some && (
        e.input_price_per_token->0)@ == (row.input_price_per_token->0)@.digits(),
        row.input_price_per_token is None ==> e.input_price_per_token is None,
        row.output_price_per_token is Some ==> e.output_price_per_token is Some && (
        e.output_price_per_token->0)@ == (row.output_price_per_token->0)@.digits(),
        row.output_price_per_token is None ==> e.output_price_per_token is None,
{
}

/// A user's breakdown shows what each model cost: the digits of the row's cost, or
/// `0` where it has none, with the row's tokens and requests.
pub proof fn law_breakdowns_show_what_was_spent(
    rows: Vec<ModelBreakdownRow>,
    r: Vec<ModelBreakdownEntry>,
    i: int,
)
    requires
        call_ensures(user_model_breakdown, (&rows,), r),
        0 <= i < rows@.len(),
        rows@[i].model is Some,
    ensures
        ({
            let e = r@[with_model(rows@, i)];
            &&& 0 <= with_model(rows@, i) < r@.len()
            &&& r@.len() == with_model(rows@, rows@.len() as int)
            &&& e.model@ == (rows@[i].model->0)@
            &&& rows@[i].cost is Some ==> e.cost@ == (rows@[i].cost->0)@.digits()
            &&& rows@[i].cost is None ==> e.cost@ == seq!['0']
            &&& rows@[i].input_tokens is Some ==> e.input_tokens == rows@[i].input_tokens->0
            &&& rows@[i].input_tokens is None ==> e.input_tokens == 0
            &&& rows@[i].output_tokens is Some ==> e.output_tokens == rows@[i].output_tokens->0
            &&& rows@[i].output_tokens is None ==> e.output_tokens == 0
            &&& rows@[i].request_count is Some ==> e.request_count == rows@[i].request_count->0
            &&& rows@[i].request_count is None ==> e.request_count == 0
        }),
{
    law_every_model_has_its_spend(rows@, r@, i);
}

/// What a user's batches come to: their number, zero where it is not known, and
/// the digits of their cost.
pub proof fn law_batch_counts_are_the_users<L: Copy>(
    count: Option<i64>,
    average: Option<L>,
    cost: Option<Amount>,
    r: (i64, Option<L>, String),
)
    requires
        call_ensures(user_batch_counts::<L>, (count, average, cost), r),
    ensures
        count is Some ==> r.0 == count->0,
        count is None ==> r.0 == 0,
        r.1 == average,
        cost is Some ==> r.2@ == (cost->0)@.digits(),
        cost is None ==> r.2@ == seq!['0'],
{
    reveal_strlit("0");
    assert("0"@ =~= seq!['0']);
}

/// All of a time range's requests: their number, the model that was asked for, and
/// a breakdown by model exactly where none was and there are rows for it.
pub proof fn law_aggregates_are_their_queries<L: Copy>(
    total: Option<i64>,
    model_filter: Option<&str>,
    status_rows: Vec<StatusCodeRow>,
    model_rows: Vec<ModelUsageRow<L>>,
    time_series: Vec<TimeSeriesPoint<L>>,
    r: RequestsAggregate<L>,
)
    requires
        call_ensures(
            requests_aggregate::<L>,
            (total, model_filter, &status_rows, &model_rows, time_series),
            r,
        ),
    ensures
        total is Some ==> r.total_requests == total->0,
        total is None ==> r.total_requests == 0,
        r.model is Some <==> model_filter is Some,
        r.model is Some ==> (r.model->0)@ == (model_filter->0)@,
        r.models is Some <==> model_filter is None && model_rows@.len() > 0,
        r.time_series == time_series,
        status_views(r.status_codes@) == status_counts(status_rows@, status_rows@.len() as int),
        r.models is Some ==> usage_views((r.models->0)@) == model_counts(
            model_rows@,
            model_rows@.len() as int,
        ),
{
}

/// What users asked of a model: the model, the range and the totals as they are
/// given, and a record for each row, in order, with that row's own counts.
pub proof fn law_model_usage_is_its_rows<L: Copy>(
    alias: &str,
    start: Timestamp,
    end: Timestamp,
    rows: Vec<UserUsageRow<L>>,
    requests: Option<i64>,
    tokens: Option<i64>,
    cost: Option<L>,
    r: ModelUserUsageResponse<L>,
    i: int,
)
    requires
        call_ensures(
            model_user_usage::<L>,
            (alias, start, end, &rows, requests, tokens, cost),
            r,
        ),
        0 <= i < rows@.len(),
    ensures
        r.model@ == alias@,
        r.start_date == start,
        r.end_date == end,
        requests is Some ==> r.total_requests == requests->0,
        requests is None ==> r.total_requests == 0,
        tokens is Some ==> r.total_tokens == tokens->0,
        tokens is None ==> r.total_tokens == 0,
        r.total_cost == cost,
        r.users@.len() == rows@.len(),
        rows@[i].request_count is Some ==> r.users@[i].request_count == rows@[i].request_count->0,
        rows@[i].total_tokens is Some ==> r.users@[i].total_tokens == rows@[i].total_tokens->0,
        rows@[i].total_input_tokens is Some ==> r.users@[i].input_tokens
            == rows@[i].total_input_tokens->0,
        rows@[i].total_output_tokens is Some ==> r.users@[i].output_tokens
            == rows@[i].total_output_tokens->0,
        r.users@[i].total_cost == rows@[i].total_cost,
        r.users@[i].last_active_at == rows@[i].last_active_at,
{
    assert(is_usage_of(r.users@[i], rows@[i]));
}

/// What a batch used is told from its row.
pub proof fn law_batch_analytics_are_its_row<L: Copy>(
    row: BatchAnalyticsRow<L>,
    r: BatchAnalytics<L>,
)
    requires
        call_ensures(batch_analytics::<L>, (&row,), r),
    ensures
        r.total_requests == row.total_requests,
        r.avg_duration_ms == row.avg_duration_ms,
        r.avg_ttfb_ms == row.avg_ttfb_ms,
        row.total_cost is Some ==> r.total_cost is Some && (r.total_cost->0)@ == (
        row.total_cost->0)@.digits(),
        row.total_cost is None ==> r.total_cost is None,
        r.total_prompt_tokens == whole_count(row.total_prompt_tokens@),
        r.total_completion_tokens == whole_count(row.total_completion_tokens@),
        r.total_tokens == whole_count(row.total_tokens@),
{
}

/// The request log shows every row once, newest first or the other way round, with
/// each price under its own name.
pub proof fn law_the_log_shows_every_row(
    rows: Vec<HttpAnalyticsRow>,
    order_desc: bool,
    r: Vec<AnalyticsEntry>,
    i: int,
)
    requires
        call_ensures(analytics_entries, (rows, order_desc), r),
        0 <= i < rows@.len(),
    ensures
        ({
            let place = if order_desc {
                i
            } else {
                rows@.len() - 1 - i
            };
            &&& r@.len() == rows@.len()
            &&& r@[place].id == rows@[i].id
            &&& r@[place].timestamp == rows@[i].timestamp
            &&& r@[place].prompt_tokens == rows@[i].prompt_tokens
            &&& r@[place].completion_tokens == rows@[i].completion_tokens
            &&& r@[place].total_tokens == rows@[i].total_tokens
            &&& r@[place].status_code == rows@[i].status_code
            &&& r@[place].duration_ms == rows@[i].duration_ms
            &&& r@[place].model == rows@[i].model
            &&& rows@[i].input_price_per_token is Some ==> r@[place].input_price_per_token is Some
                && (r@[place].input_price_per_token->0)@ == (
            rows@[i].input_price_per_token->0)@.digits()
            &&& rows@[i].output_price_per_token is Some ==> r@[place].output_price_per_token is Some
                && (r@[place].output_price_per_token->0)@ == (
            rows@[i].output_price_per_token->0)@.digits()
        }),
{
    let place = if order_desc {
        i
    } else {
        rows@.len() - 1 - i
    };
    assert(is_entry_of(r@[place], rows@[i]));
}

/// A custom identifier is looked for anywhere in a text.
pub proof fn law_custom_ids_are_found_anywhere(custom_id: Option<String>, r: Option<String>)
    requires
        call_ensures(custom_id_pattern, (&custom_id,), r),
    ensures
        r is Some <==> custom_id is Some,
        r is Some ==> (r->0)@ == seq!['%'] + (custom_id->0)@ + seq!['%'],
{
    reveal_strlit("%");
    if r is Some {
        assert((r->0)@ =~= seq!['%'] + (custom_id->0)@ + seq!['%']);
    }
}

/// Each model that is asked for is answered once, in the order in which it is
/// first asked for, with its own metrics.
pub proof fn law_every_asked_model_is_answered<L: Copy>(
    aliases: Vec<String>,
    rows: Vec<ModelMetricsRow<L>>,
    series_rows: Option<&Vec<BulkTimeSeriesRow>>,
    now: Timestamp,
    r: Vec<(String, ModelMetrics<L>)>,
    i: int,
)
    requires
        call_ensures(model_metrics::<L>, (&aliases, &rows, series_rows, now), r),
        0 <= i < aliases@.len(),
    ensures
        exists|k: int|
            0 <= k < r@.len() && (#[trigger] r@[k]).0@ == aliases@[i]@ && are_metrics_of(
                r@[k].1,
                aliases@[i]@,
                rows@,
                match series_rows {
                    Some(s) => Some(s@),
                    None => None,
                },
                now,
            ),
        forall|j: int, k: int|
            0 <= j < k < r@.len() ==> (#[trigger] r@[j]).0@ != (#[trigger] r@[k]).0@,
{
    let names = texts(aliases@);
    crate::names::law_without_repeats(names);
    let shown = r@.map_values(|e: (String, ModelMetrics<L>)| e.0@);
    assert(shown == without_repeats(names));
    assert(names[i] == aliases@[i]@);
    assert(names.contains(aliases@[i]@));
    assert(shown.contains(aliases@[i]@));
    let k = choose|k: int| 0 <= k < shown.len() && shown[k] == aliases@[i]@;
    assert(shown.len() == r@.len());
    assert(r@[k].0@ == aliases@[i]@);
    assert forall|j: int, l: int| 0 <= j < l < r@.len() implies (#[trigger] r@[j]).0@ != (
    #[trigger] r@[l]).0@ by {
        assert(shown[j] == r@[j].0@ && shown[l] == r@[l].0@);
    }
}

/// A sparkline begins two hours before now, to the nanosecond.
pub proof fn law_sparklines_begin_two_hours_ago(now: Timestamp, r: Timestamp)
    requires
        i64::MIN + 7200 <= now.secs,
        call_ensures(sparkline_start, (now,), r),
    ensures
        now.secs - r.secs == 7200,
        r.nanos == now.nanos,
{
}

/// A sum of tokens is counted as its whole part, cut off toward zero, where that is
/// a count that can be shown.
pub proof fn law_token_sums_are_counted<L: Copy>(row: BatchAnalyticsRow<L>, r: BatchAnalytics<L>)
    requires
        call_ensures(batch_analytics::<L>, (&row,), r),
    ensures
        counts_whole(row.total_prompt_tokens@, r.total_prompt_tokens),
        counts_whole(row.total_completion_tokens@, r.total_completion_tokens),
        counts_whole(row.total_tokens@, r.total_tokens),
{
    lemma_counts_whole(row.total_prompt_tokens@);
    lemma_counts_whole(row.total_completion_tokens@);
    lemma_counts_whole(row.total_tokens@);
}

/// Whether a count is that of a sum that is not below zero: within one below it.
pub open spec fn counts_whole(sum: Number, count: i64) -> bool {
    sum.mantissa >= 0 && sum.mantissa < i64::MAX * ten_to(sum.scale) ==> 0 <= count && count
        * ten_to(sum.scale) <= sum.mantissa && sum.mantissa < (count + 1) * ten_to(sum.scale)
}

proof fn lemma_counts_whole(sum: Number)
    ensures
        counts_whole(sum, whole_count(sum)),
{
    law_whole_parts_are_cut_toward_zero(sum);
    lemma_ten_to_positive(sum.scale);
    let p = ten_to(sum.scale);
    let w = sum.whole();
    if sum.mantissa >= 0 && sum.mantissa < i64::MAX * p {
        assert(w >= 0);
        assert(w * p <= sum.mantissa);
        assert(w < i64::MAX) by (nonlinear_arith)
            requires
                p > 0,
                w * p < i64::MAX * p,
        ;
    }
}

}

use dwctl::amount::Amount;
use dwctl::analytics::TimeSeriesPoint;
use dwctl::time::Timestamp;
use dwctl::usage::{
    analytics_entries, batch_analytics, batches_analytics, cost_or_zero_text, custom_id_pattern,
    metrics_cache_key, model_breakdown, model_metrics, model_user_usage, requests_aggregate,
    sparkline_start, status_breakdown, user_batch_counts, user_model_breakdown, BatchAnalyticsRow,
    BulkTimeSeriesRow, HttpAnalyticsRow, ModelBreakdownRow, ModelMetricsRow, ModelUsageRow,
    StatusCodeRow, UserUsageRow,
};

fn amount(mantissa: i128, scale: u32) -> Amount {
    Amount::new(mantissa, scale).unwrap()
}

fn at(secs: i64) -> Timestamp {
    Timestamp { secs, nanos: 0 }
}

fn names(list: &[&str]) -> Vec<String> {
    list.iter().map(|s| s.to_string()).collect()
}

#[test]
fn statuses_are_counted_where_both_are_known() {
    let rows = vec![
        StatusCodeRow { status_code: Some(200), status_count: Some(7) },
        StatusCodeRow { status_code: None, status_count: Some(1) },
        StatusCodeRow { status_code: Some(500), status_count: None },
        StatusCodeRow { status_code: Some(-1), status_count: Some(2) },
    ];
    let list = status_breakdown(&rows);
    let pairs: Vec<(String, i64)> = list.into_iter().map(|s| (s.status, s.count)).collect();
    assert_eq!(pairs, vec![("200".to_string(), 7), ("-1".to_string(), 2)]);
}

#[test]
fn models_are_listed_unless_one_is_asked_for() {
    let rows = vec![ModelUsageRow {
        model_name: Some("a".to_string()),
        model_count: Some(3),
        model_avg_latency_ms: Some(1.5),
    }];
    let list = model_breakdown(&rows);
    assert_eq!(list[0].model, "a");
    assert_eq!(list[0].count, 3);
    let all = requests_aggregate(None, None, &Vec::new(), &rows, Vec::<TimeSeriesPoint<f64>>::new());
    assert_eq!(all.total_requests, 0);
    assert_eq!(all.models.unwrap().len(), 1);
    assert_eq!(all.model, None);
    let one = requests_aggregate(Some(4), Some("a"), &Vec::new(), &rows, Vec::<TimeSeriesPoint<f64>>::new());
    assert_eq!(one.total_requests, 4);
    assert!(one.models.is_none());
    assert_eq!(one.model, Some("a".to_string()));
    let none = requests_aggregate(
        Some(4),
        None,
        &Vec::new(),
        &Vec::<ModelUsageRow<f64>>::new(),
        Vec::new(),
    );
    assert!(none.models.is_none());
}

#[test]
fn cache_keys_forget_the_order_of_models() {
    let (sorted, key) = metrics_cache_key(&names(&["b", "a", "c", "a"]));
    assert_eq!(sorted, names(&["a", "a", "b", "c"]));
    assert_eq!(key, "a,a,b,c");
    assert_eq!(metrics_cache_key(&names(&["a", "c", "a", "b"])).1, key);
    assert_eq!(metrics_cache_key(&names(&[])).1, "");
}

#[test]
fn every_model_has_metrics_and_a_sparkline() {
    let now = at(1_704_103_245);
    assert_eq!(sparkline_start(now), at(1_704_096_045));
    let rows = vec![ModelMetricsRow {
        model: Some("known".to_string()),
        total_requests: Some(12),
        avg_latency_ms: Some(3.5),
        total_input_tokens: Some(100),
        total_output_tokens: None,
        last_active_at: Some(now),
    }];
    let series = vec![BulkTimeSeriesRow {
        model: Some("known".to_string()),
        timestamp: Some(at(1_704_103_200)),
        requests_count: Some(5),
    }];
    let metrics = model_metrics(&names(&["known", "new", "known"]), &rows, Some(&series), now);
    assert_eq!(metrics.len(), 2);
    assert_eq!(metrics[0].0, "known");
    assert_eq!(metrics[0].1.total_requests, 12);
    assert_eq!(metrics[0].1.total_output_tokens, 0);
    let points = metrics[0].1.time_series.as_ref().unwrap();
    assert_eq!(points.len(), 13);
    assert_eq!(points[12].requests, 5);
    assert_eq!(points[0].timestamp, at(1_704_096_000));
    assert_eq!(metrics[1].0, "new");
    assert_eq!(metrics[1].1.total_requests, 0);
    assert!(metrics[1].1.last_active_at.is_none());
    assert!(metrics[1].1.time_series.as_ref().unwrap().iter().all(|p| p.requests == 0));
    let plain = model_metrics(&names(&["known"]), &rows, None, now);
    assert!(plain[0].1.time_series.is_none());
}

#[test]
fn users_are_named_by_identifier() {
    let rows = vec![UserUsageRow {
        user_id: Some(0x0123_4567_89ab_cdef_0123_4567_89ab_cdef),
        user_email: None,
        request_count: Some(2),
        total_input_tokens: None,
        total_output_tokens: Some(3),
        total_tokens: Some(3),
        total_cost: Some(0.5),
        last_active_at: None,
    }];
    let r = model_user_usage("m", at(0), at(10), &rows, Some(2), None, Some(0.5));
    assert_eq!(r.users[0].user_id.as_deref(), Some("01234567-89ab-cdef-0123-456789abcdef"));
    assert_eq!(r.users[0].input_tokens, 0);
    assert_eq!(r.total_requests, 2);
    assert_eq!(r.total_tokens, 0);
    assert_eq!(r.model, "m");
}

fn batch(id: Option<u128>, requests: i64, cost: Option<Amount>) -> BatchAnalyticsRow<f64> {
    BatchAnalyticsRow {
        batch_id: id,
        total_requests: requests,
        total_prompt_tokens: amount(105, 1),
        total_completion_tokens: amount(-25, 1),
        total_tokens: amount(i128::from(i64::MAX) * 10, 0),
        avg_duration_ms: Some(1.0),
        avg_ttfb_ms: None,
        total_cost: cost,
    }
}

#[test]
fn sums_are_cut_to_whole_counts() {
    let a = batch_analytics(&batch(Some(1), 4, Some(amount(1230, 3))));
    assert_eq!(a.total_prompt_tokens, 10);
    assert_eq!(a.total_completion_tokens, -2);
    assert_eq!(a.total_tokens, 0);
    assert_eq!(a.total_cost.as_deref(), Some("1.230"));
}

#[test]
fn every_asked_batch_has_an_answer() {
    let rows = vec![batch(Some(1), 4, None), batch(None, 9, None), batch(Some(1), 5, None)];
    let map = batches_analytics(&rows, &vec![1, 2]);
    assert_eq!(map.len(), 2);
    assert_eq!(map[&1].total_requests, 5);
    assert_eq!(map[&2].total_requests, 0);
    assert!(map[&2].total_cost.is_none());
}

fn entry(id: i64) -> HttpAnalyticsRow {
    HttpAnalyticsRow {
        id,
        timestamp: at(id),
        method: "POST".to_string(),
        uri: "/v1".to_string(),
        model: None,
        status_code: Some(200),
        duration_ms: None,
        prompt_tokens: None,
        completion_tokens: None,
        total_tokens: None,
        response_type: None,
        fusillade_batch_id: None,
        input_price_per_token: Some(amount(5, 4)),
        output_price_per_token: None,
        custom_id: None,
    }
}

#[test]
fn entries_are_turned_round_for_ascending_lists() {
    let ids = |desc: bool| -> Vec<i64> {
        analytics_entries(vec![entry(3), entry(2), entry(1)], desc).iter().map(|e| e.id).collect()
    };
    assert_eq!(ids(true), vec![3, 2, 1]);
    assert_eq!(ids(false), vec![1, 2, 3]);
    let list = analytics_entries(vec![entry(1)], true);
    assert_eq!(list[0].input_price_per_token.as_deref(), Some("0.0005"));
    assert_eq!(list[0].output_price_per_token, None);
}

#[test]
fn custom_identifiers_are_found_anywhere() {
    assert_eq!(custom_id_pattern(&Some("ab".to_string())).as_deref(), Some("%ab%"));
    assert_eq!(custom_id_pattern(&None), None);
}

#[test]
fn costs_that_are_missing_are_zero() {
    assert_eq!(cost_or_zero_text(None), "0");
    assert_eq!(cost_or_zero_text(Some(amount(-150, 2))), "-1.50");
    assert_eq!(user_batch_counts::<f64>(None, None, None), (0, None, "0".to_string()));
    assert_eq!(
        user_batch_counts(Some(2), Some(1.5), Some(amount(3, 0))),
        (2, Some(1.5), "3".to_string())
    );
}

#[test]
fn model_breakdown_of_a_user() {
    let rows = vec![
        ModelBreakdownRow {
            model: Some("m".to_string()),
            input_tokens: Some(1),
            output_tokens: None,
            cost: None,
            request_count: Some(3),
        },
        ModelBreakdownRow {
            model: None,
            input_tokens: Some(1),
            output_tokens: Some(1),
            cost: Some(amount(1, 0)),
            request_count: Some(1),
        },
    ];
    let list = user_model_breakdown(&rows);
    assert_eq!(list[0].model, "m");
    assert_eq!(list[0].output_tokens, 0);
    assert_eq!(list[0].cost, "0");
}

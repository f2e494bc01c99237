use chrono::{TimeZone, Utc};
use dwctl::analytics::{
    fill_missing_intervals, fill_missing_intervals_for_sparklines,
    fill_missing_intervals_ten_minutes, filled_series, series_points, ModelTimeSeriesPoint,
    TimeGranularity, TimeSeriesPoint, TimeSeriesRow,
};
use dwctl::time::Timestamp;

fn utc(year: i32, month: u32, day: u32, hour: u32, min: u32, sec: u32) -> Timestamp {
    let time = Utc.with_ymd_and_hms(year, month, day, hour, min, sec).unwrap();
    Timestamp { secs: time.timestamp(), nanos: time.timestamp_subsec_nanos() }
}

fn hours_after(time: Timestamp, hours: i64) -> Timestamp {
    Timestamp { secs: time.secs + 3600 * hours, nanos: time.nanos }
}

fn point(timestamp: Timestamp, requests: i64) -> TimeSeriesPoint<f64> {
    TimeSeriesPoint {
        timestamp,
        duration_minutes: 60,
        requests,
        input_tokens: 1,
        output_tokens: 2,
        avg_latency_ms: Some(3.0),
        p95_latency_ms: Some(4.0),
        p99_latency_ms: Some(5.0),
    }
}

#[test]
fn test_fill_missing_intervals_empty_input() {
    let time_series: Vec<TimeSeriesPoint<f64>> = vec![];
    let start_time = utc(2024, 1, 1, 0, 0, 0);
    let end_time = hours_after(start_time, 24);
    let result = fill_missing_intervals(time_series, start_time, end_time);

    // Even with empty input, should fill intervals with zero values
    assert!(!result.is_empty());
    // All points should have zero values
    assert!(result.iter().all(|p| p.requests == 0));
    assert!(result.iter().all(|p| p.input_tokens == 0));
    assert!(result.iter().all(|p| p.output_tokens == 0));
    assert!(result.iter().all(|p| p.avg_latency_ms.is_none()));
}

#[test]
fn test_fill_missing_intervals_single_point() {
    let start_time = utc(2024, 1, 1, 10, 0, 0);
    let end_time = hours_after(start_time, 24);
    let time_series = vec![TimeSeriesPoint {
        timestamp: start_time,
        duration_minutes: 60,
        requests: 5,
        input_tokens: 100,
        output_tokens: 50,
        avg_latency_ms: Some(200.0),
        p95_latency_ms: Some(300.0),
        p99_latency_ms: Some(400.0),
    }];

    let result = fill_missing_intervals(time_series, start_time, end_time);

    // Should have data from start_time to current hour
    assert!(!result.is_empty());
    assert_eq!(result[0].timestamp, start_time);
    assert_eq!(result[0].requests, 5);
}

#[test]
fn test_fill_missing_intervals_gaps() {
    let start_time = utc(2024, 1, 1, 10, 0, 0);
    let point1_time = start_time;
    let point2_time = hours_after(start_time, 3); // Skip 2 hours

    let time_series = vec![
        TimeSeriesPoint {
            timestamp: point1_time,
            duration_minutes: 60,
            requests: 5,
            input_tokens: 100,
            output_tokens: 50,
            avg_latency_ms: Some(200.0),
            p95_latency_ms: Some(300.0),
            p99_latency_ms: Some(400.0),
        },
        TimeSeriesPoint {
            timestamp: point2_time,
            duration_minutes: 60,
            requests: 3,
            input_tokens: 60,
            output_tokens: 30,
            avg_latency_ms: Some(150.0),
            p95_latency_ms: Some(250.0),
            p99_latency_ms: Some(350.0),
        },
    ];

    let end_time = hours_after(start_time, 24);
    let result = fill_missing_intervals(time_series, start_time, end_time);

    // Should fill in the gaps with zero values
    let first_gap = result.iter().find(|p| p.timestamp == hours_after(start_time, 1));
    assert!(first_gap.is_some());
    let gap_point = first_gap.unwrap();
    assert_eq!(gap_point.requests, 0);
    assert_eq!(gap_point.input_tokens, 0);
    assert_eq!(gap_point.output_tokens, 0);
    assert_eq!(gap_point.avg_latency_ms, None);
    assert_eq!(gap_point.p95_latency_ms, None);
    assert_eq!(gap_point.p99_latency_ms, None);
}

#[test]
fn test_fill_missing_intervals_unsorted_input() {
    let start_time = utc(2024, 1, 1, 10, 0, 0);
    let point1_time = hours_after(start_time, 2);
    let point2_time = start_time;

    let time_series = vec![
        TimeSeriesPoint {
            timestamp: point1_time,
            duration_minutes: 60,
            requests: 3,
            input_tokens: 60,
            output_tokens: 30,
            avg_latency_ms: Some(150.0),
            p95_latency_ms: Some(250.0),
            p99_latency_ms: Some(350.0),
        },
        TimeSeriesPoint {
            timestamp: point2_time,
            duration_minutes: 60,
            requests: 5,
            input_tokens: 100,
            output_tokens: 50,
            avg_latency_ms: Some(200.0),
            p95_latency_ms: Some(300.0),
            p99_latency_ms: Some(400.0),
        },
    ];

    let end_time = hours_after(start_time, 24);
    let result = fill_missing_intervals(time_series, start_time, end_time);

    // Should handle unsorted input correctly
    let first_point = result.iter().find(|p| p.timestamp == start_time).unwrap();
    assert_eq!(first_point.requests, 5);

    let second_point = result.iter().find(|p| p.timestamp == hours_after(start_time, 2)).unwrap();
    assert_eq!(second_point.requests, 3);
}

#[test]
fn test_fill_missing_intervals_hour_truncation() {
    // Test that start time is properly truncated to hour boundary
    let start_time = utc(2024, 1, 1, 10, 30, 45); // 10:30:45
    let expected_start = utc(2024, 1, 1, 10, 0, 0); // Should truncate to 10:00:00

    let time_series = vec![TimeSeriesPoint {
        timestamp: expected_start,
        duration_minutes: 60,
        requests: 5,
        input_tokens: 100,
        output_tokens: 50,
        avg_latency_ms: Some(200.0),
        p95_latency_ms: Some(300.0),
        p99_latency_ms: Some(400.0),
    }];

    let end_time = hours_after(start_time, 24);
    let result = fill_missing_intervals(time_series, start_time, end_time);

    // First point should be at the truncated hour
    assert_eq!(result[0].timestamp, expected_start);
}

#[test]
fn a_day_has_twenty_five_hours_with_both_ends() {
    let start = utc(2024, 1, 1, 0, 0, 0);
    let filled = fill_missing_intervals(Vec::<TimeSeriesPoint<f64>>::new(), start, hours_after(start, 24));
    assert_eq!(filled.len(), 25);
    assert_eq!(filled[24].timestamp, hours_after(start, 24));
    assert!(filled.iter().all(|p| p.duration_minutes == 60));
}

#[test]
fn nothing_is_filled_where_the_end_comes_first() {
    let start = utc(2024, 1, 1, 10, 0, 0);
    let filled = fill_missing_intervals(vec![point(start, 3)], start, hours_after(start, -1));
    assert!(filled.is_empty());
}

#[test]
fn points_off_the_grid_are_dropped() {
    let start = utc(2024, 1, 1, 10, 0, 0);
    let off = Timestamp { secs: start.secs + 60, nanos: 0 };
    let in_between = Timestamp { secs: start.secs + 3600, nanos: 5 };
    let filled = fill_missing_intervals(
        vec![point(off, 7), point(in_between, 8)],
        start,
        hours_after(start, 1),
    );
    assert_eq!(filled.len(), 2);
    assert!(filled.iter().all(|p| p.requests == 0));
}

#[test]
fn of_two_points_on_one_hour_the_last_counts() {
    let start = utc(2024, 1, 1, 10, 0, 0);
    let filled = fill_missing_intervals(vec![point(start, 1), point(start, 2)], start, start);
    assert_eq!(filled.len(), 1);
    assert_eq!(filled[0].requests, 2);
}

#[test]
fn ten_minutes_begin_on_a_multiple_of_ten() {
    let start = utc(2024, 1, 1, 10, 17, 45);
    let end = utc(2024, 1, 1, 10, 40, 0);
    let filled = fill_missing_intervals_ten_minutes(
        vec![point(utc(2024, 1, 1, 10, 20, 0), 9)],
        start,
        end,
    );
    let stamps: Vec<Timestamp> = filled.iter().map(|p| p.timestamp).collect();
    assert_eq!(
        stamps,
        vec![
            utc(2024, 1, 1, 10, 10, 0),
            utc(2024, 1, 1, 10, 20, 0),
            utc(2024, 1, 1, 10, 30, 0),
            utc(2024, 1, 1, 10, 40, 0),
        ]
    );
    let requests: Vec<i64> = filled.iter().map(|p| p.requests).collect();
    assert_eq!(requests, vec![0, 9, 0, 0]);
    assert_eq!(filled[0].duration_minutes, 10);
}

#[test]
fn times_before_the_epoch_are_floored_too() {
    let start = Timestamp { secs: -1, nanos: 0 };
    let filled = fill_missing_intervals(Vec::<TimeSeriesPoint<f64>>::new(), start, Timestamp { secs: 0, nanos: 0 });
    let secs: Vec<i64> = filled.iter().map(|p| p.timestamp.secs).collect();
    assert_eq!(secs, vec![-3600, 0]);
}

#[test]
fn sparklines_are_filled_every_ten_minutes() {
    let start = utc(2024, 1, 1, 10, 5, 0);
    let end = utc(2024, 1, 1, 10, 29, 59);
    let filled = fill_missing_intervals_for_sparklines(
        vec![ModelTimeSeriesPoint { timestamp: utc(2024, 1, 1, 10, 10, 0), requests: 4 }],
        start,
        end,
    );
    let requests: Vec<i64> = filled.iter().map(|p| p.requests).collect();
    assert_eq!(requests, vec![0, 4, 0]);
}

#[test]
fn filling_twice_is_filling_once() {
    let start = utc(2024, 1, 1, 10, 0, 0);
    let end = hours_after(start, 3);
    let once = fill_missing_intervals(vec![point(hours_after(start, 2), 6)], start, end);
    let twice = fill_missing_intervals(once.clone(), start, end);
    assert_eq!(once.len(), twice.len());
    for (a, b) in once.iter().zip(twice.iter()) {
        assert_eq!(a.timestamp, b.timestamp);
        assert_eq!(a.requests, b.requests);
        assert_eq!(a.avg_latency_ms, b.avg_latency_ms);
    }
}

#[test]
fn rows_without_a_time_give_no_point() {
    let start = utc(2024, 1, 1, 10, 0, 0);
    let row = |timestamp: Option<Timestamp>, requests: Option<i64>| TimeSeriesRow {
        timestamp,
        requests_count: requests,
        input_tokens: None,
        output_tokens: Some(5),
        avg_latency_ms: Some(1.5),
        p95_latency_ms: None,
        p99_latency_ms: None,
    };
    let rows = vec![row(None, Some(1)), row(Some(start), None)];
    let points = series_points(&rows, TimeGranularity::TenMinutes);
    assert_eq!(points.len(), 1);
    assert_eq!(points[0].requests, 0);
    assert_eq!(points[0].input_tokens, 0);
    assert_eq!(points[0].output_tokens, 5);
    assert_eq!(points[0].duration_minutes, 10);
    assert_eq!(points[0].avg_latency_ms, Some(1.5));
    let filled = filled_series(&rows, start, hours_after(start, 1), TimeGranularity::Hour);
    assert_eq!(filled.len(), 2);
    assert_eq!(filled[0].output_tokens, 5);
    assert_eq!(filled[0].duration_minutes, 60);
    assert_eq!(filled[1].output_tokens, 0);
}

#[test]
fn granularities_have_their_minutes() {
    assert_eq!(TimeGranularity::TenMinutes.duration_minutes(), 10);
    assert_eq!(TimeGranularity::Hour.duration_minutes(), 60);
}

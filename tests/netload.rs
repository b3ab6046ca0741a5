use netload::{
    aggregate, average_latency, delay_between_queries, estimated_seconds, get_headers,
    maximum_latency, minimum_latency, parse_method, schedule_requests, split_header, summarize,
    LatencySummary, Method, Outcome, Results,
};

fn args(items: &[&str]) -> Vec<String> {
    items.iter().map(|s| s.to_string()).collect()
}

#[test]
fn delay_is_index_times_truncated_spacing() {
    assert_eq!(delay_between_queries(100, 0), 0);
    assert_eq!(delay_between_queries(100, 5), 50);
    assert_eq!(delay_between_queries(3, 4), 1332);
    assert_eq!(delay_between_queries(1000, 499), 499);
    assert_eq!(delay_between_queries(7, 10), 1420);
    assert_eq!(delay_between_queries(2000, 50), 0);
}

#[test]
fn delay_never_decreases_with_index() {
    for rate in [1usize, 3, 7, 100, 999, 1000, 1001] {
        let mut last = 0u64;
        for i in 0..200usize {
            let d = delay_between_queries(rate, i);
            assert!(d >= last);
            last = d;
        }
    }
}

#[test]
fn schedule_has_one_entry_per_index() {
    let s = schedule_requests(500, 1000);
    assert_eq!(s.len(), 500);
    for (i, r) in s.iter().enumerate() {
        assert_eq!(r.index, i);
        assert_eq!(r.fire_after_ms, i as u64);
    }
    assert_eq!(s[499].fire_after_ms, 499);
    assert!(schedule_requests(0, 10).is_empty());
}

#[test]
fn estimate_is_count_over_rate() {
    assert_eq!(estimated_seconds(1000, 100), 10);
    assert_eq!(estimated_seconds(500, 1000), 0);
    assert_eq!(estimated_seconds(7, 2), 3);
}

#[test]
fn headers_hold_both_pairs() {
    let m = get_headers(args(&["A=B", "C=D"])).unwrap();
    assert_eq!(m.len(), 2);
    assert_eq!(m.get("a").unwrap(), "B");
    assert_eq!(m.get("c").unwrap(), "D");
}

#[test]
fn header_without_equals_fails() {
    let e = get_headers(args(&["noequals"])).unwrap_err();
    assert_eq!(e, "Invalid header format (Key=Value): noequals");
}

#[test]
fn header_splits_on_first_equals_only() {
    let m = get_headers(args(&["A=B=C"])).unwrap();
    assert_eq!(m.get("a").unwrap(), "B=C");
    assert_eq!(
        split_header("A=B=C"),
        Some(("A".to_string(), "B=C".to_string()))
    );
    assert_eq!(split_header("noequals"), None);
    assert_eq!(split_header("=x"), Some((String::new(), "x".to_string())));
}

#[test]
fn header_with_empty_value_fails() {
    let e = get_headers(args(&["A=B", "Key="])).unwrap_err();
    assert_eq!(e, "Invalid header format (Key=Value): Key=");
}

#[test]
fn header_with_bad_name_fails() {
    let e = get_headers(args(&["bad key=v"])).unwrap_err();
    assert_eq!(e, "Invalid header name: bad key=v");
    let e = get_headers(args(&["=v"])).unwrap_err();
    assert_eq!(e, "Invalid header name: =v");
}

#[test]
fn header_with_bad_value_fails() {
    let e = get_headers(args(&["A=B", "X=a\u{1}b"])).unwrap_err();
    assert_eq!(e, "Invalid header value: X=a\u{1}b");
}

#[test]
fn header_names_are_lowered_and_later_values_win() {
    let m = get_headers(args(&["X-Test=1", "x-test=2", "Accept=text/plain"])).unwrap();
    assert_eq!(m.len(), 2);
    assert_eq!(m.get("x-test").unwrap(), "2");
    assert_eq!(m.get("accept").unwrap(), "text/plain");
    assert!(m.keys().all(|k| k.as_str() == k.as_str().to_lowercase()));
}

#[test]
fn no_header_arguments_give_an_empty_map() {
    let m = get_headers(Vec::new()).unwrap();
    assert!(m.is_empty());
}

#[test]
fn methods_are_read_in_any_case() {
    assert_eq!(parse_method("get"), Some(Method::Get));
    assert_eq!(parse_method("GET"), Some(Method::Get));
    assert_eq!(parse_method("Post"), Some(Method::Post));
    assert_eq!(parse_method("pAtCh"), Some(Method::Patch));
    assert_eq!(parse_method("DELETE"), Some(Method::Delete));
    assert_eq!(parse_method("put"), Some(Method::Put));
    assert_eq!(parse_method("head"), None);
    assert_eq!(parse_method("gett"), None);
    assert_eq!(parse_method(""), None);
}

#[test]
fn latency_figures() {
    let l = vec![4u64, 10, 1, 7];
    assert_eq!(average_latency(&l), Some(5));
    assert_eq!(minimum_latency(&l), Some(1));
    assert_eq!(maximum_latency(&l), Some(10));
    let big = vec![u64::MAX, u64::MAX, u64::MAX - 3];
    assert_eq!(average_latency(&big), Some(u64::MAX - 1));
    let none: Vec<u64> = Vec::new();
    assert_eq!(average_latency(&none), None);
    assert_eq!(minimum_latency(&none), None);
    assert_eq!(maximum_latency(&none), None);
}

#[test]
fn every_outcome_is_counted_once() {
    let o = vec![
        Outcome::Success(3),
        Outcome::Failure,
        Outcome::Success(9),
        Outcome::Failure,
        Outcome::Failure,
    ];
    let r = aggregate(&o);
    assert_eq!(r.success_count(), 2);
    assert_eq!(r.error_count(), 3);
    assert_eq!(r.success_count() + r.error_count(), o.len() as u64);
    assert_eq!(r.latencies(), &vec![3u64, 9]);
}

#[test]
fn latencies_match_success_count() {
    let mut r = Results::new();
    r.record_success(12);
    r.record_error();
    r.record_outcome(Outcome::Success(5));
    r.record_outcome(Outcome::Failure);
    assert_eq!(r.success_count(), 2);
    assert_eq!(r.latencies().len() as u64, r.success_count());
    assert_eq!(r.error_count(), 2);
}

#[test]
fn summarizing_twice_gives_the_same_report() {
    let r = aggregate(&vec![Outcome::Success(2), Outcome::Success(6), Outcome::Failure]);
    let first = summarize(&r);
    let second = summarize(&r);
    assert_eq!(first, second);
    assert_eq!(first.success_count, 2);
    assert_eq!(first.error_count, 1);
    assert_eq!(
        first.latency,
        Some(LatencySummary { average_ms: 4, min_ms: 2, max_ms: 6 })
    );
}

#[test]
fn fast_server_run_counts_every_request_as_success() {
    let schedule = schedule_requests(500, 1000);
    assert_eq!(schedule.last().unwrap().fire_after_ms, 499);
    let outcomes: Vec<Outcome> = schedule
        .iter()
        .map(|s| Outcome::Success((s.index % 6) as u64))
        .collect();
    let s = summarize(&aggregate(&outcomes));
    assert_eq!(s.success_count, 500);
    assert_eq!(s.error_count, 0);
    let l = s.latency.unwrap();
    assert!(l.max_ms <= 5);
    assert_eq!(l.min_ms, 0);
}

#[test]
fn closed_connections_give_only_errors_and_no_latency() {
    let outcomes = vec![Outcome::Failure; 40];
    let r = aggregate(&outcomes);
    assert_eq!(r.success_count(), 0);
    assert_eq!(r.error_count(), 40);
    let s = summarize(&r);
    assert_eq!(s.latency, None);
    assert_eq!(s.error_count, 40);
}

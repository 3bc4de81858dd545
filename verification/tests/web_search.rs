use std::time::{Duration, Instant};

use tenon::tools::web_search::{
    clamp_count, next_attempt, remaining_wait_nanos, retry_backoff, throttle_wait,
    to_brave_freshness, to_tavily_country, to_tavily_time_range, Brave, Freshness, LangSearch,
    Tavily, WebSearchArgs, MAX_RETRIES,
};

const SEARCH_MIN_INTERVAL: Duration = Duration::from_secs(1);

#[test]
fn web_search_no_wait_when_interval_elapsed_since_completion() {
    let last = Instant::now() - SEARCH_MIN_INTERVAL * 2;
    assert_eq!(throttle_wait(last), Duration::ZERO);
}

#[test]
fn web_search_waits_remaining_time_within_interval() {
    let last = Instant::now() - Duration::from_millis(400);
    let wait = throttle_wait(last);
    assert!(
        (wait.as_millis() as i64 - 600).abs() < 50,
        "expected ~600ms remaining after 400ms, got {wait:?}"
    );
}

#[test]
fn web_search_waits_full_interval_right_after_completion() {
    let last = Instant::now();
    let wait = throttle_wait(last);
    assert!(
        wait >= SEARCH_MIN_INTERVAL - Duration::from_millis(50),
        "expected ~1s wait right after completion, got {wait:?}"
    );
}

#[test]
fn langsearch_no_wait_when_interval_elapsed_since_completion() {
    let last = Instant::now() - SEARCH_MIN_INTERVAL * 2;
    assert_eq!(throttle_wait(last), Duration::ZERO);
}

#[test]
fn langsearch_waits_remaining_time_within_interval() {
    let last = Instant::now() - Duration::from_millis(400);
    let wait = throttle_wait(last);
    assert!((wait.as_millis() as i64 - 600).abs() < 50);
}

#[test]
fn langsearch_waits_full_interval_right_after_completion() {
    let last = Instant::now();
    let wait = throttle_wait(last);
    assert!(wait >= SEARCH_MIN_INTERVAL - Duration::from_millis(50));
}

#[test]
fn mod_retry_backoff_within_bounds() {
    for retry in 1..=MAX_RETRIES {
        let min = Duration::from_secs(retry as u64);
        let max = Duration::from_secs((retry * 3) as u64);
        for _ in 0..100 {
            let backoff = Duration::from_secs(retry_backoff(retry));
            assert!(backoff >= min && backoff <= max);
        }
    }
}

#[test]
fn langsearch_retry_backoff_within_bounds() {
    for retry in 1..=MAX_RETRIES {
        for _ in 0..100 {
            let secs = retry_backoff(retry);
            assert!(secs >= retry as u64 && secs <= (retry * 3) as u64);
        }
    }
}

#[test]
fn remaining_wait_is_the_rest_of_the_interval() {
    assert_eq!(remaining_wait_nanos(0), 1_000_000_000);
    assert_eq!(remaining_wait_nanos(400_000_000), 600_000_000);
    assert_eq!(remaining_wait_nanos(1_000_000_000), 0);
    assert_eq!(remaining_wait_nanos(5_000_000_000), 0);
}

#[test]
fn retries_only_server_errors_and_throttling() {
    assert_eq!(next_attempt(200, 0), None);
    assert_eq!(next_attempt(404, 0), None);
    assert_eq!(next_attempt(500, 0), Some(1));
    assert_eq!(next_attempt(429, 3), Some(4));
    assert_eq!(next_attempt(503, 4), None);
}

#[test]
fn freshness_codes() {
    assert_eq!(to_brave_freshness(Freshness::D), "pd");
    assert_eq!(to_brave_freshness(Freshness::Y), "py");
    assert_eq!(Freshness::W.to_api_string(), "oneWeek");
    assert_eq!(to_tavily_time_range(Freshness::M), "month");
}

#[test]
fn tavily_countries_ignore_ascii_case() {
    assert_eq!(to_tavily_country("us"), Some("united states"));
    assert_eq!(to_tavily_country("GB"), Some("united kingdom"));
    assert_eq!(to_tavily_country("Hk"), Some("hong kong"));
    assert_eq!(to_tavily_country("xx"), None);
    assert_eq!(to_tavily_country("usa"), None);
}

#[test]
fn count_is_clamped() {
    assert_eq!(clamp_count(0), 1);
    assert_eq!(clamp_count(7), 7);
    assert_eq!(clamp_count(200), 20);
    let args = WebSearchArgs {
        query: "q".into(),
        freshness: None,
        count: None,
        region: None,
    };
    assert_eq!(args.count_or_default(), 5);
}

#[test]
fn brave_parameters() {
    let p = Brave::query_params("rust", Some(Freshness::W), 50, None);
    let p: Vec<(&str, &str)> = p.iter().map(|(a, b)| (a.as_str(), b.as_str())).collect();
    assert_eq!(
        p,
        vec![("q", "rust"), ("count", "20"), ("freshness", "pw"), ("country", "ALL")]
    );
    let p = Brave::query_params("rust", None, 3, Some("de"));
    assert_eq!(p.len(), 3);
    assert_eq!(p[2].1, "de");
}

#[test]
fn tavily_and_langsearch_requests() {
    let t = Tavily::request("q", Some(Freshness::D), 0, Some("FR"));
    assert_eq!(t.max_results, 1);
    assert_eq!(t.time_range, Some("day"));
    assert_eq!(t.country, Some("france"));
    let t = Tavily::request("q", None, 5, Some("zz"));
    assert_eq!(t.country, None);
    let l = LangSearch::request("q", Some(Freshness::Y), 9);
    assert_eq!(l.count, 9);
    assert_eq!(l.freshness, Some("oneYear"));
}

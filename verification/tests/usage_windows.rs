use chrono::TimeZone;
use code_usage::json::JsonNumber;
use code_usage::time::Timestamp;
use code_usage::usage::tray_title::{format_title, TitleCard};
use code_usage::usage::window::{history_start, summarize, window_sums_fit};
use code_usage::usage::{
    latest_record_at, CollectError, Provider, ProviderStatus, ProviderUsage, TokenTotals,
    UsageRecord, UsageWindow,
};

fn utc(year: i32, month: u32, day: u32, hour: u32) -> Timestamp {
    let t = chrono::Utc
        .with_ymd_and_hms(year, month, day, hour, 0, 0)
        .single()
        .expect("valid timestamp");
    Timestamp { secs: t.timestamp(), nanos: 0 }
}

fn record(timestamp: Timestamp, cost_usd: &str, input: u64) -> UsageRecord {
    UsageRecord {
        timestamp,
        tokens: TokenTotals { input, ..TokenTotals::default() },
        cost: JsonNumber::Float(cost_usd.to_string()),
    }
}

fn cost_of(window: &UsageWindow) -> f64 {
    window
        .costs
        .iter()
        .map(|c| match c {
            JsonNumber::PosInt(u) => *u as f64,
            JsonNumber::NegInt(i) => *i as f64,
            JsonNumber::Float(text) => text.parse::<f64>().expect("a float"),
        })
        .sum()
}

#[test]
fn buckets_records_into_today_week_and_month() {
    let records = vec![
        record(utc(2026, 9, 17, 12), "0.10", 100),
        record(utc(2026, 9, 14, 12), "0.20", 200),
        record(utc(2026, 8, 27, 12), "0.40", 400),
        record(utc(2026, 7, 1, 12), "5.00", 5000),
    ];

    let windows = summarize(&records, utc(2026, 9, 17, 0));

    assert!((cost_of(&windows.today) - 0.10).abs() < 1e-9);
    assert_eq!(windows.today.records, 1);
    assert_eq!(windows.today.tokens.input, 100);

    assert!((cost_of(&windows.last_7d) - 0.30).abs() < 1e-9);
    assert_eq!(windows.last_7d.records, 2);

    assert!((cost_of(&windows.last_30d) - 0.70).abs() < 1e-9);
    assert_eq!(windows.last_30d.records, 3);
    assert_eq!(windows.last_30d.tokens.input, 700);
}

#[test]
fn empty_records_produce_zeroed_windows() {
    let windows = summarize(&Vec::new(), utc(2026, 9, 17, 0));
    for window in [&windows.today, &windows.last_7d, &windows.last_30d] {
        assert_eq!(window.records, 0);
        assert!(window.costs.is_empty());
        assert_eq!(window.tokens, TokenTotals::default());
    }
}

#[test]
fn a_record_at_the_start_of_a_window_counts_and_one_just_before_does_not() {
    let today = utc(2026, 9, 17, 0);
    let just_before = Timestamp { secs: today.secs - 1, nanos: 999_999_999 };
    let week_start = Timestamp { secs: today.secs - 6 * 86400, nanos: 0 };
    let records = vec![
        record(today, "1", 1),
        record(just_before, "2", 2),
        record(week_start, "3", 4),
    ];
    let windows = summarize(&records, today);
    assert_eq!(windows.today.tokens.input, 1);
    assert_eq!(windows.last_7d.tokens.input, 7);
    assert_eq!(windows.last_30d.records, 3);
}

#[test]
fn the_windows_nest() {
    let records: Vec<UsageRecord> = (0..40u64)
        .map(|day| record(Timestamp { secs: utc(2026, 9, 17, 12).secs - (day as i64) * 86400, nanos: 0 }, "0.5", day + 1))
        .collect();
    let windows = summarize(&records, utc(2026, 9, 17, 0));
    assert_eq!(windows.today.records, 1);
    assert_eq!(windows.last_7d.records, 7);
    assert_eq!(windows.last_30d.records, 30);
    assert!(windows.today.tokens.input <= windows.last_7d.tokens.input);
    assert!(windows.last_7d.tokens.input <= windows.last_30d.tokens.input);
}

#[test]
fn tells_when_the_token_sums_overflow() {
    let today = utc(2026, 9, 17, 0);
    let big = vec![record(utc(2026, 9, 17, 1), "0", u64::MAX), record(utc(2026, 9, 17, 2), "0", 1)];
    assert!(!window_sums_fit(&big, today));
    let fine = vec![record(utc(2026, 9, 17, 1), "0", u64::MAX - 1), record(utc(2026, 9, 17, 2), "0", 1)];
    assert!(window_sums_fit(&fine, today));
    assert!(window_sums_fit(&Vec::new(), today));
}

#[test]
fn records_older_than_the_month_do_not_count_towards_the_sums() {
    let today = utc(2026, 9, 17, 0);
    let records = vec![
        record(utc(2026, 6, 1, 1), "0", u64::MAX),
        record(utc(2026, 6, 2, 1), "0", u64::MAX),
        record(utc(2026, 9, 17, 2), "0", 5),
    ];
    assert!(window_sums_fit(&records, today));
    let windows = summarize(&records, today);
    assert_eq!(windows.last_30d.records, 1);
    assert_eq!(windows.last_30d.tokens.input, 5);
}

#[test]
fn adding_tokens_and_their_total() {
    let mut a = TokenTotals { input: 1, output: 2, cache_read: 3, cache_write: 4, reasoning: 5 };
    a.add(&TokenTotals { input: 10, output: 20, cache_read: 30, cache_write: 40, reasoning: 50 });
    assert_eq!(a, TokenTotals { input: 11, output: 22, cache_read: 33, cache_write: 44, reasoning: 55 });
    assert_eq!(a.total(), 165);
    assert_eq!(a.checked_plus(&TokenTotals { input: u64::MAX, ..TokenTotals::default() }), None);
}

#[test]
fn names_of_the_tools() {
    assert_eq!(Provider::CommandCode.display_name(), "Command Code");
    assert_eq!(Provider::Grok.display_name(), "Grok");
    assert_eq!(Provider::OpenCode.display_name(), "OpenCode");
}

fn card(provider: Provider, available: bool, value: Option<&str>) -> TitleCard {
    TitleCard { provider, available, value: value.map(str::to_string) }
}

#[test]
fn renders_grok_percent_and_todays_costs() {
    let cards = vec![
        card(Provider::CommandCode, true, Some("$0.42")),
        card(Provider::Grok, true, Some("46%")),
        card(Provider::OpenCode, true, Some("$1.03")),
    ];
    assert_eq!(format_title(&cards), "46% · $0.42 · $1.03");
}

#[test]
fn missing_providers_render_placeholders() {
    let cards = vec![
        card(Provider::Grok, false, Some("46%")),
        card(Provider::CommandCode, true, Some("$0.42")),
        card(Provider::OpenCode, false, Some("$1.03")),
    ];
    assert_eq!(format_title(&cards), "– · $0.42 · –");
}

#[test]
fn grok_without_limits_renders_placeholder() {
    let cards = vec![
        card(Provider::CommandCode, true, Some("$0")),
        card(Provider::Grok, true, None),
        card(Provider::OpenCode, true, Some("$0")),
    ];
    assert_eq!(format_title(&cards), "– · $0 · $0");
    assert_eq!(format_title(&Vec::new()), "– · – · –");
}

#[test]
fn cards_are_built_from_records_or_from_an_error() {
    let records = vec![
        record(utc(2026, 9, 15, 12), "0.5", 10),
        record(utc(2026, 9, 17, 9), "0.25", 20),
        record(utc(2026, 9, 16, 12), "0.5", 30),
    ];
    let usage = ProviderUsage::from_records(Provider::Grok, &records, utc(2026, 9, 17, 0));
    assert_eq!(usage.status, ProviderStatus::Available);
    assert_eq!(usage.today.records, 1);
    assert_eq!(usage.last_7d.tokens.input, 60);
    assert_eq!(usage.last_record_at, Some(utc(2026, 9, 17, 9)));
    assert_eq!(latest_record_at(&Vec::new()), None);

    let down = ProviderUsage::unavailable(Provider::OpenCode, CollectError::NotFound("/db".to_string()));
    assert_eq!(down.status, ProviderStatus::NotFound { path: "/db".to_string() });
    assert_eq!(down.last_30d.records, 0);
    assert!(down.last_record_at.is_none());
}

#[test]
fn the_history_starts_31_days_before_today() {
    assert_eq!(history_start(utc(2026, 9, 17, 0)), utc(2026, 8, 17, 0));
}

use code_usage::json::JsonNumber;
use code_usage::time::Timestamp;
use code_usage::usage::commandcode_api::read_token;
use code_usage::usage::commandcode_limits::{parse_limits, plan_monthly_credits, plan_name};
use code_usage::usage::opencode_go::{parse_usage, read_account, read_api_key};
use code_usage::usage::{CollectError, ProviderStatus};

fn instant(text: &str) -> Timestamp {
    let t = chrono::DateTime::parse_from_rfc3339(text).expect("valid timestamp");
    Timestamp { secs: t.timestamp(), nanos: t.timestamp_subsec_nanos() }
}

fn rfc3339(t: Timestamp) -> String {
    chrono::DateTime::from_timestamp(t.secs, t.nanos)
        .expect("in range")
        .to_rfc3339()
}

fn number(n: &JsonNumber) -> f64 {
    match n {
        JsonNumber::PosInt(u) => *u as f64,
        JsonNumber::NegInt(i) => *i as f64,
        JsonNumber::Float(text) => text.parse().expect("a float"),
    }
}

const SUMMARY: &str = r#"{"totalCost":34.1027526312,"totalCount":7776,"periodBasis":"billing-period"}"#;
const CREDITS: &str = r#"{"credits":{"monthlyCredits":31.4543351002,"purchasedCredits":0,"freeCredits":7.0913297996},"windowLimits":{"fiveHour":{"used":0.433224008,"cap":14,"resetAt":1789701545210},"weekly":{"used":0.6025898049,"cap":35,"resetAt":1790266576342}}}"#;
const SUBSCRIPTION: &str = r#"{"data":{"planId":"individual-goat","status":"active","currentPeriodEnd":"2026-10-10T15:54:42Z"}}"#;

#[test]
fn reads_the_token_from_the_auth_file() {
    assert_eq!(
        read_token("/tmp/auth.json", r#"{"apiKey":"fixture-token","userName":"x"}"#).expect("token"),
        "fixture-token"
    );
}

#[test]
fn a_token_file_without_a_key_is_refused() {
    assert_eq!(
        read_token("/a/auth.json", r#"{"apiKey":""}"#),
        Err(CollectError::Failed("/a/auth.json: sem apiKey".to_string()))
    );
    assert_eq!(
        read_token("/a/auth.json", r#"{"userName":"x"}"#),
        Err(CollectError::Failed("/a/auth.json: sem apiKey".to_string()))
    );
    match read_token("/a/auth.json", "{ not json") {
        Err(CollectError::Failed(message)) => assert!(message.starts_with("/a/auth.json: ")),
        other => panic!("expected a failure, got {other:?}"),
    }
}

#[test]
fn maps_plan_ids_to_names_and_credits() {
    assert_eq!(plan_name("individual-goat"), Some("GOAT"));
    assert_eq!(plan_monthly_credits("individual-goat").map(f64::from), Some(70.0));
    assert_eq!(plan_name("individual-max"), Some("Max"));
    assert_eq!(plan_monthly_credits("teams-pro").map(f64::from), Some(40.0));
    assert_eq!(plan_name("individual-unknown"), None);
}

#[test]
fn every_plan_of_the_table_has_its_name_and_credits() {
    let table = [
        ("individual-ultra", "Ultra", 300),
        ("individual-max", "Max", 150),
        ("individual-pro-v1", "Pro", 80),
        ("individual-goat", "GOAT", 70),
        ("teams-pro", "Teams Pro", 40),
        ("individual-pro", "Pro", 30),
        ("individual-provider", "Provider", 15),
        ("individual-go", "Go", 10),
    ];
    for (id, name, credits) in table {
        assert_eq!(plan_name(id), Some(name));
        assert_eq!(plan_monthly_credits(id), Some(credits));
    }
    assert_eq!(plan_monthly_credits(""), None);
}

#[test]
fn reads_the_plan_fields_from_the_payloads() {
    let limits = parse_limits(SUMMARY, CREDITS, SUBSCRIPTION).expect("payloads are parsed");

    assert_eq!(limits.plan.as_deref(), Some("GOAT"));
    assert_eq!(limits.subscription.plan_id.as_deref(), Some("individual-goat"));
    assert_eq!(limits.subscription.status.as_deref(), Some("active"));
    assert_eq!(
        limits.subscription.renews_at.map(rfc3339),
        Some("2026-10-10T15:54:42+00:00".to_string())
    );
    assert_eq!(limits.summary.requests_this_period, 7776);
    assert_eq!(limits.summary.period_basis.as_deref(), Some("billing-period"));
    assert!((number(&limits.summary.total_spent) - 34.1027526312).abs() < 1e-12);
    let remaining = number(&limits.credits.monthly_remaining)
        + number(&limits.credits.purchased)
        + number(&limits.credits.free);
    assert!((remaining - 38.5456648998).abs() < 1e-9);

    let five_hour = limits.five_hour.expect("five hour window");
    assert!((number(&five_hour.used) / number(&five_hour.cap) - 0.433224008 / 14.0).abs() < 1e-12);
    assert_eq!(
        chrono::DateTime::from_timestamp(five_hour.reset_at.secs, five_hour.reset_at.nanos)
            .unwrap()
            .timestamp_millis(),
        1789701545210
    );
    let weekly = limits.weekly.expect("weekly window");
    assert_eq!(number(&weekly.cap), 35.0);
    assert_eq!(weekly.reset_at.secs, 1790266576);
    assert_eq!(weekly.reset_at.nanos, 342_000_000);
}

#[test]
fn rejects_payloads_without_credits() {
    let error = parse_limits(SUMMARY, "{\"credits\":null}", SUBSCRIPTION)
        .expect_err("credits are required");

    assert!(matches!(error, CollectError::Failed(_)));
    assert_eq!(error, CollectError::Failed("resposta de credits sem saldo".to_string()));
}

#[test]
fn names_the_payload_that_is_not_json() {
    let error = parse_limits(SUMMARY, CREDITS, "<html>").expect_err("broken payload");
    match error {
        CollectError::Failed(message) => assert!(message.starts_with("billing/subscriptions inválido: ")),
        other => panic!("expected a failure, got {other:?}"),
    }
    let error = parse_limits("", "", "").expect_err("broken payloads");
    match error {
        CollectError::Failed(message) => assert!(message.starts_with("usage/summary inválido: ")),
        other => panic!("expected a failure, got {other:?}"),
    }
}

#[test]
fn missing_fields_default_and_windows_need_used_and_reset() {
    let credits = r#"{"credits":{},"windowLimits":{"fiveHour":{"cap":14,"resetAt":1},"weekly":{"used":1,"resetAt":1000}}}"#;
    let limits = parse_limits("{}", credits, r#"{"data":null}"#).expect("payloads are parsed");
    assert!(limits.plan.is_none());
    assert!(limits.subscription.plan_id.is_none());
    assert!(limits.subscription.renews_at.is_none());
    assert_eq!(limits.summary.requests_this_period, 0);
    assert!(matches!(limits.summary.total_spent, JsonNumber::PosInt(0)));
    assert!(matches!(limits.credits.free, JsonNumber::PosInt(0)));
    assert!(limits.five_hour.is_none());
    let weekly = limits.weekly.expect("weekly window");
    assert!(matches!(weekly.cap, JsonNumber::PosInt(0)));
    assert_eq!(weekly.reset_at, Timestamp { secs: 1, nanos: 0 });
}

#[test]
fn parses_the_three_usage_windows() {
    let body = r#"{"usage":{"rolling":{"percent":11,"status":"ok","resetsAt":"2026-09-18T02:40:19.375Z"},"weekly":{"percent":21,"resetsAt":"2026-09-21T00:00:00Z"},"monthly":{"percent":10,"resetsAt":"2026-10-16T12:54:30Z"}}}"#;
    let now = instant("2026-09-17T15:00:00Z");
    let limits = parse_usage(body, now).expect("payload is parsed");

    let rolling = limits.rolling.expect("rolling window");
    assert_eq!(number(&rolling.percent), 11.0);
    assert_eq!(rolling.status.as_deref(), Some("ok"));
    assert_eq!(rfc3339(rolling.resets_at), "2026-09-18T02:40:19.375+00:00");
    let weekly = limits.weekly.expect("weekly window");
    assert_eq!(number(&weekly.percent), 21.0);
    assert_eq!(rfc3339(weekly.resets_at), "2026-09-21T00:00:00+00:00");
    let monthly = limits.monthly.expect("monthly window");
    assert_eq!(number(&monthly.percent), 10.0);
    assert_eq!(rfc3339(monthly.resets_at), "2026-10-16T12:54:30+00:00");
    assert_eq!(limits.fetched_at, now);
}

#[test]
fn drops_windows_missing_percent_or_reset() {
    let limits = parse_usage(
        r#"{"usage":{"rolling":{"percent":5},"weekly":{"resetsAt":"2026-09-21T00:00:00Z"}}}"#,
        instant("2026-09-17T15:00:00Z"),
    )
    .expect("payload is parsed");

    assert!(limits.rolling.is_none());
    assert!(limits.weekly.is_none());
    assert!(limits.monthly.is_none());
}

#[test]
fn rejects_payloads_without_usage() {
    let error = parse_usage("{\"usage\":null}", instant("2026-09-17T15:00:00Z"))
        .expect_err("usage is required");

    assert!(matches!(error, CollectError::Failed(_)));
}

#[test]
fn a_payload_without_usage_lists_its_keys() {
    let error = parse_usage(r#"{"error":"x","code":1}"#, instant("2026-09-17T15:00:00Z"))
        .expect_err("usage is required");
    assert_eq!(
        error,
        CollectError::Failed("zen/go/usage sem \"usage\" (chaves: [\"code\", \"error\"])".to_string())
    );
}

#[test]
fn reads_the_opencode_go_key_from_auth_json() {
    let text = r#"{"opencode-go":{"type":"api","key":"go-fixture-key"},"opencode":{"type":"api","key":"zen"}}"#;
    assert_eq!(read_api_key("/a/auth.json", text).expect("api key"), "go-fixture-key");
    assert_eq!(
        read_api_key("/a/auth.json", r#"{"opencode-go":{"token":"t"}}"#).expect("api key"),
        "t"
    );
    assert_eq!(
        read_api_key("/a/auth.json", r#"{"opencode":{"key":"zen"}}"#),
        Err(CollectError::Failed("/a/auth.json: sem conta opencode-go".to_string()))
    );
    assert_eq!(
        read_api_key("/a/auth.json", r#"{"opencode-go":{"key":""}}"#),
        Err(CollectError::Failed("/a/auth.json: sem api key".to_string()))
    );
}

#[test]
fn reads_the_account_label_from_the_auth_file() {
    let text = r#"{"opencode-go":{"type":"api","key":"go-fixture-key"}}"#;
    assert_eq!(read_account(text).as_deref(), Some("OpenCode Go"));
    assert_eq!(
        read_account(r#"{"opencode":{"type":"api","key":"zen-fixture-key"}}"#).as_deref(),
        Some("OpenCode Zen")
    );
    assert_eq!(read_account("{}"), None);
    assert_eq!(read_account("not json"), None);
}

#[test]
fn a_collection_error_becomes_the_card_state() {
    assert_eq!(
        ProviderStatus::from(CollectError::NotFound("/x".to_string())),
        ProviderStatus::NotFound { path: "/x".to_string() }
    );
    assert_eq!(
        ProviderStatus::from(CollectError::Failed("boom".to_string())),
        ProviderStatus::Error { message: "boom".to_string() }
    );
    assert_ne!(ProviderStatus::Available, ProviderStatus::Error { message: String::new() });
}

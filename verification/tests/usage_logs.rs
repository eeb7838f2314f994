use code_usage::json::JsonNumber;
use code_usage::time::Timestamp;
use code_usage::usage::commandcode::{is_transcript, parse_line, read_transcript, walk_step, WalkStep};
use code_usage::usage::grok::{self, GrokEvent};
use code_usage::usage::opencode::{collect_rows, parse_message_data};
use code_usage::usage::window::summarize;
use code_usage::usage::{TokenTotals, UsageRecord, UsageWindow};

fn instant(text: &str) -> Timestamp {
    let t = chrono::DateTime::parse_from_rfc3339(text).expect("valid timestamp");
    Timestamp { secs: t.timestamp(), nanos: t.timestamp_subsec_nanos() }
}

fn rfc3339(t: Timestamp) -> String {
    chrono::DateTime::from_timestamp(t.secs, t.nanos)
        .expect("in range")
        .to_rfc3339()
}

fn cost(n: &JsonNumber) -> f64 {
    match n {
        JsonNumber::PosInt(u) => *u as f64,
        JsonNumber::NegInt(i) => *i as f64,
        JsonNumber::Float(text) => text.parse().expect("a float"),
    }
}

fn ms(text: &str) -> i64 {
    chrono::DateTime::parse_from_rfc3339(text).expect("valid timestamp").timestamp_millis()
}

#[test]
fn parses_assistant_usage_line() {
    let line = r#"{"type":"message","id":"m2","timestamp":"2026-09-17T12:00:30Z","message":{"role":"assistant","content":[]},"usage":{"inputTokens":1000,"outputTokens":100,"cacheReadTokens":50,"cacheWriteTokens":10,"costUsd":0.1}}"#;

    let record = parse_line(line).expect("a usage record");

    assert_eq!(rfc3339(record.timestamp), "2026-09-17T12:00:30+00:00");
    assert!((cost(&record.cost) - 0.1).abs() < 1e-9);
    assert_eq!(
        record.tokens,
        TokenTotals {
            input: 1000,
            output: 100,
            cache_read: 50,
            cache_write: 10,
            reasoning: 0,
        }
    );
}

#[test]
fn ignores_non_assistant_and_malformed_lines() {
    assert!(
        parse_line(r#"{"type":"session","id":"s","timestamp":"2026-09-17T12:00:00Z"}"#).is_none()
    );
    assert!(parse_line(r#"{"type":"message","timestamp":"2026-09-17T12:00:00Z","message":{"role":"user"},"usage":{"costUsd":1.0}}"#).is_none());
    assert!(parse_line(r#"{"type":"message","timestamp":"2026-09-17T12:00:00Z","message":{"role":"assistant"}}"#).is_none());
    assert!(parse_line("not json at all").is_none());
    assert!(parse_line(r#"{"type":"message","timestamp":"not-a-date","message":{"role":"assistant"},"usage":{"costUsd":9.99}}"#).is_none());
}

#[test]
fn tolerates_missing_usage_fields() {
    let line = r#"{"type":"message","timestamp":"2026-09-17T12:00:00Z","message":{"role":"assistant"},"usage":{"costUsd":0.5}}"#;
    let record = parse_line(line).expect("record with partial usage");
    assert_eq!(record.tokens, TokenTotals::default());
    assert!((cost(&record.cost) - 0.5).abs() < 1e-9);
}

#[test]
fn a_missing_cost_counts_as_zero_and_integer_costs_are_kept() {
    let line = r#"{"type":"message","timestamp":"2026-09-17T12:00:00Z","message":{"role":"assistant"},"usage":{"inputTokens":7}}"#;
    let record = parse_line(line).expect("record without cost");
    assert!(matches!(record.cost, JsonNumber::PosInt(0)));
    assert_eq!(record.tokens.input, 7);

    let line = r#"{"type":"message","timestamp":"2026-09-17T12:00:00Z","message":{"role":"assistant"},"usage":{"costUsd":2}}"#;
    assert!(matches!(parse_line(line).expect("record").cost, JsonNumber::PosInt(2)));
}

#[test]
fn transcripts_are_jsonl_files_that_are_not_checkpoints() {
    assert!(is_transcript("session.jsonl"));
    assert!(!is_transcript("session.checkpoints.jsonl"));
    assert!(!is_transcript("session.json"));
    assert!(!is_transcript("notes.txt"));
}

#[test]
fn reading_a_transcript_keeps_the_usage_lines_in_order() {
    let lines = vec![
        r#"{"type":"message","timestamp":"2026-09-17T12:00:00Z","message":{"role":"assistant"},"usage":{"inputTokens":1}}"#.to_string(),
        "not json".to_string(),
        r#"{"type":"message","timestamp":"2026-09-17T12:00:00Z","message":{"role":"user"},"usage":{"inputTokens":5}}"#.to_string(),
        r#"{"type":"message","timestamp":"2026-09-17T13:00:00Z","message":{"role":"assistant"},"usage":{"inputTokens":2}}"#.to_string(),
    ];
    let mut records: Vec<UsageRecord> = Vec::new();
    read_transcript(&lines, &mut records);
    read_transcript(&lines[..1].to_vec(), &mut records);

    let inputs: Vec<u64> = records.iter().map(|r| r.tokens.input).collect();
    assert_eq!(inputs, vec![1, 2, 1]);
}

#[test]
fn ignores_unrelated_and_malformed_lines() {
    assert!(grok::parse_line(
        r#"{"ts":"2026-09-17T13:00:05Z","msg":"slash.advertise","ctx":{"count":135}}"#
    )
    .is_none());
    assert!(grok::parse_line("not json").is_none());
    assert!(grok::parse_line(r#"{"ts":"2026-09-17T14:30:00Z","msg":"billing: fetched credits config","ctx":{"config":{"creditUsagePercent":46.0}}}"#).is_none());
}

#[test]
fn reads_billing_and_inference_events() {
    let billing = grok::parse_line(r#"{"ts":"2026-09-17T14:22:36.406Z","msg":"billing: fetched credits config","ctx":{"subscriptionTier":"SuperGrok Plus","config":{"creditUsagePercent":46.0,"currentPeriod":{"start":"2026-09-17T13:25:23.983555Z","end":"2026-09-24T13:25:23.983555Z"}}}}"#);
    match billing {
        Some(GrokEvent::Billing(limits)) => {
            assert_eq!(cost(limits.credit_usage_percent.as_ref().expect("percent")), 46.0);
            assert_eq!(rfc3339(limits.period_start), "2026-09-17T13:25:23.983555+00:00");
            assert_eq!(rfc3339(limits.period_end), "2026-09-24T13:25:23.983555+00:00");
            assert_eq!(limits.tier.as_deref(), Some("SuperGrok Plus"));
            assert_eq!(rfc3339(limits.fetched_at), "2026-09-17T14:22:36.406+00:00");
        }
        other => panic!("expected billing limits, got {other:?}"),
    }

    let inference = grok::parse_line(r#"{"ts":"2026-09-17T14:00:00Z","msg":"shell.turn.inference_done","ctx":{"prompt_tokens":2000,"cached_prompt_tokens":1500,"completion_tokens":200}}"#);
    match inference {
        Some(GrokEvent::Inference(record)) => {
            assert_eq!(record.tokens.input, 500);
            assert_eq!(record.tokens.cache_read, 1500);
            assert_eq!(record.tokens.output, 200);
            assert!(matches!(record.cost, JsonNumber::PosInt(0)));
        }
        other => panic!("expected a record, got {other:?}"),
    }

    let empty = grok::parse_line(r#"{"ts":"2026-09-17T14:00:00Z","msg":"shell.turn.inference_done","ctx":{"cached_prompt_tokens":3}}"#);
    assert!(empty.is_none());
}

#[test]
fn keeps_the_newest_billing_and_the_records_since() {
    let lines = vec![
        r#"{"ts":"2026-09-17T14:00:00Z","msg":"billing: fetched credits config","ctx":{"config":{"creditUsagePercent":10,"currentPeriod":{"start":"2026-09-17T00:00:00Z","end":"2026-09-24T00:00:00Z"}}}}"#.to_string(),
        r#"{"ts":"2026-09-10T14:00:00Z","msg":"shell.turn.inference_done","ctx":{"prompt_tokens":5,"completion_tokens":1}}"#.to_string(),
        r#"{"ts":"2026-09-17T15:00:00Z","msg":"shell.turn.inference_done","ctx":{"prompt_tokens":7,"completion_tokens":1}}"#.to_string(),
        r#"{"ts":"2026-09-18T12:43:06.588Z","msg":"billing: fetched credits config","ctx":{"subscriptionTier":"SuperGrok Plus","config":{"currentPeriod":{"start":"2026-09-18T12:30:51.769833Z","end":"2026-09-25T12:30:51.769833Z"}}}}"#.to_string(),
        r#"{"ts":"2026-09-16T00:00:00Z","msg":"billing: fetched credits config","ctx":{"config":{"creditUsagePercent":99,"currentPeriod":{"start":"2026-09-16T00:00:00Z","end":"2026-09-23T00:00:00Z"}}}}"#.to_string(),
    ];
    let data = grok::collect_lines(&lines, instant("2026-09-17T00:00:00Z"));

    assert_eq!(data.records.len(), 1);
    assert_eq!(data.records[0].tokens.input, 7);
    let limits = data.limits.expect("billing limits");
    assert!(limits.credit_usage_percent.is_none());
    assert_eq!(limits.tier.as_deref(), Some("SuperGrok Plus"));
    assert_eq!(rfc3339(limits.fetched_at), "2026-09-18T12:43:06.588+00:00");
    assert_eq!(rfc3339(limits.period_start), "2026-09-18T12:30:51.769833+00:00");
}

#[test]
fn ignores_credentials_without_an_email() {
    assert_eq!(
        grok::read_account(r#"{"https://auth.x.ai::client":{"auth_mode":"oidc","user_id":"user"}}"#),
        None
    );
}

#[test]
fn reads_the_newest_account_email() {
    let text = r#"{
        "a": {"email": "old@example.com", "create_time": "2026-01-01T00:00:00Z"},
        "b": {"email": "new-fixture@example.com", "create_time": "2026-06-01T00:00:00Z"},
        "c": {"email": "", "create_time": "2026-12-01T00:00:00Z"}
    }"#;
    assert_eq!(grok::read_account(text).as_deref(), Some("new-fixture@example.com"));
    assert_eq!(grok::read_account("not json"), None);
}

#[test]
fn parses_assistant_message_payload() {
    let record = parse_message_data(
        ms("2026-09-17T12:00:00Z"),
        r#"{"role":"assistant","cost":0.12,"tokens":{"input":1000,"output":100,"reasoning":20,"cache":{"read":500,"write":5}}}"#,
    )
    .expect("assistant usage");

    assert_eq!(
        record.tokens,
        TokenTotals {
            input: 1000,
            output: 100,
            cache_read: 500,
            cache_write: 5,
            reasoning: 20,
        }
    );
    assert!((cost(&record.cost) - 0.12).abs() < 1e-9);
    assert_eq!(rfc3339(record.timestamp), "2026-09-17T12:00:00+00:00");
}

#[test]
fn ignores_user_messages_missing_tokens_and_broken_json() {
    let ts = ms("2026-09-17T12:00:00Z");
    assert!(parse_message_data(ts, r#"{"role":"user"}"#).is_none());
    assert!(parse_message_data(ts, r#"{"role":"assistant"}"#).is_none());
    assert!(parse_message_data(ts, "not json").is_none());
}

#[test]
fn collects_the_assistant_rows_in_order() {
    let rows = vec![
        (ms("2026-09-17T12:00:00Z"), r#"{"role":"assistant","cost":0.12,"tokens":{"input":1000,"output":100,"reasoning":20,"cache":{"read":500,"write":0}}}"#.to_string()),
        (ms("2026-09-17T12:30:00Z"), r#"{"role":"user","tokens":{"input":10}}"#.to_string()),
        (ms("2026-09-17T13:00:00Z"), r#"{"role":"assistant","tokens":{"input":300,"output":30}}"#.to_string()),
        (ms("2026-09-17T14:00:00Z"), "not json".to_string()),
    ];
    let records = collect_rows(&rows);
    assert_eq!(records.len(), 2);
    assert_eq!(records[0].tokens.input, 1000);
    assert_eq!(records[1].tokens.input, 300);
    assert!(matches!(records[1].cost, JsonNumber::PosInt(0)));
}

#[test]
fn the_walk_goes_three_levels_down_and_reads_transcripts() {
    assert_eq!(walk_step(0, true, "proj"), WalkStep::Descend);
    assert_eq!(walk_step(2, true, "sub"), WalkStep::Descend);
    assert_eq!(walk_step(3, true, "deeper"), WalkStep::Skip);
    assert_eq!(walk_step(3, false, "s.jsonl"), WalkStep::Read);
    assert_eq!(walk_step(1, false, "s.checkpoints.jsonl"), WalkStep::Skip);
    assert_eq!(walk_step(1, false, "notes.md"), WalkStep::Skip);
    assert_eq!(walk_step(0, true, "x.jsonl"), WalkStep::Descend);
}

fn unified_log() -> Vec<String> {
    [
        r#"{"ts":"2026-09-17T13:00:00Z","msg":"billing: fetched credits config","ctx":{"subscriptionTier":"SuperGrok Plus","config":{"creditUsagePercent":10.0,"currentPeriod":{"start":"2026-09-10T13:25:23.983555Z","end":"2026-09-17T13:25:23.983555Z"}}}}"#,
        r#"{"ts":"2026-09-16T20:00:00Z","msg":"shell.turn.inference_done","ctx":{"prompt_tokens":1000,"cached_prompt_tokens":500,"completion_tokens":100}}"#,
        r#"{"ts":"2026-09-17T09:00:00Z","msg":"shell.turn.inference_done","ctx":{"prompt_tokens":1500,"cached_prompt_tokens":1000,"completion_tokens":50}}"#,
        r#"{"ts":"2026-09-17T13:00:05Z","msg":"slash.advertise","ctx":{"count":135}}"#,
        r#"{"ts":"2026-09-17T14:22:36.406Z","msg":"billing: fetched credits config","ctx":{"subscriptionTier":"SuperGrok Plus","config":{"creditUsagePercent":46.0,"currentPeriod":{"start":"2026-09-17T13:25:23.983555Z","end":"2026-09-24T13:25:23.983555Z"}}}}"#,
        r#"{"ts":"2026-09-17T14:25:00Z","msg":"shell.turn.inference_done","ctx":{"prompt_tokens":1000,"completion_tokens":50}}"#,
        r#"{"ts":"2026-09-17T14:30:00Z","msg":"billing: fetched credits config","ctx":{"config":{"creditUsagePercent":99.0}}}"#,
        "not json",
    ]
    .iter()
    .map(|line| line.to_string())
    .collect()
}

fn since() -> Timestamp {
    instant("2026-08-17T00:00:00Z")
}

#[test]
fn parses_last_valid_billing_event() {
    let data = grok::collect_lines(&unified_log(), since());

    let limits = data.limits.expect("billing limits");
    assert_eq!(limits.credit_usage_percent.as_ref().map(cost), Some(46.0));
    assert_eq!(rfc3339(limits.period_start), "2026-09-17T13:25:23.983555+00:00");
    assert_eq!(rfc3339(limits.period_end), "2026-09-24T13:25:23.983555+00:00");
    assert_eq!(limits.tier.as_deref(), Some("SuperGrok Plus"));
    assert_eq!(rfc3339(limits.fetched_at), "2026-09-17T14:22:36.406+00:00");
}

#[test]
fn keeps_the_active_account_when_the_newest_config_omits_the_percentage() {
    let mut lines = unified_log();
    lines.push(r#"{"ts":"2026-09-18T12:43:06.588Z","msg":"billing: fetched credits config","ctx":{"subscriptionTier":"SuperGrok Plus","config":{"currentPeriod":{"start":"2026-09-18T12:30:51.769833Z","end":"2026-09-25T12:30:51.769833Z"}}}}"#.to_string());
    let data = grok::collect_lines(&lines, since());

    let limits = data.limits.expect("billing limits");
    assert!(limits.credit_usage_percent.is_none());
    assert_eq!(limits.tier.as_deref(), Some("SuperGrok Plus"));
    assert_eq!(rfc3339(limits.fetched_at), "2026-09-18T12:43:06.588+00:00");
    assert_eq!(rfc3339(limits.period_start), "2026-09-18T12:30:51.769833+00:00");
}

#[test]
fn parses_inference_records_with_cache_split() {
    let data = grok::collect_lines(&unified_log(), since());

    assert_eq!(data.records.len(), 3);
    let tokens = data.records.iter().fold(TokenTotals::default(), |mut acc, record| {
        acc.add(&record.tokens);
        acc
    });
    assert_eq!(tokens.input, 2000);
    assert_eq!(tokens.cache_read, 1500);
    assert_eq!(tokens.output, 200);
}

#[test]
fn filters_records_older_than_since() {
    let recent_since = instant("2026-09-17T00:00:00Z");
    let data = grok::collect_lines(&unified_log(), recent_since);
    assert_eq!(data.records.len(), 2);
    assert!(data.records.iter().all(|record| record.timestamp.is_at_or_after(&recent_since)));
}

fn window_cost(window: &UsageWindow) -> f64 {
    window.costs.iter().map(cost).sum()
}

#[test]
fn collects_records_into_windows() {
    let data = grok::collect_lines(&unified_log(), since());
    let windows = summarize(&data.records, instant("2026-09-17T00:00:00Z"));

    assert_eq!(windows.today.records, 2);
    assert!((window_cost(&windows.last_30d) - 0.0).abs() < 1e-9);
    assert_eq!(windows.last_30d.tokens.total(), 3700);
}

#[test]
fn aggregates_messages_from_fixture_db() {
    let rows = vec![
        (ms("2026-09-17T12:00:00Z"), r#"{"role":"assistant","cost":0.12,"tokens":{"input":1000,"output":100,"reasoning":20,"cache":{"read":500,"write":0}}}"#.to_string()),
        (ms("2026-09-07T12:00:00Z"), r#"{"role":"assistant","cost":0.25,"tokens":{"input":2000,"output":200,"reasoning":0,"cache":{"read":0,"write":0}}}"#.to_string()),
        (ms("2026-09-17T12:30:00Z"), r#"{"role":"user","tokens":{"input":10,"output":0,"reasoning":0,"cache":{"read":0,"write":0}}}"#.to_string()),
        (ms("2026-09-17T13:00:00Z"), r#"{"role":"assistant","tokens":{"input":300,"output":30,"reasoning":0,"cache":{"read":0,"write":0}}}"#.to_string()),
        (ms("2026-09-17T14:00:00Z"), "not json".to_string()),
    ];

    let records = collect_rows(&rows);

    assert_eq!(records.len(), 3, "old, user and broken rows are skipped");

    let windows = summarize(&records, instant("2026-09-17T00:00:00Z"));
    assert!((window_cost(&windows.today) - 0.12).abs() < 1e-9);
    assert_eq!(windows.today.records, 2);
    assert_eq!(windows.today.tokens.input, 1300);
    assert_eq!(windows.today.tokens.output, 130);
    assert_eq!(windows.today.tokens.reasoning, 20);
    assert_eq!(windows.today.tokens.cache_read, 500);

    assert_eq!(windows.last_7d.records, 2);
    assert!((window_cost(&windows.last_30d) - 0.37).abs() < 1e-9);
    assert_eq!(windows.last_30d.records, 3);
}

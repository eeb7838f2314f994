//! OpenCode's SQLite database (`~/.local/share/opencode/opencode.db`, opened read-only): each
//! row of the `message` table holds a JSON payload with `cost` and `tokens`.

use vstd::prelude::*;
use crate::json::{JsonValue, JsonView, json_text, parse, get, get_str, count};
use crate::time::{millis_instant, from_millis};
use super::{UsageRecord, RecordView, TokenTotals, records_view};
use super::commandcode::{record_option, number_or_zero, number_at, count_at, str_at_is};

verus! {

broadcast use vstd::std_specs::vec::group_vec_axioms;

/// `cache.and_then(|c| c.get(key)).and_then(Value::as_u64).unwrap_or(0)`.
pub open spec fn cache_count(cache: Option<JsonView>, key: Seq<char>) -> u64 {
    match cache {
        Some(c) => count(c, key),
        None => 0,
    }
}

/// The record of a message payload created at `time_created_ms`: an assistant message with a
/// `tokens` object, at an instant chrono can represent; missing counts and cost are 0.
pub open spec fn message_record(time_created_ms: i64, data: JsonView) -> Option<RecordView> {
    if get_str(data, "role"@) != Some("assistant"@) {
        None
    } else {
        match get(data, "tokens"@) {
            None => None,
            Some(tokens) => match millis_instant(time_created_ms) {
                None => None,
                Some(t) => {
                    let cache = get(tokens, "cache"@);
                    Some(
                        (
                            t,
                            TokenTotals {
                                input: count(tokens, "input"@),
                                output: count(tokens, "output"@),
                                reasoning: count(tokens, "reasoning"@),
                                cache_read: cache_count(cache, "read"@),
                                cache_write: cache_count(cache, "write"@),
                            },
                            number_or_zero(data, "cost"@),
                        ),
                    )
                },
            },
        }
    }
}

/// The record of a `message` row: `None` when the payload is not JSON or not an assistant
/// message with tokens.
pub open spec fn row_record(time_created_ms: i64, data: Seq<char>) -> Option<RecordView> {
    match json_text(data) {
        Ok(v) => message_record(time_created_ms, v),
        Err(_) => None,
    }
}

fn cache_count_at(cache: Option<&JsonValue>, key: &str) -> (r: u64)
    ensures
        r == cache_count(
            match cache {
                Some(c) => Some(c@),
                None => None,
            },
            key@,
        ),
{
    match cache {
        Some(c) => count_at(c, key),
        None => 0,
    }
}

/// Reads the record of one `message` row.
pub fn parse_message_data(time_created_ms: i64, data: &str) -> (r: Option<UsageRecord>)
    ensures
        record_option(r) == row_record(time_created_ms, data@),
{
    let value = match parse(data) {
        Ok(v) => v,
        Err(_) => return None,
    };
    if !str_at_is(&value, "role", "assistant") {
        return None;
    }
    let tokens = match value.get("tokens") {
        Some(t) => t,
        None => return None,
    };
    let cache = tokens.get("cache");
    let timestamp = match from_millis(time_created_ms) {
        Some(t) => t,
        None => return None,
    };
    Some(
        UsageRecord {
            timestamp,
            tokens: TokenTotals {
                input: count_at(tokens, "input"),
                output: count_at(tokens, "output"),
                reasoning: count_at(tokens, "reasoning"),
                cache_read: cache_count_at(cache, "read"),
                cache_write: cache_count_at(cache, "write"),
            },
            cost: number_at(&value, "cost"),
        },
    )
}

/// The values of the rows read from the `message` table: creation time and payload text.
pub open spec fn rows_view(rows: Seq<(i64, String)>) -> Seq<(i64, Seq<char>)> {
    rows.map_values(|r: (i64, String)| (r.0, r.1@))
}

/// The records of the rows, in order: the rows that are not assistant messages with tokens
/// are skipped.
pub open spec fn rows_records(rows: Seq<(i64, Seq<char>)>) -> Seq<RecordView>
    decreases rows.len(),
{
    if rows.len() == 0 {
        Seq::empty()
    } else {
        let head = rows_records(rows.drop_last());
        match row_record(rows.last().0, rows.last().1) {
            Some(r) => head.push(r),
            None => head,
        }
    }
}

/// The records of the rows read from the `message` table, in order.
pub fn collect_rows(rows: &Vec<(i64, String)>) -> (r: Vec<UsageRecord>)
    ensures
        records_view(r@) == rows_records(rows_view(rows@)),
{
    let ghost rv = rows_view(rows@);
    let mut records: Vec<UsageRecord> = Vec::new();
    proof {
        assert(rv.take(0) =~= Seq::<(i64, Seq<char>)>::empty());
        assert(records_view(records@) =~= Seq::<RecordView>::empty());
    }
    let mut i: usize = 0;
    while i < rows.len()
        invariant
            i <= rows@.len(),
            rv == rows_view(rows@),
            records_view(records@) == rows_records(rv.take(i as int)),
        decreases rows@.len() - i,
    {
        proof {
            assert(rv.take(i + 1).drop_last() =~= rv.take(i as int));
            assert(rv.take(i + 1).last() == (rows@[i as int].0, rows@[i as int].1@));
        }
        let ghost before = records@;
        match parse_message_data(rows[i].0, rows[i].1.as_str()) {
            Some(record) => {
                records.push(record);
                proof {
                    assert(records_view(records@) =~= records_view(before).push(records@.last()@));
                }
            },
            None => {},
        }
        i += 1;
    }
    assert(rv.take(rows@.len() as int) =~= rv);
    records
}

} // verus!

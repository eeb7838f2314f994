//! Command Code transcripts (`~/.commandcode/projects/<slug>/<session>.jsonl`): assistant
//! message lines carry `usage.costUsd` and the token counts.

use vstd::prelude::*;
use crate::json::{JsonValue, JsonNumber, JsonView, NumberView, json_text, parse, get, get_str,
    count, as_number};
use crate::text::{ends_with, contains, str_ends_with, str_contains, str_eq};
use crate::time::{Timestamp, rfc3339_instant, parse_rfc3339};
use super::{UsageRecord, RecordView, TokenTotals, records_view};
use super::grok::lines_view;

verus! {

/// Whether a file is a transcript: its name ends with `.jsonl` and is not a checkpoint.
pub fn is_transcript(file_name: &str) -> (r: bool)
    ensures
        r == (ends_with(file_name@, ".jsonl"@) && !contains(file_name@, ".checkpoints."@)),
{
    str_ends_with(file_name, ".jsonl") && !str_contains(file_name, ".checkpoints.")
}

/// How many directory levels below the projects directory transcripts are looked for.
pub const MAX_DEPTH: usize = 3;

/// What the walk of the projects directory does with one entry.
#[derive(Debug, Clone, Copy, PartialEq, Eq, Structural)]
pub enum WalkStep {
    /// Walk into this directory.
    Descend,
    /// Read this file as a transcript.
    Read,
    /// Leave this entry alone.
    Skip,
}

/// The step for an entry of a directory `depth` levels below the projects directory: a
/// directory is walked into while it stays within `MAX_DEPTH` levels; a file is read when it
/// is a transcript.
pub open spec fn step_for(depth: int, is_dir: bool, file_name: Seq<char>) -> WalkStep {
    if is_dir {
        if depth < MAX_DEPTH {
            WalkStep::Descend
        } else {
            WalkStep::Skip
        }
    } else if ends_with(file_name, ".jsonl"@) && !contains(file_name, ".checkpoints."@) {
        WalkStep::Read
    } else {
        WalkStep::Skip
    }
}

/// What the walk does with the entry `file_name` of a directory `depth` levels below the
/// projects directory.
pub fn walk_step(depth: usize, is_dir: bool, file_name: &str) -> (r: WalkStep)
    ensures
        r == step_for(depth as int, is_dir, file_name@),
{
    if is_dir {
        if depth < MAX_DEPTH {
            WalkStep::Descend
        } else {
            WalkStep::Skip
        }
    } else if is_transcript(file_name) {
        WalkStep::Read
    } else {
        WalkStep::Skip
    }
}

/// The number stored under `key`, or 0.
pub open spec fn number_or_zero(value: JsonView, key: Seq<char>) -> NumberView {
    match get(value, key) {
        Some(v) => match as_number(v) {
            Some(n) => n,
            None => NumberView::PosInt(0),
        },
        None => NumberView::PosInt(0),
    }
}

/// The value of an optional record.
pub open spec fn record_option(r: Option<UsageRecord>) -> Option<RecordView> {
    match r {
        Some(x) => Some(x@),
        None => None,
    }
}

/// The record of a transcript line: an assistant `message` with a `usage` object and an
/// RFC 3339 `timestamp`; missing counts are 0 and reasoning is not reported.
pub open spec fn record_of(line: JsonView) -> Option<RecordView> {
    if get_str(line, "type"@) != Some("message"@) {
        None
    } else {
        match get(line, "message"@) {
            None => None,
            Some(message) => if get_str(message, "role"@) != Some("assistant"@) {
                None
            } else {
                match get(line, "usage"@) {
                    None => None,
                    Some(usage) => match get_str(line, "timestamp"@) {
                        None => None,
                        Some(ts) => match rfc3339_instant(ts) {
                            None => None,
                            Some(t) => Some(
                                (
                                    t,
                                    TokenTotals {
                                        input: count(usage, "inputTokens"@),
                                        output: count(usage, "outputTokens"@),
                                        cache_read: count(usage, "cacheReadTokens"@),
                                        cache_write: count(usage, "cacheWriteTokens"@),
                                        reasoning: 0,
                                    },
                                    number_or_zero(usage, "costUsd"@),
                                ),
                            ),
                        },
                    },
                }
            },
        }
    }
}

/// The number stored under `key`, or 0.
pub fn number_at(value: &JsonValue, key: &str) -> (r: JsonNumber)
    ensures
        r@ == number_or_zero(value@, key@),
{
    match value.get(key) {
        Some(v) => match v.as_number() {
            Some(n) => n.duplicate(),
            None => JsonNumber::PosInt(0),
        },
        None => JsonNumber::PosInt(0),
    }
}

/// `value.get(key).and_then(Value::as_u64).unwrap_or(0)`.
pub fn count_at(value: &JsonValue, key: &str) -> (r: u64)
    ensures
        r == count(value@, key@),
{
    match value.get(key) {
        Some(v) => match v.as_u64() {
            Some(n) => n,
            None => 0,
        },
        None => 0,
    }
}

/// Whether `value[key]` is the string `expected`.
pub fn str_at_is(value: &JsonValue, key: &str, expected: &str) -> (r: bool)
    ensures
        r == (get_str(value@, key@) == Some(expected@)),
{
    match value.get(key) {
        Some(v) => match v.as_str() {
            Some(s) => str_eq(s.as_str(), expected),
            None => false,
        },
        None => false,
    }
}

/// The record of one transcript line, when it is an assistant message with usage.
pub fn record_from(line: &JsonValue) -> (r: Option<UsageRecord>)
    ensures
        record_option(r) == record_of(line@),
{
    if !str_at_is(line, "type", "message") {
        return None;
    }
    let message = match line.get("message") {
        Some(m) => m,
        None => return None,
    };
    if !str_at_is(message, "role", "assistant") {
        return None;
    }
    let usage = match line.get("usage") {
        Some(u) => u,
        None => return None,
    };
    let ts = match line.get("timestamp") {
        Some(t) => match t.as_str() {
            Some(s) => s,
            None => return None,
        },
        None => return None,
    };
    let timestamp = match parse_rfc3339(ts.as_str()) {
        Some(t) => t,
        None => return None,
    };
    Some(
        UsageRecord {
            timestamp,
            tokens: TokenTotals {
                input: count_at(usage, "inputTokens"),
                output: count_at(usage, "outputTokens"),
                cache_read: count_at(usage, "cacheReadTokens"),
                cache_write: count_at(usage, "cacheWriteTokens"),
                reasoning: 0,
            },
            cost: number_at(usage, "costUsd"),
        },
    )
}

/// The record of a transcript line: `None` for lines that are not JSON or not an assistant
/// message with usage.
pub open spec fn line_record(line: Seq<char>) -> Option<RecordView> {
    match json_text(line) {
        Ok(v) => record_of(v),
        Err(_) => None,
    }
}

/// Parses one transcript line.
pub fn parse_line(line: &str) -> (r: Option<UsageRecord>)
    ensures
        record_option(r) == line_record(line@),
{
    match parse(line) {
        Ok(v) => record_from(&v),
        Err(_) => None,
    }
}

/// The records of the lines of one transcript, in order.
pub open spec fn transcript_records(lines: Seq<Seq<char>>) -> Seq<RecordView>
    decreases lines.len(),
{
    if lines.len() == 0 {
        Seq::empty()
    } else {
        let head = transcript_records(lines.drop_last());
        match line_record(lines.last()) {
            Some(r) => head.push(r),
            None => head,
        }
    }
}

/// Appends the records of the lines of one transcript to `records`, in order.
pub fn read_transcript(lines: &Vec<String>, records: &mut Vec<UsageRecord>)
    ensures
        records_view(final(records)@) == records_view(old(records)@) + transcript_records(
            lines_view(lines@),
        ),
{
    let ghost lv = lines_view(lines@);
    let ghost start = records_view(records@);
    proof {
        assert(lv.take(0) =~= Seq::<Seq<char>>::empty());
        assert(start + transcript_records(lv.take(0)) =~= start);
    }
    let mut i: usize = 0;
    while i < lines.len()
        invariant
            i <= lines@.len(),
            lv == lines_view(lines@),
            records_view(records@) == start + transcript_records(lv.take(i as int)),
        decreases lines@.len() - i,
    {
        proof {
            assert(lv.take(i + 1).drop_last() =~= lv.take(i as int));
            assert(lv.take(i + 1).last() == lines@[i as int]@);
        }
        let ghost before = records@;
        match parse_line(lines[i].as_str()) {
            Some(record) => {
                records.push(record);
                proof {
                    assert(records_view(records@) =~= records_view(before).push(records@.last()@));
                    assert(start + transcript_records(lv.take(i + 1)) =~= (start
                        + transcript_records(lv.take(i as int))).push(records@.last()@));
                }
            },
            None => {},
        }
        i += 1;
    }
    assert(lv.take(lines@.len() as int) =~= lv);
}

} // verus!

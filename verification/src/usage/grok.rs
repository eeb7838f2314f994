//! The Grok client's log (`~/.grok/logs/unified.jsonl`): billing events carry the weekly
//! percentage and its period, `shell.turn.inference_done` events carry tokens.

use vstd::prelude::*;
use crate::json::{JsonValue, JsonNumber, JsonView, NumberView, json_text, parse, get, get_str,
    count, as_number, as_object, members_view};
use crate::text::str_eq;
use crate::time::{Timestamp, rfc3339_instant, parse_rfc3339, at_or_after, after};
use super::{UsageRecord, RecordView, TokenTotals, records_view};
use super::commandcode::{record_option, count_at};

verus! {

/// The plan limits a billing event reports.
#[derive(Debug)]
pub struct GrokLimits {
    /// The share of the period's credits used, in percent, as the JSON number logged; some
    /// accounts log none.
    pub credit_usage_percent: Option<JsonNumber>,
    pub period_start: Timestamp,
    pub period_end: Timestamp,
    pub tier: Option<String>,
    /// When the event was logged.
    pub fetched_at: Timestamp,
}

/// The value of plan limits: percent, period start, period end, tier, fetched at.
pub type LimitsView = (Option<NumberView>, Timestamp, Timestamp, Option<Seq<char>>, Timestamp);

impl View for GrokLimits {
    type V = LimitsView;

    open spec fn view(&self) -> LimitsView {
        (
            match self.credit_usage_percent {
                Some(n) => Some(n@),
                None => None,
            },
            self.period_start,
            self.period_end,
            match self.tier {
                Some(t) => Some(t@),
                None => None,
            },
            self.fetched_at,
        )
    }
}

/// The value of optional limits.
pub open spec fn limits_option(l: Option<GrokLimits>) -> Option<LimitsView> {
    match l {
        Some(x) => Some(x@),
        None => None,
    }
}

/// A log line that matters.
#[derive(Debug)]
pub enum GrokEvent {
    Billing(GrokLimits),
    Inference(UsageRecord),
}

/// The value of a log event.
pub enum EventView {
    Billing(LimitsView),
    Inference(RecordView),
}

/// The value of an optional event.
pub open spec fn event_option(e: Option<GrokEvent>) -> Option<EventView> {
    match e {
        Some(GrokEvent::Billing(l)) => Some(EventView::Billing(l@)),
        Some(GrokEvent::Inference(r)) => Some(EventView::Inference(r@)),
        None => None,
    }
}

/// The records and the latest billing limits read from the log.
#[derive(Debug)]
pub struct GrokData {
    pub records: Vec<UsageRecord>,
    pub limits: Option<GrokLimits>,
}


/// The instant written in RFC 3339 under `key`, if any.
pub open spec fn instant_at(value: JsonView, key: Seq<char>) -> Option<Timestamp> {
    match get_str(value, key) {
        Some(t) => rfc3339_instant(t),
        None => None,
    }
}

/// The limits of a billing event logged at `ts`: `ctx.config.currentPeriod` must hold both
/// period ends; the percentage and the tier may be missing.
pub open spec fn billing_of(context: JsonView, ts: Timestamp) -> Option<LimitsView> {
    match get(context, "config"@) {
        None => None,
        Some(config) => match get(config, "currentPeriod"@) {
            None => None,
            Some(period) => match (instant_at(period, "start"@), instant_at(period, "end"@)) {
                (Some(start), Some(end)) => Some(
                    (
                        match get(config, "creditUsagePercent"@) {
                            Some(p) => as_number(p),
                            None => None,
                        },
                        start,
                        end,
                        get_str(context, "subscriptionTier"@),
                        ts,
                    ),
                ),
                _ => None,
            },
        },
    }
}

/// The record of an inference event logged at `ts`: the prompt tokens not read from the cache
/// are the input, the cached ones are cache reads; turns with neither prompt nor completion
/// tokens are dropped. Grok logs no cost.
pub open spec fn inference_of(context: JsonView, ts: Timestamp) -> Option<RecordView> {
    let prompt = count(context, "prompt_tokens"@);
    let cached = count(context, "cached_prompt_tokens"@);
    let completion = count(context, "completion_tokens"@);
    if prompt == 0 && completion == 0 {
        None
    } else {
        Some(
            (
                ts,
                TokenTotals {
                    input: if prompt >= cached {
                        (prompt - cached) as u64
                    } else {
                        0
                    },
                    output: completion,
                    cache_read: cached,
                    cache_write: 0,
                    reasoning: 0,
                },
                NumberView::PosInt(0),
            ),
        )
    }
}

/// The event of a log line: its `msg` says which, its `ts` when, its `ctx` the details.
pub open spec fn event_of(line: JsonView) -> Option<EventView> {
    match get_str(line, "msg"@) {
        None => None,
        Some(message) => match instant_at(line, "ts"@) {
            None => None,
            Some(ts) => if message == "billing: fetched credits config"@ {
                match get(line, "ctx"@) {
                    Some(context) => match billing_of(context, ts) {
                        Some(l) => Some(EventView::Billing(l)),
                        None => None,
                    },
                    None => None,
                }
            } else if message == "shell.turn.inference_done"@ {
                match get(line, "ctx"@) {
                    Some(context) => match inference_of(context, ts) {
                        Some(r) => Some(EventView::Inference(r)),
                        None => None,
                    },
                    None => None,
                }
            } else {
                None
            },
        },
    }
}

/// The event of a log line of text: `None` for text that is not JSON.
pub open spec fn line_event(line: Seq<char>) -> Option<EventView> {
    match json_text(line) {
        Ok(v) => event_of(v),
        Err(_) => None,
    }
}

fn instant_from(value: &JsonValue, key: &str) -> (r: Option<Timestamp>)
    ensures
        r == instant_at(value@, key@),
{
    match value.get(key) {
        Some(v) => match v.as_str() {
            Some(s) => parse_rfc3339(s.as_str()),
            None => None,
        },
        None => None,
    }
}

/// The limits of a billing event.
fn billing_event(context: &JsonValue, ts: Timestamp) -> (r: Option<GrokLimits>)
    ensures
        limits_option(r) == billing_of(context@, ts),
{
    let config = match context.get("config") {
        Some(c) => c,
        None => return None,
    };
    let period = match config.get("currentPeriod") {
        Some(p) => p,
        None => return None,
    };
    let percent = match config.get("creditUsagePercent") {
        Some(p) => match p.as_number() {
            Some(n) => Some(n.duplicate()),
            None => None,
        },
        None => None,
    };
    let start = match instant_from(period, "start") {
        Some(t) => t,
        None => return None,
    };
    let end = match instant_from(period, "end") {
        Some(t) => t,
        None => return None,
    };
    let tier = match context.get("subscriptionTier") {
        Some(t) => match t.as_str() {
            Some(s) => Some(s.clone()),
            None => None,
        },
        None => None,
    };
    Some(
        GrokLimits {
            credit_usage_percent: percent,
            period_start: start,
            period_end: end,
            tier,
            fetched_at: ts,
        },
    )
}

/// The record of an inference event.
fn inference_event(context: &JsonValue, ts: Timestamp) -> (r: Option<UsageRecord>)
    ensures
        record_option(r) == inference_of(context@, ts),
{
    let prompt = count_at(context, "prompt_tokens");
    let cached = count_at(context, "cached_prompt_tokens");
    let completion = count_at(context, "completion_tokens");
    if prompt == 0 && completion == 0 {
        return None;
    }
    Some(
        UsageRecord {
            timestamp: ts,
            tokens: TokenTotals {
                input: prompt.saturating_sub(cached),
                output: completion,
                cache_read: cached,
                cache_write: 0,
                reasoning: 0,
            },
            cost: JsonNumber::PosInt(0),
        },
    )
}

/// Parses one log line.
pub fn parse_line(line: &str) -> (r: Option<GrokEvent>)
    ensures
        event_option(r) == line_event(line@),
{
    let value = match parse(line) {
        Ok(v) => v,
        Err(_) => return None,
    };
    let message = match value.get("msg") {
        Some(m) => match m.as_str() {
            Some(s) => s,
            None => return None,
        },
        None => return None,
    };
    let ts = match instant_from(&value, "ts") {
        Some(t) => t,
        None => return None,
    };
    if str_eq(message.as_str(), "billing: fetched credits config") {
        match value.get("ctx") {
            Some(context) => match billing_event(context, ts) {
                Some(l) => Some(GrokEvent::Billing(l)),
                None => None,
            },
            None => None,
        }
    } else if str_eq(message.as_str(), "shell.turn.inference_done") {
        match value.get("ctx") {
            Some(context) => match inference_event(context, ts) {
                Some(r) => Some(GrokEvent::Inference(r)),
                None => None,
            },
            None => None,
        }
    } else {
        None
    }
}

/// One log event folded into the records and the latest limits: a billing event replaces the
/// limits unless they were logged later; an inference at or after `since` is appended.
pub open spec fn apply(
    event: Option<EventView>,
    since: Timestamp,
    records: Seq<RecordView>,
    limits: Option<LimitsView>,
) -> (Seq<RecordView>, Option<LimitsView>) {
    match event {
        Some(EventView::Billing(candidate)) => match limits {
            Some(current) => if at_or_after(candidate.4, current.4) {
                (records, Some(candidate))
            } else {
                (records, limits)
            },
            None => (records, Some(candidate)),
        },
        Some(EventView::Inference(record)) => if at_or_after(record.0, since) {
            (records.push(record), limits)
        } else {
            (records, limits)
        },
        None => (records, limits),
    }
}

/// Folds one log line into the running records and the latest billing limits.
pub fn apply_event(
    event: Option<GrokEvent>,
    since: Timestamp,
    records: &mut Vec<UsageRecord>,
    limits: &mut Option<GrokLimits>,
)
    ensures
        (records_view(final(records)@), limits_option(*final(limits))) == apply(
            event_option(event),
            since,
            records_view(old(records)@),
            limits_option(*old(limits)),
        ),
{
    let ghost before = records_view(records@);
    match event {
        Some(GrokEvent::Billing(candidate)) => {
            let is_newer = match &*limits {
                Some(current) => candidate.fetched_at.is_at_or_after(&current.fetched_at),
                None => true,
            };
            if is_newer {
                *limits = Some(candidate);
            }
        },
        Some(GrokEvent::Inference(record)) => {
            if record.timestamp.is_at_or_after(&since) {
                let ghost rv = record@;
                records.push(record);
                assert(records_view(records@) =~= before.push(rv));
            }
        },
        None => {},
    }
}

/// The records and limits a run of log lines folds into, from nothing.
pub open spec fn fold_lines(lines: Seq<Seq<char>>, since: Timestamp) -> (Seq<RecordView>, Option<LimitsView>)
    decreases lines.len(),
{
    if lines.len() == 0 {
        (Seq::empty(), None)
    } else {
        let prev = fold_lines(lines.drop_last(), since);
        apply(line_event(lines.last()), since, prev.0, prev.1)
    }
}

/// The values of a list of lines.
pub open spec fn lines_view(lines: Seq<String>) -> Seq<Seq<char>> {
    lines.map_values(|l: String| l@)
}

/// Reads the lines of the log, in order, into the records from `since` on and the latest
/// billing limits.
pub fn collect_lines(lines: &Vec<String>, since: Timestamp) -> (r: GrokData)
    ensures
        (records_view(r.records@), limits_option(r.limits)) == fold_lines(lines_view(lines@), since),
{
    let ghost lv = lines_view(lines@);
    let mut records: Vec<UsageRecord> = Vec::new();
    let mut limits: Option<GrokLimits> = None;
    assert(records_view(records@) =~= Seq::empty());
    let mut i: usize = 0;
    while i < lines.len()
        invariant
            i <= lines@.len(),
            lv == lines_view(lines@),
            (records_view(records@), limits_option(limits)) == fold_lines(lv.take(i as int), since),
        decreases lines@.len() - i,
    {
        proof {
            assert(lv.take(i + 1).drop_last() =~= lv.take(i as int));
            assert(lv.take(i + 1).last() == lines@[i as int]@);
        }
        apply_event(parse_line(lines[i].as_str()), since, &mut records, &mut limits);
        i += 1;
    }
    assert(lv.take(lines@.len() as int) =~= lv);
    GrokData { records, limits }
}

/// `a > b` on optional instants, where a missing instant comes before every instant.
pub open spec fn later_or_known(a: Option<Timestamp>, b: Option<Timestamp>) -> bool {
    match (a, b) {
        (Some(x), Some(y)) => after(x, y),
        (Some(_), None) => true,
        (None, _) => false,
    }
}

/// The newest credential with an e-mail among `credentials`, as (creation time, e-mail): a
/// credential replaces the one kept when none is kept yet or it was created later.
pub open spec fn newest(credentials: Seq<(Seq<char>, JsonView)>) -> Option<(Option<Timestamp>, Seq<char>)>
    decreases credentials.len(),
{
    if credentials.len() == 0 {
        None
    } else {
        let prev = newest(credentials.drop_last());
        let credential = credentials.last().1;
        match get_str(credential, "email"@) {
            Some(email) => if email.len() > 0 {
                let created = instant_at(credential, "create_time"@);
                match prev {
                    Some(p) => if later_or_known(created, p.0) {
                        Some((created, email))
                    } else {
                        prev
                    },
                    None => Some((created, email)),
                }
            } else {
                prev
            },
            None => prev,
        }
    }
}

/// The e-mail of the newest credential in `auth.json` (its text): logins pile up in that file,
/// so the latest `create_time` wins.
pub open spec fn account_in(text: Seq<char>) -> Option<Seq<char>> {
    match json_text(text) {
        Ok(v) => match as_object(v) {
            Some(credentials) => match newest(credentials) {
                Some(p) => Some(p.1),
                None => None,
            },
            None => None,
        },
        Err(_) => None,
    }
}

/// Whether a credential carries a non-empty e-mail.
pub open spec fn has_email(credential: JsonView) -> bool {
    get_str(credential, "email"@) matches Some(e) && e.len() > 0
}

/// Whether the optional instant `a` comes at or before `b`, a missing instant coming before
/// every instant (the order of `Option<DateTime>`).
pub open spec fn no_later(a: Option<Timestamp>, b: Option<Timestamp>) -> bool {
    match (a, b) {
        (None, _) => true,
        (Some(_), None) => false,
        (Some(x), Some(y)) => at_or_after(y, x),
    }
}

proof fn lemma_newest(credentials: Seq<(Seq<char>, JsonView)>)
    ensures
        newest(credentials) is None ==> forall|j: int|
            0 <= j < credentials.len() ==> !has_email(#[trigger] credentials[j].1),
        newest(credentials) matches Some(p) ==> exists|i: int|
            0 <= i < credentials.len() && has_email(#[trigger] credentials[i].1) && get_str(
                credentials[i].1,
                "email"@,
            ) == Some(p.1) && p.0 == instant_at(credentials[i].1, "create_time"@),
        newest(credentials) matches Some(p) ==> forall|j: int|
            0 <= j < credentials.len() && has_email(#[trigger] credentials[j].1) ==> no_later(
                instant_at(credentials[j].1, "create_time"@),
                p.0,
            ),
    decreases credentials.len(),
{
    if credentials.len() > 0 {
        let rest = credentials.drop_last();
        lemma_newest(rest);
        let c = credentials.last().1;
        let created = instant_at(c, "create_time"@);
        assert forall|j: int| 0 <= j < rest.len() implies credentials[j] == rest[j] by {}
        assert(credentials[credentials.len() - 1].1 == c);
        match newest(rest) {
            Some(p) => {
                if has_email(c) && later_or_known(created, p.0) {
                    assert forall|j: int|
                        0 <= j < credentials.len() && has_email(#[trigger] credentials[j].1)
                        implies no_later(instant_at(credentials[j].1, "create_time"@), created) by {
                        if j < rest.len() {
                            assert(credentials[j] == rest[j]);
                        }
                    }
                } else {
                    let i = choose|i: int|
                        0 <= i < rest.len() && has_email(#[trigger] rest[i].1) && get_str(
                            rest[i].1,
                            "email"@,
                        ) == Some(p.1) && p.0 == instant_at(rest[i].1, "create_time"@);
                    assert(credentials[i] == rest[i]);
                    assert forall|j: int|
                        0 <= j < credentials.len() && has_email(#[trigger] credentials[j].1)
                        implies no_later(instant_at(credentials[j].1, "create_time"@), p.0) by {
                        if j < rest.len() {
                            assert(credentials[j] == rest[j]);
                        }
                    }
                }
            },
            None => {
                if has_email(c) {
                    assert forall|j: int|
                        0 <= j < credentials.len() && has_email(#[trigger] credentials[j].1)
                        implies no_later(instant_at(credentials[j].1, "create_time"@), created) by {
                        if j < rest.len() {
                            assert(credentials[j] == rest[j]);
                        }
                    }
                }
            },
        }
    }
}

/// Law: the account shown is the newest login of the auth file. When its text is an object, the
/// e-mail found is the non-empty e-mail of one of its credentials, whose `create_time` is at or
/// after that of every other credential with a non-empty e-mail (a known time being later than
/// a missing one); when no credential has a non-empty e-mail, there is no account.
pub proof fn lemma_account_is_newest(text: Seq<char>, credentials: Seq<(Seq<char>, JsonView)>)
    requires
        json_text(text) == Ok::<JsonView, Seq<char>>(JsonView::Object(credentials)),
    ensures
        account_in(text) is None ==> forall|j: int|
            0 <= j < credentials.len() ==> !has_email(#[trigger] credentials[j].1),
        account_in(text) matches Some(e) ==> exists|i: int|
            0 <= i < credentials.len() && has_email(#[trigger] credentials[i].1) && get_str(
                credentials[i].1,
                "email"@,
            ) == Some(e) && forall|j: int|
                0 <= j < credentials.len() && has_email(#[trigger] credentials[j].1) ==> no_later(
                    instant_at(credentials[j].1, "create_time"@),
                    instant_at(credentials[i].1, "create_time"@),
                ),
{
    lemma_newest(credentials);
}

fn later_or_known_exec(a: Option<Timestamp>, b: Option<Timestamp>) -> (r: bool)
    ensures
        r == later_or_known(a, b),
{
    match (a, b) {
        (Some(x), Some(y)) => x.is_after(&y),
        (Some(_), None) => true,
        (None, _) => false,
    }
}

/// The e-mail of the newest credential in the text of `auth.json`, shown on the panel avatar.
pub fn read_account(text: &str) -> (r: Option<String>)
    ensures
        r matches Some(e) ==> account_in(text@) == Some(e@),
        r is None ==> account_in(text@) is None,
{
    let value = match parse(text) {
        Ok(v) => v,
        Err(_) => return None,
    };
    let credentials = match value.as_object() {
        Some(c) => c,
        None => return None,
    };
    let ghost cv = members_view(credentials@);
    let mut best: Option<(Option<Timestamp>, String)> = None;
    let mut i: usize = 0;
    while i < credentials.len()
        invariant
            i <= credentials@.len(),
            cv == members_view(credentials@),
            best matches Some(b) ==> newest(cv.take(i as int)) == Some((b.0, b.1@)),
            best is None ==> newest(cv.take(i as int)) is None,
        decreases credentials@.len() - i,
    {
        proof {
            assert(cv.take(i + 1).drop_last() =~= cv.take(i as int));
            assert(cv.take(i + 1).last() == cv[i as int]);
        }
        let credential = &credentials[i].1;
        let email = match credential.get("email") {
            Some(e) => e.as_str(),
            None => None,
        };
        if let Some(email) = email {
            if !email.as_str().is_empty() {
                let created = instant_from(credential, "create_time");
                let replace = match &best {
                    Some(b) => later_or_known_exec(created, b.0),
                    None => true,
                };
                if replace {
                    best = Some((created, email.clone()));
                }
            }
        }
        i += 1;
    }
    assert(cv.take(credentials@.len() as int) =~= cv);
    match best {
        Some(b) => Some(b.1),
        None => None,
    }
}

/// The billing limits of a log line, if it is a billing event.
pub open spec fn billing_in(line: Seq<char>) -> Option<LimitsView> {
    match line_event(line) {
        Some(EventView::Billing(c)) => Some(c),
        _ => None,
    }
}

/// Law: the limits kept are the latest billing event of the log. They were logged at or after
/// every billing event of the log, and they are the limits of one of its lines; with no billing
/// event in the log, there are none.
pub proof fn lemma_limits_are_the_latest(lines: Seq<Seq<char>>, since: Timestamp)
    ensures
        forall|i: int|
            0 <= i < lines.len() && (#[trigger] billing_in(lines[i])) is Some ==> (
            fold_lines(lines, since).1 is Some && at_or_after(
                fold_lines(lines, since).1->Some_0.4,
                billing_in(lines[i])->Some_0.4,
            )),
        fold_lines(lines, since).1 is Some ==> exists|i: int|
            0 <= i < lines.len() && #[trigger] billing_in(lines[i]) == fold_lines(lines, since).1,
    decreases lines.len(),
{
    if lines.len() > 0 {
        let rest = lines.drop_last();
        lemma_limits_are_the_latest(rest, since);
        assert forall|i: int|
            0 <= i < lines.len() && (#[trigger] billing_in(lines[i])) is Some implies (
            fold_lines(lines, since).1 is Some && at_or_after(
                fold_lines(lines, since).1->Some_0.4,
                billing_in(lines[i])->Some_0.4,
            )) by {
            if i < lines.len() - 1 {
                assert(lines[i] == rest[i]);
            }
        }
        if fold_lines(lines, since).1 is Some {
            if billing_in(lines.last()) == fold_lines(lines, since).1 {
                assert(billing_in(lines[lines.len() - 1]) == fold_lines(lines, since).1);
            } else {
                let i = choose|i: int|
                    0 <= i < rest.len() && #[trigger] billing_in(rest[i]) == fold_lines(rest, since).1;
                assert(lines[i] == rest[i]);
            }
        }
    }
}

/// Law: every record kept comes from an inference event of the log made at or after `since`,
/// and they keep the order of the log.
pub proof fn lemma_records_are_recent(lines: Seq<Seq<char>>, since: Timestamp)
    ensures
        forall|k: int|
            0 <= k < fold_lines(lines, since).0.len() ==> at_or_after(
                #[trigger] fold_lines(lines, since).0[k].0,
                since,
            ),
        fold_lines(lines, since).0.len() <= lines.len(),
    decreases lines.len(),
{
    if lines.len() > 0 {
        lemma_records_are_recent(lines.drop_last(), since);
    }
}

} // verus!

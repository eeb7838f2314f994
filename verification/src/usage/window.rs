//! Buckets usage records into the today, 7 days and 30 days windows. The day starts at local
//! midnight, which the caller works out; the week and the month start 6 and 29 days earlier.

use vstd::prelude::*;
use crate::json::NumberView;
use crate::time::{Timestamp, at_or_after};
use super::{TokenTotals, UsageRecord, UsageWindow, RecordView, records_view, WindowView, can_add, plus,
    zero_tokens};

verus! {

broadcast use vstd::std_specs::vec::group_vec_axioms;

/// Seconds in a day.
pub const SECS_PER_DAY: i64 = 86400;

/// The three windows of one tool.
#[derive(Debug)]
pub struct Windows {
    pub today: UsageWindow,
    pub last_7d: UsageWindow,
    pub last_30d: UsageWindow,
}


/// The records of `rs` at or after `start`, in their order.
pub open spec fn since(rs: Seq<RecordView>, start: Timestamp) -> Seq<RecordView>
    decreases rs.len(),
{
    if rs.len() == 0 {
        Seq::empty()
    } else {
        let head = since(rs.drop_last(), start);
        if at_or_after(rs.last().0, start) {
            head.push(rs.last())
        } else {
            head
        }
    }
}

/// One kind of token count: 0 input, 1 output, 2 cache read, 3 cache write, 4 reasoning.
pub open spec fn field(t: TokenTotals, k: int) -> int {
    if k == 0 {
        t.input as int
    } else if k == 1 {
        t.output as int
    } else if k == 2 {
        t.cache_read as int
    } else if k == 3 {
        t.cache_write as int
    } else {
        t.reasoning as int
    }
}

/// The sum of one kind of token count over `rs`.
pub open spec fn field_sum(rs: Seq<RecordView>, k: int) -> int
    decreases rs.len(),
{
    if rs.len() == 0 {
        0
    } else {
        field_sum(rs.drop_last(), k) + field(rs.last().1, k)
    }
}

/// Whether every token sum over `rs` fits in a `u64`.
pub open spec fn sums_fit(rs: Seq<RecordView>) -> bool {
    forall|k: int| 0 <= k < 5 ==> #[trigger] field_sum(rs, k) <= u64::MAX
}

/// The token sums over `rs` (when they fit).
pub open spec fn token_sum(rs: Seq<RecordView>) -> TokenTotals {
    TokenTotals {
        input: field_sum(rs, 0) as u64,
        output: field_sum(rs, 1) as u64,
        cache_read: field_sum(rs, 2) as u64,
        cache_write: field_sum(rs, 3) as u64,
        reasoning: field_sum(rs, 4) as u64,
    }
}

/// The window of the records of `rs` at or after `start`: their costs, token sums and count.
pub open spec fn window_of(rs: Seq<RecordView>, start: Timestamp) -> WindowView {
    let inside = since(rs, start);
    (inside.map_values(|r: RecordView| r.2), token_sum(inside), inside.len())
}

/// `days` days before `t`.
pub open spec fn days_before(t: Timestamp, days: int) -> Timestamp {
    Timestamp { secs: (t.secs - days * SECS_PER_DAY) as i64, nanos: t.nanos }
}

/// Whether the week and month starts before `today_start` can be written.
pub open spec fn starts_fit(today_start: Timestamp) -> bool {
    today_start.secs - 29 * SECS_PER_DAY >= i64::MIN
}

proof fn lemma_field_nonneg(rs: Seq<RecordView>, k: int)
    ensures
        field_sum(rs, k) >= 0,
    decreases rs.len(),
{
    if rs.len() > 0 {
        lemma_field_nonneg(rs.drop_last(), k);
    }
}

proof fn lemma_sum_push(rs: Seq<RecordView>, r: RecordView)
    ensures
        forall|k: int| #[trigger] field_sum(rs.push(r), k) == field_sum(rs, k) + field(r.1, k),
{
    assert(rs.push(r).drop_last() =~= rs);
}

/// A sum over the records of a window is at most the sum over all records, and so is its count.
proof fn lemma_since_bounded(rs: Seq<RecordView>, start: Timestamp, k: int)
    ensures
        field_sum(since(rs, start), k) <= field_sum(rs, k),
        since(rs, start).len() <= rs.len(),
    decreases rs.len(),
{
    if rs.len() > 0 {
        lemma_since_bounded(rs.drop_last(), start, k);
        lemma_sum_push(since(rs.drop_last(), start), rs.last());
        assert(field(rs.last().1, k) >= 0);
    }
}

/// A window that starts later holds no more records, and no larger token sums, than one that
/// starts earlier.
proof fn lemma_later_smaller(rs: Seq<RecordView>, later: Timestamp, earlier: Timestamp, k: int)
    requires
        at_or_after(later, earlier),
    ensures
        field_sum(since(rs, later), k) <= field_sum(since(rs, earlier), k),
        since(rs, later).len() <= since(rs, earlier).len(),
    decreases rs.len(),
{
    if rs.len() > 0 {
        lemma_later_smaller(rs.drop_last(), later, earlier, k);
        lemma_sum_push(since(rs.drop_last(), later), rs.last());
        lemma_sum_push(since(rs.drop_last(), earlier), rs.last());
        assert(field(rs.last().1, k) >= 0);
    }
}

/// The sums of a window grow by the tokens of a record that joins it.
proof fn lemma_token_sum_push(inside: Seq<RecordView>, r: RecordView)
    requires
        sums_fit(inside.push(r)),
    ensures
        can_add(token_sum(inside), r.1),
        token_sum(inside.push(r)) == plus(token_sum(inside), r.1),
{
    lemma_sum_push(inside, r);
    assert forall|k: int| 0 <= k < 5 implies 0 <= #[trigger] field_sum(inside, k) <= u64::MAX by {
        lemma_field_nonneg(inside, k);
        assert(field_sum(inside.push(r), k) <= u64::MAX);
    }
    assert(field_sum(inside.push(r), 0) <= u64::MAX);
    assert(field_sum(inside.push(r), 1) <= u64::MAX);
    assert(field_sum(inside.push(r), 2) <= u64::MAX);
    assert(field_sum(inside.push(r), 3) <= u64::MAX);
    assert(field_sum(inside.push(r), 4) <= u64::MAX);
}

/// Law: the windows nest. A window that starts at or after another holds no more records and
/// no more tokens of any kind, so today's window is within the week's, and the week's within
/// the month's.
pub proof fn lemma_windows_nest(rs: Seq<RecordView>, later: Timestamp, earlier: Timestamp)
    requires
        at_or_after(later, earlier),
    ensures
        window_of(rs, later).2 <= window_of(rs, earlier).2,
        forall|k: int| #[trigger] field_sum(since(rs, later), k) <= field_sum(since(rs, earlier), k),
{
    assert forall|k: int| #[trigger] field_sum(since(rs, later), k) <= field_sum(
        since(rs, earlier),
        k,
    ) by {
        lemma_later_smaller(rs, later, earlier, k);
    }
    lemma_later_smaller(rs, later, earlier, 0);
}

/// How far back the Grok log and the OpenCode database are read: 31 days before the start of
/// today (the 30 days window, and one day to spare).
pub fn history_start(today_start: Timestamp) -> (r: Timestamp)
    requires
        today_start.secs - 31 * SECS_PER_DAY >= i64::MIN,
    ensures
        r == days_before(today_start, 31),
{
    Timestamp { secs: today_start.secs - 31 * SECS_PER_DAY, nanos: today_start.nanos }
}

/// A sum over the records of a window among a prefix of `rs` is at most the sum over the
/// records of that window among all of `rs`.
proof fn lemma_since_prefix(rs: Seq<RecordView>, i: int, start: Timestamp, k: int)
    requires
        0 <= i <= rs.len(),
    ensures
        field_sum(since(rs.take(i), start), k) <= field_sum(since(rs, start), k),
    decreases rs.len() - i,
{
    if i < rs.len() {
        lemma_since_prefix(rs, i + 1, start, k);
        let prev = rs.take(i);
        let next = rs.take(i + 1);
        assert(next.drop_last() =~= prev);
        lemma_sum_push(since(prev, start), next.last());
        assert(field(next.last().1, k) >= 0);
    } else {
        assert(rs.take(i) =~= rs);
    }
}

/// Counts `record` (the `i`-th of `rs`) in `w`, the window from `start` of the records before
/// it; `start` is at or after `month_start`, and the sums of the window from `month_start` fit.
fn count_record(
    w: &mut UsageWindow,
    record: &UsageRecord,
    start: &Timestamp,
    Ghost(rs): Ghost<Seq<RecordView>>,
    Ghost(i): Ghost<int>,
    Ghost(month_start): Ghost<Timestamp>,
)
    requires
        0 <= i < rs.len(),
        rs[i] == record@,
        sums_fit(since(rs, month_start)),
        at_or_after(*start, month_start),
        rs.len() <= usize::MAX,
        old(w)@ == window_of(rs.take(i), *start),
    ensures
        final(w)@ == window_of(rs.take(i + 1), *start),
{
    let ghost prev = rs.take(i);
    let ghost next = rs.take(i + 1);
    proof {
        assert(next.drop_last() =~= prev);
        assert(next.last() == record@);
        lemma_since_bounded(prev, *start, 0);
    }
    if record.timestamp.is_at_or_after(start) {
        proof {
            let inside = since(prev, *start);
            assert(since(next, *start) == inside.push(record@));
            assert forall|k: int| 0 <= k < 5 implies #[trigger] field_sum(inside.push(record@), k)
                <= u64::MAX by {
                lemma_later_smaller(next, *start, month_start, k);
                lemma_since_prefix(rs, i + 1, month_start, k);
                assert(field_sum(since(rs, month_start), k) <= u64::MAX);
            }
            lemma_token_sum_push(inside, record@);
        }
        w.add_record(record);
        proof {
            let inside = since(prev, *start);
            assert(inside.push(record@).map_values(|r: RecordView| r.2) =~= inside.map_values(
                |r: RecordView| r.2,
            ).push(record.cost@));
        }
    } else {
        assert(since(next, *start) == since(prev, *start));
    }
}

/// Sums `records` into the windows that start at `today_start`, 6 days before it and 29 days
/// before it (a record at the very start counts). The token sums of the 30 days window must
/// fit, as std's `+=` panics otherwise; `window_sums_fit` tells whether they do.
pub fn summarize(records: &Vec<UsageRecord>, today_start: Timestamp) -> (r: Windows)
    requires
        sums_fit(since(records_view(records@), days_before(today_start, 29))),
        starts_fit(today_start),
    ensures
        r.today@ == window_of(records_view(records@), today_start),
        r.last_7d@ == window_of(records_view(records@), days_before(today_start, 6)),
        r.last_30d@ == window_of(records_view(records@), days_before(today_start, 29)),
{
    let ghost rs = records_view(records@);
    let week_start = Timestamp { secs: today_start.secs - 6 * SECS_PER_DAY, nanos: today_start.nanos };
    let month_start = Timestamp {
        secs: today_start.secs - 29 * SECS_PER_DAY,
        nanos: today_start.nanos,
    };
    let mut today = UsageWindow::default();
    let mut last_7d = UsageWindow::default();
    let mut last_30d = UsageWindow::default();
    proof {
        assert(rs.take(0) =~= Seq::<RecordView>::empty());
        assert(window_of(rs.take(0), today_start).0 =~= Seq::<NumberView>::empty());
        assert(window_of(rs.take(0), week_start).0 =~= Seq::<NumberView>::empty());
        assert(window_of(rs.take(0), month_start).0 =~= Seq::<NumberView>::empty());
    }
    let mut i: usize = 0;
    while i < records.len()
        invariant
            i <= records.len(),
            rs == records_view(records@),
            rs.len() == records.len(),
            sums_fit(since(rs, month_start)),
            starts_fit(today_start),
            week_start == days_before(today_start, 6),
            month_start == days_before(today_start, 29),
            today@ == window_of(rs.take(i as int), today_start),
            last_7d@ == window_of(rs.take(i as int), week_start),
            last_30d@ == window_of(rs.take(i as int), month_start),
        decreases records.len() - i,
    {
        let record = &records[i];
        count_record(&mut last_30d, record, &month_start, Ghost(rs), Ghost(i as int), Ghost(month_start));
        count_record(&mut last_7d, record, &week_start, Ghost(rs), Ghost(i as int), Ghost(month_start));
        count_record(&mut today, record, &today_start, Ghost(rs), Ghost(i as int), Ghost(month_start));
        i = i + 1;
    }
    proof {
        assert(rs.take(records.len() as int) =~= rs);
    }
    Windows { today, last_7d, last_30d }
}

/// Whether the token sums of the 30 days window (the records at or after 29 days before
/// `today_start`) fit in a `u64`, as `summarize` needs.
pub fn window_sums_fit(records: &Vec<UsageRecord>, today_start: Timestamp) -> (r: bool)
    requires
        starts_fit(today_start),
    ensures
        r == sums_fit(since(records_view(records@), days_before(today_start, 29))),
{
    let ghost rs = records_view(records@);
    let month_start = Timestamp {
        secs: today_start.secs - 29 * SECS_PER_DAY,
        nanos: today_start.nanos,
    };
    let mut acc = TokenTotals::default();
    proof {
        assert(rs.take(0) =~= Seq::<RecordView>::empty());
    }
    let mut i: usize = 0;
    while i < records.len()
        invariant
            i <= records.len(),
            rs == records_view(records@),
            rs.len() == records.len(),
            month_start == days_before(today_start, 29),
            sums_fit(since(rs.take(i as int), month_start)),
            acc == token_sum(since(rs.take(i as int), month_start)),
        decreases records.len() - i,
    {
        let ghost prev = rs.take(i as int);
        let ghost next = rs.take(i + 1);
        let ghost inside = since(prev, month_start);
        proof {
            assert(next.drop_last() =~= prev);
            assert(next.last() == rs[i as int]);
        }
        if records[i].timestamp.is_at_or_after(&month_start) {
            proof {
                assert(since(next, month_start) == inside.push(rs[i as int]));
                lemma_sum_push(inside, rs[i as int]);
            }
            match acc.checked_plus(&records[i].tokens) {
                Some(sum) => {
                    proof {
                        assert forall|k: int| 0 <= k < 5 implies #[trigger] field_sum(
                            inside.push(rs[i as int]),
                            k,
                        ) <= u64::MAX by {
                            lemma_field_nonneg(inside, k);
                        }
                        lemma_token_sum_push(inside, rs[i as int]);
                    }
                    acc = sum;
                },
                None => {
                    proof {
                        let nextin = inside.push(rs[i as int]);
                        lemma_field_nonneg(inside, 0);
                        lemma_field_nonneg(inside, 1);
                        lemma_field_nonneg(inside, 2);
                        lemma_field_nonneg(inside, 3);
                        lemma_field_nonneg(inside, 4);
                        let k: int = if field_sum(nextin, 0) > u64::MAX {
                            0
                        } else if field_sum(nextin, 1) > u64::MAX {
                            1
                        } else if field_sum(nextin, 2) > u64::MAX {
                            2
                        } else if field_sum(nextin, 3) > u64::MAX {
                            3
                        } else {
                            4
                        };
                        assert(field_sum(nextin, k) > u64::MAX);
                        lemma_since_prefix(rs, i + 1, month_start, k);
                    }
                    return false;
                },
            }
        } else {
            assert(since(next, month_start) == inside);
        }
        i = i + 1;
    }
    proof {
        assert(rs.take(records.len() as int) =~= rs);
    }
    true
}

} // verus!

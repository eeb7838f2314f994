//! The usage of each tool: parsers of the local logs, database rows and plan-limit payloads,
//! the time windows, and the types they share.

pub mod cache;
pub mod commandcode_api;
pub mod commandcode_limits;
pub mod commandcode;
pub mod grok;
pub mod opencode;
pub mod opencode_go;
pub mod tray_title;
pub mod window;

use vstd::prelude::*;
use crate::json::{JsonNumber, NumberView};
use crate::time::{Timestamp, at_or_after};
use window::{Windows, sums_fit, starts_fit, window_of, days_before, summarize};

verus! {

broadcast use vstd::std_specs::vec::group_vec_axioms;

/// The tools whose usage is shown.
#[derive(Debug, Clone, Copy, PartialEq, Eq, Structural)]
pub enum Provider {
    CommandCode,
    Grok,
    OpenCode,
}

/// The name shown for a tool.
pub open spec fn provider_name(p: Provider) -> Seq<char> {
    match p {
        Provider::CommandCode => "Command Code"@,
        Provider::Grok => "Grok"@,
        Provider::OpenCode => "OpenCode"@,
    }
}

impl Provider {
    /// The name shown for this tool.
    pub fn display_name(self) -> (r: &'static str)
        ensures
            r@ == provider_name(self),
    {
        match self {
            Provider::CommandCode => "Command Code",
            Provider::Grok => "Grok",
            Provider::OpenCode => "OpenCode",
        }
    }
}

/// Token counts of one message or of a window of them.
#[derive(Debug, Clone, Copy, PartialEq, Eq, Structural)]
pub struct TokenTotals {
    pub input: u64,
    pub output: u64,
    pub cache_read: u64,
    pub cache_write: u64,
    pub reasoning: u64,
}

impl Default for TokenTotals {
    /// No tokens.
    fn default() -> (r: TokenTotals)
        ensures
            r == zero_tokens(),
    {
        TokenTotals { input: 0, output: 0, cache_read: 0, cache_write: 0, reasoning: 0 }
    }
}

/// No tokens.
pub open spec fn zero_tokens() -> TokenTotals {
    TokenTotals { input: 0, output: 0, cache_read: 0, cache_write: 0, reasoning: 0 }
}

/// Whether `a + b` fits, field by field.
pub open spec fn can_add(a: TokenTotals, b: TokenTotals) -> bool {
    &&& a.input + b.input <= u64::MAX
    &&& a.output + b.output <= u64::MAX
    &&& a.cache_read + b.cache_read <= u64::MAX
    &&& a.cache_write + b.cache_write <= u64::MAX
    &&& a.reasoning + b.reasoning <= u64::MAX
}

/// `a + b`, field by field (when it fits).
pub open spec fn plus(a: TokenTotals, b: TokenTotals) -> TokenTotals {
    TokenTotals {
        input: (a.input + b.input) as u64,
        output: (a.output + b.output) as u64,
        cache_read: (a.cache_read + b.cache_read) as u64,
        cache_write: (a.cache_write + b.cache_write) as u64,
        reasoning: (a.reasoning + b.reasoning) as u64,
    }
}

/// All tokens of every kind.
pub open spec fn tokens_sum(t: TokenTotals) -> int {
    t.input + t.output + t.cache_read + t.cache_write + t.reasoning
}

impl TokenTotals {
    /// Adds `other` to `self`, field by field (the sums must fit: std's `+=` panics otherwise).
    pub fn add(&mut self, other: &TokenTotals)
        requires
            can_add(*old(self), *other),
        ensures
            *final(self) == plus(*old(self), *other),
    {
        self.input = self.input + other.input;
        self.output = self.output + other.output;
        self.cache_read = self.cache_read + other.cache_read;
        self.cache_write = self.cache_write + other.cache_write;
        self.reasoning = self.reasoning + other.reasoning;
    }

    /// `self + other` when it fits, `None` otherwise.
    pub fn checked_plus(&self, other: &TokenTotals) -> (r: Option<TokenTotals>)
        ensures
            can_add(*self, *other) ==> r == Some(plus(*self, *other)),
            !can_add(*self, *other) ==> r is None,
    {
        if self.input > u64::MAX - other.input || self.output > u64::MAX - other.output
            || self.cache_read > u64::MAX - other.cache_read || self.cache_write > u64::MAX
            - other.cache_write || self.reasoning > u64::MAX - other.reasoning {
            None
        } else {
            let mut sum = *self;
            sum.add(other);
            Some(sum)
        }
    }

    /// All tokens of every kind (the sum must fit: std's `+` panics otherwise).
    pub fn total(&self) -> (r: u64)
        requires
            tokens_sum(*self) <= u64::MAX,
        ensures
            r == tokens_sum(*self),
    {
        self.input + self.output + self.cache_read + self.cache_write + self.reasoning
    }
}

/// One assistant message or turn: when it happened, its tokens, and its cost in USD as the
/// JSON number the tool wrote (0 when it wrote none).
#[derive(Debug)]
pub struct UsageRecord {
    pub timestamp: Timestamp,
    pub tokens: TokenTotals,
    pub cost: JsonNumber,
}

/// The value of a record.
pub type RecordView = (Timestamp, TokenTotals, NumberView);

impl View for UsageRecord {
    type V = RecordView;

    open spec fn view(&self) -> RecordView {
        (self.timestamp, self.tokens, self.cost@)
    }
}

/// The records that fell in one time window: the cost of each (in order, as written), their
/// token sums, and how many there were. The panel adds the costs up.
#[derive(Debug)]
pub struct UsageWindow {
    pub costs: Vec<JsonNumber>,
    pub tokens: TokenTotals,
    pub records: usize,
}

/// The value of a window: the costs, the token sums, the count.
pub type WindowView = (Seq<NumberView>, TokenTotals, nat);

/// The values of a list of costs.
pub open spec fn costs_view(costs: Seq<JsonNumber>) -> Seq<NumberView> {
    costs.map_values(|c: JsonNumber| c@)
}

impl View for UsageWindow {
    type V = WindowView;

    open spec fn view(&self) -> WindowView {
        (costs_view(self.costs@), self.tokens, self.records as nat)
    }
}

/// A window with no records.
pub open spec fn empty_window() -> WindowView {
    (Seq::empty(), zero_tokens(), 0)
}

impl Default for UsageWindow {
    /// A window with no records.
    fn default() -> (r: UsageWindow)
        ensures
            r@ == empty_window(),
    {
        let r = UsageWindow { costs: Vec::new(), tokens: TokenTotals::default(), records: 0 };
        assert(costs_view(r.costs@) =~= Seq::<NumberView>::empty());
        r
    }
}

impl UsageWindow {
    /// Counts `record` in this window: its cost is appended, its tokens added (the sums must
    /// fit, and so must the count: std's `+=` panics otherwise).
    pub fn add_record(&mut self, record: &UsageRecord)
        requires
            can_add(old(self).tokens, record.tokens),
            old(self).records < usize::MAX,
        ensures
            final(self)@ == (
                old(self)@.0.push(record.cost@),
                plus(old(self).tokens, record.tokens),
                old(self)@.2 + 1,
            ),
    {
        let ghost before = self.costs@;
        self.costs.push(record.cost.duplicate());
        assert(costs_view(self.costs@) =~= costs_view(before).push(record.cost@));
        self.tokens.add(&record.tokens);
        self.records = self.records + 1;
    }
}

/// The values of a list of records.
pub open spec fn records_view(records: Seq<UsageRecord>) -> Seq<RecordView> {
    records.map_values(|r: UsageRecord| r@)
}

/// Why a tool's usage could not be collected.
#[derive(Debug)]
pub enum CollectError {
    /// Its data is not where it should be (the path, as displayed).
    NotFound(String),
    /// Reading or parsing it failed (the message).
    Failed(String),
}

impl PartialEq for CollectError {
    fn eq(&self, other: &CollectError) -> (r: bool) {
        match self {
            CollectError::NotFound(a) => match other {
                CollectError::NotFound(b) => crate::text::str_eq(a.as_str(), b.as_str()),
                _ => false,
            },
            CollectError::Failed(a) => match other {
                CollectError::Failed(b) => crate::text::str_eq(a.as_str(), b.as_str()),
                _ => false,
            },
        }
    }
}

impl vstd::std_specs::cmp::PartialEqSpecImpl for CollectError {
    open spec fn obeys_eq_spec() -> bool {
        true
    }

    open spec fn eq_spec(&self, other: &CollectError) -> bool {
        error_view(*self) == error_view(*other)
    }
}

/// The value of a collection error: `Ok` for not found, `Err` for failed, with the text.
pub open spec fn error_view(e: CollectError) -> Result<Seq<char>, Seq<char>> {
    match e {
        CollectError::NotFound(p) => Ok(p@),
        CollectError::Failed(m) => Err(m@),
    }
}

/// The state of a tool's card in the panel.
#[derive(Debug)]
pub enum ProviderStatus {
    Available,
    NotFound { path: String },
    Error { message: String },
}

impl PartialEq for ProviderStatus {
    fn eq(&self, other: &ProviderStatus) -> (r: bool) {
        match self {
            ProviderStatus::Available => match other {
                ProviderStatus::Available => true,
                _ => false,
            },
            ProviderStatus::NotFound { path: a } => match other {
                ProviderStatus::NotFound { path: b } => crate::text::str_eq(a.as_str(), b.as_str()),
                _ => false,
            },
            ProviderStatus::Error { message: a } => match other {
                ProviderStatus::Error { message: b } => crate::text::str_eq(a.as_str(), b.as_str()),
                _ => false,
            },
        }
    }
}

impl vstd::std_specs::cmp::PartialEqSpecImpl for ProviderStatus {
    open spec fn obeys_eq_spec() -> bool {
        true
    }

    open spec fn eq_spec(&self, other: &ProviderStatus) -> bool {
        status_view(*self) == status_view(*other)
    }
}

/// The value of a card state: nothing for `Available`, else whether it is a missing path
/// (`Ok`) or an error (`Err`), with its text.
pub open spec fn status_view(s: ProviderStatus) -> Option<Result<Seq<char>, Seq<char>>> {
    match s {
        ProviderStatus::Available => None,
        ProviderStatus::NotFound { path } => Some(Ok(path@)),
        ProviderStatus::Error { message } => Some(Err(message@)),
    }
}

/// The card state for a collection error: not found stays not found, a failure becomes an
/// error notice.
pub open spec fn status_of(error: CollectError) -> ProviderStatus {
    match error {
        CollectError::NotFound(path) => ProviderStatus::NotFound { path },
        CollectError::Failed(message) => ProviderStatus::Error { message },
    }
}

impl From<CollectError> for ProviderStatus {
    fn from(error: CollectError) -> (r: ProviderStatus) {
        match error {
            CollectError::NotFound(path) => ProviderStatus::NotFound { path },
            CollectError::Failed(message) => ProviderStatus::Error { message },
        }
    }
}

impl vstd::std_specs::convert::FromSpecImpl<CollectError> for ProviderStatus {
    open spec fn obeys_from_spec() -> bool {
        true
    }

    open spec fn from_spec(error: CollectError) -> ProviderStatus {
        status_of(error)
    }
}

/// The latest instant among the records of `rs`.
pub open spec fn latest(rs: Seq<RecordView>) -> Option<Timestamp>
    decreases rs.len(),
{
    if rs.len() == 0 {
        None
    } else {
        match latest(rs.drop_last()) {
            None => Some(rs.last().0),
            Some(t) => if at_or_after(rs.last().0, t) {
                Some(rs.last().0)
            } else {
                Some(t)
            },
        }
    }
}

/// The latest instant among `records`.
pub fn latest_record_at(records: &Vec<UsageRecord>) -> (r: Option<Timestamp>)
    ensures
        r == latest(records_view(records@)),
{
    let ghost rs = records_view(records@);
    let mut best: Option<Timestamp> = None;
    let mut i: usize = 0;
    proof {
        assert(rs.take(0) =~= Seq::<RecordView>::empty());
    }
    while i < records.len()
        invariant
            i <= records.len(),
            rs == records_view(records@),
            best == latest(rs.take(i as int)),
        decreases records.len() - i,
    {
        let t = records[i].timestamp;
        best = match best {
            None => Some(t),
            Some(b) => if t.is_at_or_after(&b) {
                Some(t)
            } else {
                Some(b)
            },
        };
        proof {
            assert(rs.take(i + 1).drop_last() =~= rs.take(i as int));
        }
        i = i + 1;
    }
    proof {
        assert(rs.take(records.len() as int) =~= rs);
    }
    best
}

/// One tool's card: its state, its three windows and when its last record was made. The plan
/// limits that the panel shows beside them are kept by the app.
#[derive(Debug)]
pub struct ProviderUsage {
    pub provider: Provider,
    pub status: ProviderStatus,
    pub today: UsageWindow,
    pub last_7d: UsageWindow,
    pub last_30d: UsageWindow,
    pub last_record_at: Option<Timestamp>,
}

impl ProviderUsage {
    /// The card of a tool whose records were collected: its windows for the day that starts
    /// at `today_start`, and its latest record. The token sums of the 30 days window must fit
    /// (see `window::window_sums_fit`).
    pub fn from_records(provider: Provider, records: &Vec<UsageRecord>, today_start: Timestamp) -> (r:
        ProviderUsage)
        requires
            sums_fit(window::since(records_view(records@), days_before(today_start, 29))),
            starts_fit(today_start),
        ensures
            r.provider == provider,
            r.status is Available,
            r.today@ == window_of(records_view(records@), today_start),
            r.last_7d@ == window_of(records_view(records@), days_before(today_start, 6)),
            r.last_30d@ == window_of(records_view(records@), days_before(today_start, 29)),
            r.last_record_at == latest(records_view(records@)),
    {
        let windows = summarize(records, today_start);
        let Windows { today, last_7d, last_30d } = windows;
        ProviderUsage {
            provider,
            status: ProviderStatus::Available,
            today,
            last_7d,
            last_30d,
            last_record_at: latest_record_at(records),
        }
    }

    /// The card of a tool that failed or is not installed: the error becomes the notice, and
    /// the windows are empty.
    pub fn unavailable(provider: Provider, error: CollectError) -> (r: ProviderUsage)
        ensures
            r.provider == provider,
            status_view(r.status) == status_view(status_of(error)),
            r.today@ == empty_window(),
            r.last_7d@ == empty_window(),
            r.last_30d@ == empty_window(),
            r.last_record_at is None,
    {
        ProviderUsage {
            provider,
            status: ProviderStatus::from(error),
            today: UsageWindow::default(),
            last_7d: UsageWindow::default(),
            last_30d: UsageWindow::default(),
            last_record_at: None,
        }
    }
}

} // verus!

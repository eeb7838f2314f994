//! Turns the Command Code API payloads into the fields of the plan limits the panel shows: the
//! plan table, and what is read from each endpoint. The percentages and the credit pool are
//! float arithmetic over these fields, done by the panel.

use vstd::prelude::*;
use crate::json::{JsonValue, JsonNumber, JsonView, NumberView, json_text, parse, get, get_str,
    count, as_number, as_i64};
use crate::text::{concat2, str_eq};
use crate::time::{Timestamp, rfc3339_instant, parse_rfc3339, millis_instant, from_millis};
use super::{CollectError, error_view};
use super::commandcode::{number_or_zero, number_at, count_at};

verus! {

/// The plan table: the name and the monthly credits of each plan id.
pub open spec fn plan_entry(plan_id: Seq<char>) -> Option<(Seq<char>, u32)> {
    if plan_id == "individual-ultra"@ {
        Some(("Ultra"@, 300))
    } else if plan_id == "individual-max"@ {
        Some(("Max"@, 150))
    } else if plan_id == "individual-pro-v1"@ {
        Some(("Pro"@, 80))
    } else if plan_id == "individual-goat"@ {
        Some(("GOAT"@, 70))
    } else if plan_id == "teams-pro"@ {
        Some(("Teams Pro"@, 40))
    } else if plan_id == "individual-pro"@ {
        Some(("Pro"@, 30))
    } else if plan_id == "individual-provider"@ {
        Some(("Provider"@, 15))
    } else if plan_id == "individual-go"@ {
        Some(("Go"@, 10))
    } else {
        None
    }
}

/// The name shown for a plan id.
pub fn plan_name(plan_id: &str) -> (r: Option<&'static str>)
    ensures
        r matches Some(n) ==> plan_entry(plan_id@) matches Some(e) && e.0 == n@,
        r is None ==> plan_entry(plan_id@) is None,
{
    if str_eq(plan_id, "individual-ultra") {
        Some("Ultra")
    } else if str_eq(plan_id, "individual-max") {
        Some("Max")
    } else if str_eq(plan_id, "individual-pro-v1") {
        Some("Pro")
    } else if str_eq(plan_id, "individual-goat") {
        Some("GOAT")
    } else if str_eq(plan_id, "teams-pro") {
        Some("Teams Pro")
    } else if str_eq(plan_id, "individual-pro") {
        Some("Pro")
    } else if str_eq(plan_id, "individual-provider") {
        Some("Provider")
    } else if str_eq(plan_id, "individual-go") {
        Some("Go")
    } else {
        None
    }
}

/// The credits a plan grants each month.
pub fn plan_monthly_credits(plan_id: &str) -> (r: Option<u32>)
    ensures
        r matches Some(c) ==> plan_entry(plan_id@) matches Some(e) && e.1 == c,
        r is None ==> plan_entry(plan_id@) is None,
{
    if str_eq(plan_id, "individual-ultra") {
        Some(300)
    } else if str_eq(plan_id, "individual-max") {
        Some(150)
    } else if str_eq(plan_id, "individual-pro-v1") {
        Some(80)
    } else if str_eq(plan_id, "individual-goat") {
        Some(70)
    } else if str_eq(plan_id, "teams-pro") {
        Some(40)
    } else if str_eq(plan_id, "individual-pro") {
        Some(30)
    } else if str_eq(plan_id, "individual-provider") {
        Some(15)
    } else if str_eq(plan_id, "individual-go") {
        Some(10)
    } else {
        None
    }
}

/// The credit balances, as the JSON numbers sent (0 where one is missing).
#[derive(Debug)]
pub struct CreditFields {
    pub monthly_remaining: JsonNumber,
    pub purchased: JsonNumber,
    pub free: JsonNumber,
}

/// The value of the balances: monthly remaining, purchased, free.
pub type CreditsView = (NumberView, NumberView, NumberView);

impl View for CreditFields {
    type V = CreditsView;

    open spec fn view(&self) -> CreditsView {
        (self.monthly_remaining@, self.purchased@, self.free@)
    }
}

/// The plan fields of the subscription payload.
#[derive(Debug)]
pub struct SubscriptionInfo {
    pub plan_id: Option<String>,
    pub status: Option<String>,
    pub renews_at: Option<Timestamp>,
}

/// The value of an optional string.
pub open spec fn opt_view(s: Option<String>) -> Option<Seq<char>> {
    match s {
        Some(x) => Some(x@),
        None => None,
    }
}

/// The value of the plan fields: plan id, status, renewal instant.
pub type SubscriptionView = (Option<Seq<char>>, Option<Seq<char>>, Option<Timestamp>);

impl View for SubscriptionInfo {
    type V = SubscriptionView;

    open spec fn view(&self) -> SubscriptionView {
        (opt_view(self.plan_id), opt_view(self.status), self.renews_at)
    }
}

/// The usage summary fields shown in the panel.
#[derive(Debug)]
pub struct SummaryInfo {
    pub total_spent: JsonNumber,
    pub requests_this_period: u64,
    pub period_basis: Option<String>,
}

/// The value of the summary: total spent, requests, period basis.
pub type SummaryView = (NumberView, u64, Option<Seq<char>>);

impl View for SummaryInfo {
    type V = SummaryView;

    open spec fn view(&self) -> SummaryView {
        (self.total_spent@, self.requests_this_period, opt_view(self.period_basis))
    }
}

/// One credit window (five hours, weekly): the credits used, the cap (0 when missing) and
/// when it resets.
#[derive(Debug)]
pub struct WindowFields {
    pub used: JsonNumber,
    pub cap: JsonNumber,
    pub reset_at: Timestamp,
}

/// The value of a credit window: used, cap, reset instant.
pub type WindowFieldsView = (NumberView, NumberView, Timestamp);

impl View for WindowFields {
    type V = WindowFieldsView;

    open spec fn view(&self) -> WindowFieldsView {
        (self.used@, self.cap@, self.reset_at)
    }
}

/// The value of an optional credit window.
pub open spec fn window_fields_option(w: Option<WindowFields>) -> Option<WindowFieldsView> {
    match w {
        Some(x) => Some(x@),
        None => None,
    }
}

/// Everything the three payloads say of the plan.
#[derive(Debug)]
pub struct LimitFields {
    /// The name of the plan, when its id is in the table.
    pub plan: Option<String>,
    pub subscription: SubscriptionInfo,
    pub summary: SummaryInfo,
    pub credits: CreditFields,
    pub five_hour: Option<WindowFields>,
    pub weekly: Option<WindowFields>,
}

/// The value of the plan fields.
pub type LimitFieldsView = (
    Option<Seq<char>>,
    SubscriptionView,
    SummaryView,
    CreditsView,
    Option<WindowFieldsView>,
    Option<WindowFieldsView>,
);

impl View for LimitFields {
    type V = LimitFieldsView;

    open spec fn view(&self) -> LimitFieldsView {
        (
            opt_view(self.plan),
            self.subscription@,
            self.summary@,
            self.credits@,
            window_fields_option(self.five_hour),
            window_fields_option(self.weekly),
        )
    }
}

/// A value that is there and not null.
pub open spec fn non_null(v: Option<JsonView>) -> Option<JsonView> {
    match v {
        Some(x) => if x is Null {
            None
        } else {
            Some(x)
        },
        None => None,
    }
}

/// The balances of the credits payload: its `credits` object must be there and not null.
pub open spec fn credits_of(credits: JsonView) -> Option<CreditsView> {
    match non_null(get(credits, "credits"@)) {
        None => None,
        Some(info) => Some(
            (
                number_or_zero(info, "monthlyCredits"@),
                number_or_zero(info, "purchasedCredits"@),
                number_or_zero(info, "freeCredits"@),
            ),
        ),
    }
}

/// The JSON number stored under `key`, if one is.
pub open spec fn number_field(value: JsonView, key: Seq<char>) -> Option<NumberView> {
    match get(value, key) {
        Some(JsonView::Number(n)) => Some(n),
        _ => None,
    }
}

/// Law: the balances are read from the `credits` object of the credits payload, each from its
/// own field: the monthly remaining balance from `monthlyCredits`, the purchased one from
/// `purchasedCredits` and the free one from `freeCredits`, each the JSON number stored there,
/// or 0 when that field is missing or not a number. There are balances exactly when the
/// payload has a `credits` member that is not null.
pub proof fn lemma_balances_by_field(credits: JsonView)
    ensures
        credits_of(credits) is Some <==> (get(credits, "credits"@) matches Some(info) && !(info is Null)),
        credits_of(credits) is Some ==> ({
            let info = get(credits, "credits"@)->Some_0;
            let b = credits_of(credits)->Some_0;
            &&& number_field(info, "monthlyCredits"@) matches Some(n) ==> b.0 == n
            &&& number_field(info, "monthlyCredits"@) is None ==> b.0 == NumberView::PosInt(0)
            &&& number_field(info, "purchasedCredits"@) matches Some(n) ==> b.1 == n
            &&& number_field(info, "purchasedCredits"@) is None ==> b.1 == NumberView::PosInt(0)
            &&& number_field(info, "freeCredits"@) matches Some(n) ==> b.2 == n
            &&& number_field(info, "freeCredits"@) is None ==> b.2 == NumberView::PosInt(0)
        }),
{
}

/// A string of the `data` object of the subscription payload.
pub open spec fn data_text(subscription: JsonView, key: Seq<char>) -> Option<Seq<char>> {
    match non_null(get(subscription, "data"@)) {
        Some(data) => get_str(data, key),
        None => None,
    }
}

/// The plan fields of the subscription payload.
pub open spec fn subscription_of(subscription: JsonView) -> SubscriptionView {
    (
        data_text(subscription, "planId"@),
        data_text(subscription, "status"@),
        match data_text(subscription, "currentPeriodEnd"@) {
            Some(t) => rfc3339_instant(t),
            None => None,
        },
    )
}

/// The summary fields of the summary payload.
pub open spec fn summary_of(summary: JsonView) -> SummaryView {
    (
        number_or_zero(summary, "totalCost"@),
        count(summary, "totalCount"@),
        get_str(summary, "periodBasis"@),
    )
}

/// A credit window: it needs a numeric `used` and a `resetAt` in milliseconds that chrono can
/// place; the cap defaults to 0.
pub open spec fn window_fields_of(value: JsonView) -> Option<WindowFieldsView> {
    match get(value, "used"@) {
        None => None,
        Some(u) => match as_number(u) {
            None => None,
            Some(used) => match get(value, "resetAt"@) {
                None => None,
                Some(r) => match as_i64(r) {
                    None => None,
                    Some(ms) => match millis_instant(ms) {
                        None => None,
                        Some(reset_at) => Some((used, number_or_zero(value, "cap"@), reset_at)),
                    },
                },
            },
        },
    }
}

/// The credit window under `key` of the `windowLimits` object of the credits payload.
pub open spec fn credit_window(credits: JsonView, key: Seq<char>) -> Option<WindowFieldsView> {
    match non_null(get(credits, "windowLimits"@)) {
        Some(limits) => match get(limits, key) {
            Some(w) => window_fields_of(w),
            None => None,
        },
        None => None,
    }
}

/// The name of the plan whose id the subscription names.
pub open spec fn plan_of(plan_id: Option<Seq<char>>) -> Option<Seq<char>> {
    match plan_id {
        Some(id) => match plan_entry(id) {
            Some(e) => Some(e.0),
            None => None,
        },
        None => None,
    }
}

/// What `parse_limits` gives for the three payloads: the payloads are read in the order
/// summary, credits, subscription, and the credits must carry a balance; `Err` carries the
/// message of a failure.
pub open spec fn limits_in(summary: Seq<char>, credits: Seq<char>, subscription: Seq<char>) -> Result<
    LimitFieldsView,
    Seq<char>,
> {
    match json_text(summary) {
        Err(e) => Err("usage/summary inválido: "@ + e),
        Ok(s) => match json_text(credits) {
            Err(e) => Err("billing/credits inválido: "@ + e),
            Ok(c) => match json_text(subscription) {
                Err(e) => Err("billing/subscriptions inválido: "@ + e),
                Ok(b) => match credits_of(c) {
                    None => Err("resposta de credits sem saldo"@),
                    Some(balances) => {
                        let sub = subscription_of(b);
                        Ok(
                            (
                                plan_of(sub.0),
                                sub,
                                summary_of(s),
                                balances,
                                credit_window(c, "fiveHour"@),
                                credit_window(c, "weekly"@),
                            ),
                        )
                    },
                },
            },
        },
    }
}

/// Parses one payload, naming the endpoint in the error.
pub fn parse_payload(label: &str, body: &str) -> (r: Result<JsonValue, CollectError>)
    ensures
        match r {
            Ok(v) => json_text(body@) == Ok::<JsonView, Seq<char>>(v@),
            Err(e) => json_text(body@) is Err && error_view(e) == Err::<Seq<char>, Seq<char>>(
                label@ + " inválido: "@ + json_text(body@)->Err_0,
            ),
        },
{
    match parse(body) {
        Ok(v) => Ok(v),
        Err(e) => {
            let prefix = concat2(label, " inválido: ");
            Err(CollectError::Failed(concat2(prefix.as_str(), e.as_str())))
        },
    }
}

/// `value.get(key)`, unless it is null.
fn non_null_at<'a>(value: &'a JsonValue, key: &str) -> (r: Option<&'a JsonValue>)
    ensures
        r matches Some(v) ==> non_null(get(value@, key@)) == Some(v@),
        r is None ==> non_null(get(value@, key@)) is None,
{
    match value.get(key) {
        Some(v) => if v.is_null() {
            None
        } else {
            Some(v)
        },
        None => None,
    }
}

/// `value.get(key).and_then(Value::as_str)`, copied.
fn string_at(value: &JsonValue, key: &str) -> (r: Option<String>)
    ensures
        opt_view(r) == get_str(value@, key@),
{
    match value.get(key) {
        Some(v) => match v.as_str() {
            Some(s) => Some(s.clone()),
            None => None,
        },
        None => None,
    }
}

/// The balances of the credits payload.
pub fn credit_totals(credits: &JsonValue) -> (r: Result<CreditFields, CollectError>)
    ensures
        match r {
            Ok(c) => credits_of(credits@) == Some(c@),
            Err(e) => credits_of(credits@) is None && error_view(e) == Err::<Seq<char>, Seq<char>>(
                "resposta de credits sem saldo"@,
            ),
        },
{
    match non_null_at(credits, "credits") {
        None => Err(CollectError::Failed(crate::text::owned("resposta de credits sem saldo"))),
        Some(info) => Ok(
            CreditFields {
                monthly_remaining: number_at(info, "monthlyCredits"),
                purchased: number_at(info, "purchasedCredits"),
                free: number_at(info, "freeCredits"),
            },
        ),
    }
}

/// A string of the `data` object of the subscription payload.
fn data_string(subscription: &JsonValue, key: &str) -> (r: Option<String>)
    ensures
        opt_view(r) == data_text(subscription@, key@),
{
    match non_null_at(subscription, "data") {
        Some(data) => string_at(data, key),
        None => None,
    }
}

/// The plan fields of the subscription payload.
pub fn subscription_info(subscription: &JsonValue) -> (r: SubscriptionInfo)
    ensures
        r@ == subscription_of(subscription@),
{
    let end = data_string(subscription, "currentPeriodEnd");
    let renews_at = match &end {
        Some(t) => parse_rfc3339(t.as_str()),
        None => None,
    };
    SubscriptionInfo {
        plan_id: data_string(subscription, "planId"),
        status: data_string(subscription, "status"),
        renews_at,
    }
}

/// The summary fields of the summary payload.
pub fn summary_info(summary: &JsonValue) -> (r: SummaryInfo)
    ensures
        r@ == summary_of(summary@),
{
    SummaryInfo {
        total_spent: number_at(summary, "totalCost"),
        requests_this_period: count_at(summary, "totalCount"),
        period_basis: string_at(summary, "periodBasis"),
    }
}

/// A credit window of the credits payload.
pub fn window_limit(value: &JsonValue) -> (r: Option<WindowFields>)
    ensures
        window_fields_option(r) == window_fields_of(value@),
{
    let used = match value.get("used") {
        Some(u) => match u.as_number() {
            Some(n) => n.duplicate(),
            None => return None,
        },
        None => return None,
    };
    let ms = match value.get("resetAt") {
        Some(t) => match t.as_i64() {
            Some(ms) => ms,
            None => return None,
        },
        None => return None,
    };
    let reset_at = match from_millis(ms) {
        Some(t) => t,
        None => return None,
    };
    Some(WindowFields { used, cap: number_at(value, "cap"), reset_at })
}

/// The five-hour and the weekly credit windows of the credits payload.
pub fn credit_windows(credits: &JsonValue) -> (r: (Option<WindowFields>, Option<WindowFields>))
    ensures
        window_fields_option(r.0) == credit_window(credits@, "fiveHour"@),
        window_fields_option(r.1) == credit_window(credits@, "weekly"@),
{
    match non_null_at(credits, "windowLimits") {
        Some(limits) => {
            let five_hour = match limits.get("fiveHour") {
                Some(w) => window_limit(w),
                None => None,
            };
            let weekly = match limits.get("weekly") {
                Some(w) => window_limit(w),
                None => None,
            };
            (five_hour, weekly)
        },
        None => (None, None),
    }
}

/// Turns the three Command Code API payloads into the plan fields.
pub fn parse_limits(summary: &str, credits: &str, subscription: &str) -> (r: Result<
    LimitFields,
    CollectError,
>)
    ensures
        match r {
            Ok(l) => limits_in(summary@, credits@, subscription@) == Ok::<
                LimitFieldsView,
                Seq<char>,
            >(l@),
            Err(e) => limits_in(summary@, credits@, subscription@) is Err && error_view(e) == Err::<
                Seq<char>,
                Seq<char>,
            >(limits_in(summary@, credits@, subscription@)->Err_0),
        },
{
    proof {
        reveal_strlit("usage/summary");
        reveal_strlit("billing/credits");
        reveal_strlit("billing/subscriptions");
        reveal_strlit(" inválido: ");
        reveal_strlit("usage/summary inválido: ");
        reveal_strlit("billing/credits inválido: ");
        reveal_strlit("billing/subscriptions inválido: ");
        assert("usage/summary"@ + " inválido: "@ =~= "usage/summary inválido: "@);
        assert("billing/credits"@ + " inválido: "@ =~= "billing/credits inválido: "@);
        assert("billing/subscriptions"@ + " inválido: "@ =~= "billing/subscriptions inválido: "@);
    }
    let summary_json = match parse_payload("usage/summary", summary) {
        Ok(v) => v,
        Err(e) => return Err(e),
    };
    let credits_json = match parse_payload("billing/credits", credits) {
        Ok(v) => v,
        Err(e) => return Err(e),
    };
    let subscription_json = match parse_payload("billing/subscriptions", subscription) {
        Ok(v) => v,
        Err(e) => return Err(e),
    };
    let balances = match credit_totals(&credits_json) {
        Ok(b) => b,
        Err(e) => return Err(e),
    };
    let sub = subscription_info(&subscription_json);
    let plan = match &sub.plan_id {
        Some(id) => match plan_name(id.as_str()) {
            Some(n) => Some(crate::text::owned(n)),
            None => None,
        },
        None => None,
    };
    let (five_hour, weekly) = credit_windows(&credits_json);
    Ok(
        LimitFields {
            plan,
            subscription: sub,
            summary: summary_info(&summary_json),
            credits: balances,
            five_hour,
            weekly,
        },
    )
}

} // verus!

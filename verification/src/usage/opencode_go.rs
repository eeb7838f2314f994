//! OpenCode Go plan limits from `opencode.ai/zen/go/v1/usage`, authenticated with the
//! `opencode-go` key of `~/.local/share/opencode/auth.json`: the rolling, weekly and monthly
//! windows.

use vstd::prelude::*;
use crate::json::{JsonValue, JsonNumber, JsonView, NumberView, json_text, parse, get, get_str,
    as_number, as_object, member, members_view};
use crate::text::{concat2, concat3, quoted_list, debug_list, str_eq};
use crate::time::{Timestamp, rfc3339_instant, parse_rfc3339};
use super::{CollectError, error_view};
use super::grok::instant_at;

verus! {

/// One usage window of the Go plan.
#[derive(Debug)]
pub struct OpenCodeGoWindow {
    /// The share used, in percent, as the JSON number sent (the panel clamps it to 0..=100).
    pub percent: JsonNumber,
    pub status: Option<String>,
    pub resets_at: Timestamp,
}

/// The value of a window: percent, status, reset instant.
pub type WindowView = (NumberView, Option<Seq<char>>, Timestamp);

impl View for OpenCodeGoWindow {
    type V = WindowView;

    open spec fn view(&self) -> WindowView {
        (
            self.percent@,
            match self.status {
                Some(s) => Some(s@),
                None => None,
            },
            self.resets_at,
        )
    }
}

/// The value of an optional window.
pub open spec fn window_option(w: Option<OpenCodeGoWindow>) -> Option<WindowView> {
    match w {
        Some(x) => Some(x@),
        None => None,
    }
}

/// The Go plan limits.
#[derive(Debug)]
pub struct OpenCodeGoLimits {
    pub rolling: Option<OpenCodeGoWindow>,
    pub weekly: Option<OpenCodeGoWindow>,
    pub monthly: Option<OpenCodeGoWindow>,
    pub fetched_at: Timestamp,
}

/// The value of the limits: rolling, weekly, monthly, fetched at.
pub type LimitsView = (Option<WindowView>, Option<WindowView>, Option<WindowView>, Timestamp);

impl View for OpenCodeGoLimits {
    type V = LimitsView;

    open spec fn view(&self) -> LimitsView {
        (
            window_option(self.rolling),
            window_option(self.weekly),
            window_option(self.monthly),
            self.fetched_at,
        )
    }
}

/// What `read_api_key` gives for the text of `auth.json` at `path`: the non-empty `key` (else
/// `token`) of the `opencode-go` entry; `Err` carries the message of a failure.
pub open spec fn api_key_in(path: Seq<char>, text: Seq<char>) -> Result<Seq<char>, Seq<char>> {
    match json_text(text) {
        Err(e) => Err(path + ": "@ + e),
        Ok(v) => match get(v, "opencode-go"@) {
            None => Err(path + ": sem conta opencode-go"@),
            Some(account) => {
                let key = match get(account, "key"@) {
                    Some(k) => Some(k),
                    None => get(account, "token"@),
                };
                match key {
                    Some(k) => match crate::json::as_str(k) {
                        Some(s) => if s.len() > 0 {
                            Ok(s)
                        } else {
                            Err(path + ": sem api key"@)
                        },
                        None => Err(path + ": sem api key"@),
                    },
                    None => Err(path + ": sem api key"@),
                }
            },
        },
    }
}

/// The `opencode-go` API key in the text of `auth.json` at `path` (as displayed).
pub fn read_api_key(path: &str, text: &str) -> (r: Result<String, CollectError>)
    ensures
        match r {
            Ok(k) => api_key_in(path@, text@) == Ok::<Seq<char>, Seq<char>>(k@),
            Err(e) => error_view(e) == Err::<Seq<char>, Seq<char>>(
                api_key_in(path@, text@)->Err_0,
            ) && api_key_in(path@, text@) is Err,
        },
{
    let value = match parse(text) {
        Ok(v) => v,
        Err(e) => return Err(CollectError::Failed(concat3(path, ": ", e.as_str()))),
    };
    let account = match value.get("opencode-go") {
        Some(a) => a,
        None => return Err(CollectError::Failed(concat2(path, ": sem conta opencode-go"))),
    };
    let key = match account.get("key") {
        Some(k) => Some(k),
        None => account.get("token"),
    };
    match key {
        Some(k) => match k.as_str() {
            Some(s) => if !s.as_str().is_empty() {
                Ok(s.clone())
            } else {
                Err(CollectError::Failed(concat2(path, ": sem api key")))
            },
            None => Err(CollectError::Failed(concat2(path, ": sem api key"))),
        },
        None => Err(CollectError::Failed(concat2(path, ": sem api key"))),
    }
}

/// The account label for the text of `auth.json`: the client stores no e-mail, so the kind of
/// key is the closest thing to an account.
pub open spec fn account_label(text: Seq<char>) -> Option<Seq<char>> {
    match json_text(text) {
        Ok(v) => match as_object(v) {
            Some(ms) => if member(ms, "opencode-go"@) is Some {
                Some("OpenCode Go"@)
            } else if member(ms, "opencode"@) is Some {
                Some("OpenCode Zen"@)
            } else {
                None
            },
            None => None,
        },
        Err(_) => None,
    }
}

/// The account label shown on the panel avatar, from the text of `auth.json`.
pub fn read_account(text: &str) -> (r: Option<String>)
    ensures
        r matches Some(l) ==> account_label(text@) == Some(l@),
        r is None ==> account_label(text@) is None,
{
    let value = match parse(text) {
        Ok(v) => v,
        Err(_) => return None,
    };
    if value.as_object().is_none() {
        return None;
    }
    proof {
        crate::json::lemma_member_index(crate::json::object_members(value@), "opencode-go"@);
    }
    if value.get("opencode-go").is_some() {
        return Some(crate::text::owned("OpenCode Go"));
    }
    if value.get("opencode").is_some() {
        Some(crate::text::owned("OpenCode Zen"))
    } else {
        None
    }
}

/// A usage window: it needs a numeric `percent` and an RFC 3339 `resetsAt`.
pub open spec fn window_of(value: Option<JsonView>) -> Option<WindowView> {
    match value {
        None => None,
        Some(v) => match get(v, "percent"@) {
            None => None,
            Some(p) => match as_number(p) {
                None => None,
                Some(percent) => match instant_at(v, "resetsAt"@) {
                    None => None,
                    Some(resets_at) => Some((percent, get_str(v, "status"@), resets_at)),
                },
            },
        },
    }
}

fn parse_window(value: Option<&JsonValue>) -> (r: Option<OpenCodeGoWindow>)
    ensures
        window_option(r) == window_of(
            match value {
                Some(v) => Some(v@),
                None => None,
            },
        ),
{
    let v = match value {
        Some(v) => v,
        None => return None,
    };
    let percent = match v.get("percent") {
        Some(p) => match p.as_number() {
            Some(n) => n.duplicate(),
            None => return None,
        },
        None => return None,
    };
    let resets_at = match v.get("resetsAt") {
        Some(t) => match t.as_str() {
            Some(s) => match parse_rfc3339(s.as_str()) {
                Some(t) => t,
                None => return None,
            },
            None => return None,
        },
        None => return None,
    };
    let status = match v.get("status") {
        Some(s) => match s.as_str() {
            Some(s) => Some(s.clone()),
            None => None,
        },
        None => None,
    };
    Some(OpenCodeGoWindow { percent, status, resets_at })
}

/// The keys of a payload, in order (none when it is not an object).
pub open spec fn keys_of(payload: JsonView) -> Seq<Seq<char>> {
    match as_object(payload) {
        Some(ms) => Seq::new(ms.len(), |i: int| ms[i].0),
        None => Seq::empty(),
    }
}

/// What `parse_usage` gives for a payload fetched at `now`: the three windows of its `usage`
/// object; `Err` carries the message of a failure.
pub open spec fn usage_in(body: Seq<char>, now: Timestamp) -> Result<LimitsView, Seq<char>> {
    match json_text(body) {
        Err(e) => Err("zen/go/usage inválido: "@ + e),
        Ok(payload) => match get(payload, "usage"@) {
            Some(usage) => if usage is Null {
                Err("zen/go/usage sem \"usage\" (chaves: "@ + debug_list(keys_of(payload)) + ")"@)
            } else {
                Ok(
                    (
                        window_of(get(usage, "rolling"@)),
                        window_of(get(usage, "weekly"@)),
                        window_of(get(usage, "monthly"@)),
                        now,
                    ),
                )
            },
            None => Err("zen/go/usage sem \"usage\" (chaves: "@ + debug_list(keys_of(payload)) + ")"@),
        },
    }
}

fn missing_usage(payload: &JsonValue) -> (r: String)
    ensures
        r@ == "zen/go/usage sem \"usage\" (chaves: "@ + debug_list(keys_of(payload@)) + ")"@,
{
    let mut keys: Vec<String> = Vec::new();
    let ghost ks = keys_of(payload@);
    if let Some(ms) = payload.as_object() {
        let mut i: usize = 0;
        while i < ms.len()
            invariant
                i <= ms@.len(),
                keys_of(payload@) == Seq::new(members_view(ms@).len(), |k: int| members_view(ms@)[k].0),
                ks == keys_of(payload@),
                keys@.len() == i,
                forall|k: int| 0 <= k < i ==> #[trigger] keys@[k]@ == ks[k],
            decreases ms@.len() - i,
        {
            keys.push(ms[i].0.clone());
            i += 1;
        }
    }
    assert(keys@.map_values(|s: String| s@) =~= ks);
    let shown = quoted_list(&keys);
    concat3("zen/go/usage sem \"usage\" (chaves: ", shown.as_str(), ")")
}

/// Reads the rolling, weekly and monthly windows out of one usage payload fetched at `now`.
pub fn parse_usage(body: &str, now: Timestamp) -> (r: Result<OpenCodeGoLimits, CollectError>)
    ensures
        match r {
            Ok(l) => usage_in(body@, now) == Ok::<LimitsView, Seq<char>>(l@),
            Err(e) => usage_in(body@, now) is Err && error_view(e) == Err::<Seq<char>, Seq<char>>(
                usage_in(body@, now)->Err_0,
            ),
        },
{
    let payload = match parse(body) {
        Ok(v) => v,
        Err(e) => return Err(CollectError::Failed(concat2("zen/go/usage inválido: ", e.as_str()))),
    };
    let usage = match payload.get("usage") {
        Some(u) => if u.is_null() {
            return Err(CollectError::Failed(missing_usage(&payload)));
        } else {
            u
        },
        None => return Err(CollectError::Failed(missing_usage(&payload))),
    };
    Ok(
        OpenCodeGoLimits {
            rolling: parse_window(usage.get("rolling")),
            weekly: parse_window(usage.get("weekly")),
            monthly: parse_window(usage.get("monthly")),
            fetched_at: now,
        },
    )
}

} // verus!

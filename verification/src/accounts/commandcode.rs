//! Command Code accounts, the pair that `ccs` keeps: `ccs-accounts.json` is the ledger of saved
//! logins (one credential object per name, plus the `active` name) and `auth.json` is the live
//! login the `cmd` client reads. The account in use is the ledger entry whose `apiKey` matches
//! the live file.

use vstd::prelude::*;
use crate::json::{JsonValue, JsonNumber, JsonView, NumberView, get, get_str, as_object,
    with_member, parsed_view, lemma_object_view, members_view, string_value, lemma_with_member_get,
    lemma_member_index, member_index};
use crate::order::{sort_strings, sorted_permutation, string_views};
use crate::text::{debug_quoted, quoted, join, join_strings, concat2, concat3, owned, str_eq};
use super::{Account, JsonRead, read_view, sorted_by_name, sort_by_name, accounts_view, FileWrite,
    StoreFile, writes_view};

verus! {

/// The notice when the ledger holds no account.
pub const MISSING_LEDGER: &'static str = "não há contas Command Code";

/// The two files of the Command Code store, as read.
pub struct Stores {
    /// `ccs-accounts.json`.
    pub ledger: JsonRead,
    /// `auth.json`.
    pub live: JsonRead,
}

/// `json!({"version": 1, "accounts": {}})`, members in serde_json's key order.
pub open spec fn empty_ledger() -> JsonView {
    JsonView::Object(
        seq![
            ("accounts"@, JsonView::Object(Seq::empty())),
            ("version"@, JsonView::Number(NumberView::PosInt(1))),
        ],
    )
}

/// The ledger, or an empty one when the file does not exist yet.
pub open spec fn ledger_of(read: Result<Option<JsonView>, Seq<char>>) -> Result<JsonView, Seq<char>> {
    match read {
        Ok(Some(v)) => Ok(v),
        Ok(None) => Ok(empty_ledger()),
        Err(e) => Err(e),
    }
}

/// The saved logins of the ledger: the members of its `accounts` object.
pub open spec fn entries(ledger: JsonView) -> Seq<(Seq<char>, JsonView)> {
    match get(ledger, "accounts"@) {
        Some(accounts) => match as_object(accounts) {
            Some(members) => members,
            None => Seq::empty(),
        },
        None => Seq::empty(),
    }
}

/// The non-empty `apiKey` of the live login, when the live file exists and is valid.
pub open spec fn live_key(live: Result<Option<JsonView>, Seq<char>>) -> Option<Seq<char>> {
    match live {
        Ok(Some(v)) => match get_str(v, "apiKey"@) {
            Some(k) => if k.len() > 0 {
                Some(k)
            } else {
                None
            },
            None => None,
        },
        _ => None,
    }
}

/// One row per saved login, in ledger order: its name, and whether its `apiKey` is the live one.
pub open spec fn rows(ledger: JsonView, key: Option<Seq<char>>) -> Seq<(Seq<char>, bool)> {
    let es = entries(ledger);
    Seq::new(es.len(), |i: int| (es[i].0, key is Some && get_str(es[i].1, "apiKey"@) == key))
}

/// The names of the saved logins, in ledger order.
pub open spec fn names(ledger: JsonView) -> Seq<Seq<char>> {
    let es = entries(ledger);
    Seq::new(es.len(), |i: int| es[i].0)
}

/// The message for a switch to a login that does not exist, `sorted` being the saved names
/// in order.
pub open spec fn not_found_message(name: Seq<char>, sorted: Seq<Seq<char>>) -> Seq<char> {
    if sorted.len() == 0 {
        "conta "@ + debug_quoted(name) + " não existe. "@ + MISSING_LEDGER@
    } else {
        "conta "@ + debug_quoted(name) + " não existe. Contas Command Code: "@ + join(sorted, ", "@)
            + "."@
    }
}

/// The saved login called `name`: `ledger.get("accounts").and_then(|a| a.get(name))`.
pub open spec fn saved(ledger: JsonView, name: Seq<char>) -> Option<JsonView> {
    match get(ledger, "accounts"@) {
        Some(accounts) => get(accounts, name),
        None => None,
    }
}

/// The ledger, or an empty one when the file does not exist yet.
pub fn ledger_at(read: JsonRead) -> (r: Result<JsonValue, String>)
    ensures
        parsed_view(r) == ledger_of(read_view(read)),
{
    match read {
        Ok(Some(v)) => Ok(v),
        Ok(None) => {
            let none: Vec<(String, JsonValue)> = Vec::new();
            proof {
                lemma_object_view(none);
                assert(members_view(none@) =~= Seq::empty());
            }
            let accounts = JsonValue::Object(none);
            let mut members: Vec<(String, JsonValue)> = Vec::new();
            members.push((owned("accounts"), accounts));
            members.push((owned("version"), JsonValue::Number(JsonNumber::PosInt(1))));
            proof {
                lemma_object_view(members);
                assert(members_view(members@) =~= empty_ledger()->Object_0);
            }
            Ok(JsonValue::Object(members))
        },
        Err(e) => Err(e),
    }
}

/// The members of the ledger's `accounts` object, if it has one.
fn entries_of(ledger: &JsonValue) -> (r: Option<&Vec<(String, JsonValue)>>)
    ensures
        r matches Some(ms) ==> entries(ledger@) == members_view(ms@),
        r is None ==> entries(ledger@) == Seq::<(Seq<char>, JsonView)>::empty(),
{
    match ledger.get("accounts") {
        Some(accounts) => accounts.as_object(),
        None => None,
    }
}

/// The non-empty `apiKey` of the live login.
fn live_key_of(live: &JsonRead) -> (r: Option<String>)
    ensures
        r matches Some(k) ==> live_key(read_view(*live)) == Some(k@),
        r is None ==> live_key(read_view(*live)) is None,
{
    match live {
        Ok(Some(v)) => match v.get("apiKey") {
            Some(k) => match k.as_str() {
                Some(s) => if !s.as_str().is_empty() {
                    Some(s.clone())
                } else {
                    None
                },
                None => None,
            },
            None => None,
        },
        _ => None,
    }
}

/// The logins saved in the ledger, by name, with the one in use marked.
pub fn list(stores: &Stores) -> (r: Result<Vec<Account>, String>)
    ensures
        match ledger_of(read_view(stores.ledger)) {
            Err(e) => r is Err && r->Err_0@ == e,
            Ok(l) => r is Ok && sorted_by_name(
                accounts_view(r->Ok_0@),
                rows(l, live_key(read_view(stores.live))),
            ),
        },
{
    let ledger = match &stores.ledger {
        Ok(Some(v)) => v.duplicate(),
        Ok(None) => {
            let e = ledger_at(Ok(None));
            match e {
                Ok(v) => v,
                Err(m) => return Err(m),
            }
        },
        Err(e) => return Err(e.clone()),
    };
    let key = live_key_of(&stores.live);
    let ghost l = ledger@;
    let ghost rs = rows(l, live_key(read_view(stores.live)));
    let mut accounts: Vec<Account> = Vec::new();
    if let Some(ms) = entries_of(&ledger) {
        let mut i: usize = 0;
        while i < ms.len()
            invariant
                i <= ms@.len(),
                entries(l) == members_view(ms@),
                rs == rows(l, live_key(read_view(stores.live))),
                key matches Some(k) ==> live_key(read_view(stores.live)) == Some(k@),
                key is None ==> live_key(read_view(stores.live)) is None,
                accounts@.len() == i,
                forall|k: int| 0 <= k < i ==> #[trigger] accounts@[k]@ == rs[k],
            decreases ms@.len() - i,
        {
            let entry_key = match ms[i].1.get("apiKey") {
                Some(k) => k.as_str(),
                None => None,
            };
            let active = match (&key, entry_key) {
                (Some(a), Some(b)) => str_eq(a.as_str(), b.as_str()),
                _ => false,
            };
            accounts.push(Account { name: ms[i].0.clone(), active });
            i += 1;
        }
    }
    proof {
        assert(accounts_view(accounts@) =~= rs);
    }
    Ok(sort_by_name(accounts))
}

/// `conta "<name>" não existe.` followed by the saved names in order, or by the notice that
/// there are none.
fn not_found(name: &str, ledger: &JsonValue) -> (r: String)
    ensures
        exists|sorted: Seq<Seq<char>>|
            sorted_permutation(sorted, names(ledger@)) && r@ == not_found_message(name@, sorted),
{
    let mut list: Vec<String> = Vec::new();
    let ghost ns = names(ledger@);
    if let Some(ms) = entries_of(ledger) {
        let mut i: usize = 0;
        while i < ms.len()
            invariant
                i <= ms@.len(),
                entries(ledger@) == members_view(ms@),
                ns == names(ledger@),
                list@.len() == i,
                forall|k: int| 0 <= k < i ==> #[trigger] list@[k]@ == ns[k],
            decreases ms@.len() - i,
        {
            list.push(ms[i].0.clone());
            i += 1;
        }
    }
    assert(string_views(list@) =~= ns);
    let sorted = sort_strings(list);
    let ghost sv = string_views(sorted@);
    let q = quoted(name);
    let r = if sorted.len() == 0 {
        let head = concat3("conta ", q.as_str(), " não existe. ");
        concat2(head.as_str(), MISSING_LEDGER)
    } else {
        let joined = join_strings(&sorted, ", ");
        let head = concat3("conta ", q.as_str(), " não existe. Contas Command Code: ");
        concat3(head.as_str(), joined.as_str(), ".")
    };
    assert(sorted_permutation(sv, names(ledger@)) && r@ == not_found_message(name@, sv));
    r
}

/// Points the ledger's `active` field at `name` and copies that login over the live file, in
/// that order, exactly like `ccs switch`: the files to write, in the order to write them.
pub fn switch(stores: Stores, name: &str) -> (r: Result<Vec<FileWrite>, String>)
    ensures
        match ledger_of(read_view(stores.ledger)) {
            Err(e) => r is Err && r->Err_0@ == e,
            Ok(l) => match saved(l, name@) {
                None => r is Err && exists|sorted: Seq<Seq<char>>|
                    sorted_permutation(sorted, names(l)) && r->Err_0@ == not_found_message(
                        name@,
                        sorted,
                    ),
                Some(account) => r is Ok && writes_view(r->Ok_0@) == seq![
                    (StoreFile::CommandCodeLedger, with_member(l, "active"@, JsonView::Str(name@))),
                    (StoreFile::LiveAuth, account),
                ],
            },
        },
{
    let mut ledger = match ledger_at(stores.ledger) {
        Ok(v) => v,
        Err(e) => return Err(e),
    };
    let account = match ledger.get("accounts") {
        Some(accounts) => match accounts.get(name) {
            Some(a) => a.duplicate(),
            None => return Err(not_found(name, &ledger)),
        },
        None => return Err(not_found(name, &ledger)),
    };
    let ghost l = ledger@;
    let ghost acc = account@;
    ledger.set("active", string_value(name));
    let mut writes: Vec<FileWrite> = Vec::new();
    writes.push(FileWrite { file: StoreFile::CommandCodeLedger, contents: ledger });
    writes.push(FileWrite { file: StoreFile::LiveAuth, contents: account });
    assert(writes_view(writes@) =~= seq![
        (StoreFile::CommandCodeLedger, with_member(l, "active"@, JsonView::Str(name@))),
        (StoreFile::LiveAuth, acc),
    ]);
    Ok(writes)
}

/// Law: a switch keeps every saved login and marks the one switched to as in use. Once the
/// ledger and the live file that `switch` writes are in place, the ledger holds the same logins
/// in the same order, and the row of `name` is active whenever its saved `apiKey` is a
/// non-empty string.
pub proof fn lemma_switch_then_list(ledger: JsonView, name: Seq<char>)
    requires
        saved(ledger, name) is Some,
    ensures
        entries(with_member(ledger, "active"@, JsonView::Str(name))) == entries(ledger),
        live_key(Ok(Some(saved(ledger, name)->Some_0))) is Some ==> exists|i: int|
            0 <= i < rows(
                with_member(ledger, "active"@, JsonView::Str(name)),
                live_key(Ok(Some(saved(ledger, name)->Some_0))),
            ).len() && #[trigger] rows(
                with_member(ledger, "active"@, JsonView::Str(name)),
                live_key(Ok(Some(saved(ledger, name)->Some_0))),
            )[i] == (name, true),
{
    reveal_strlit("active");
    reveal_strlit("accounts");
    assert("active"@.len() != "accounts"@.len());
    let switched = with_member(ledger, "active"@, JsonView::Str(name));
    lemma_with_member_get(ledger, "active"@, JsonView::Str(name), "accounts"@);
    let account = saved(ledger, name)->Some_0;
    let live = live_key(Ok::<Option<JsonView>, Seq<char>>(Some(account)));
    let ms = entries(ledger);
    lemma_member_index(ms, name);
    if live is Some {
        let i = member_index(ms, name)->Some_0;
        assert(rows(switched, live)[i] == (name, true));
    }
}

} // verus!

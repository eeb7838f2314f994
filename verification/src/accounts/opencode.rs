//! OpenCode Go accounts: `account.json` (version 2) is the store of saved credentials and the
//! live `auth.json` holds, per service, the credential the client uses. Only the
//! `opencode-go` service is touched; the account in use is the one that `active["opencode-go"]`
//! names.

use vstd::prelude::*;
use crate::json::{JsonValue, JsonView, NumberView, get, get_str, get_u64, as_object, with_member,
    member, is_object_or_null, members_view, lemma_object_view, string_value, to_debug,
    debug_text, lemma_member_index, member_index, lemma_with_member_get};
use crate::order::{sort_strings, sorted_permutation, string_views};
use crate::text::{debug_quoted, quoted, join, join_strings, concat2, concat3, owned, str_eq,
    decimal, decimal_text};
use super::{Account, JsonRead, read_view, sorted_by_name, sort_by_name, accounts_view, FileWrite,
    StoreFile, writes_view};
use super::grok::text_of;

verus! {

/// The service whose credentials this store switches.
pub const SERVICE: &'static str = "opencode-go";

/// The two files of the OpenCode store, as read, and how their paths are displayed.
pub struct Stores {
    /// `account.json`.
    pub store: JsonRead,
    /// `auth.json`.
    pub live: JsonRead,
    /// The path of `account.json`, as displayed.
    pub store_path: String,
    /// The path of `auth.json`, as displayed.
    pub auth_path: String,
    /// The directory of `auth.json` (`.` when it has none), as displayed.
    pub auth_dir: String,
}

/// The message when the store or the live file is missing.
pub open spec fn missing_message(dir: Seq<char>) -> Seq<char> {
    "não achei o store do OpenCode em "@ + dir
        + ". Abra o OpenCode uma vez ou rode opencode auth login."@
}

/// The store, refusing anything that is not the version 2 shape the clients write.
pub open spec fn store_of(
    read: Result<Option<JsonView>, Seq<char>>,
    store_path: Seq<char>,
    auth_dir: Seq<char>,
) -> Result<JsonView, Seq<char>> {
    match read {
        Err(e) => Err(e),
        Ok(None) => Err(missing_message(auth_dir)),
        Ok(Some(v)) => if get_u64(v, "version"@) == Some(2u64) {
            Ok(v)
        } else {
            Err(
                store_path + " não é um JSON v2 válido: version "@ + debug_text(
                    match get(v, "version"@) {
                        Some(x) => x,
                        None => JsonView::Null,
                    },
                ),
            )
        },
    }
}

/// The live credentials: the members of the live file, which must exist and be an object.
pub open spec fn live_of(
    read: Result<Option<JsonView>, Seq<char>>,
    auth_path: Seq<char>,
    auth_dir: Seq<char>,
) -> Result<Seq<(Seq<char>, JsonView)>, Seq<char>> {
    match read {
        Err(e) => Err(e),
        Ok(None) => Err(missing_message(auth_dir)),
        Ok(Some(v)) => match as_object(v) {
            Some(ms) => Ok(ms),
            None => Err(auth_path + " não é um JSON válido"@),
        },
    }
}

/// Whether a saved account belongs to the `opencode-go` service.
pub open spec fn is_go(account: JsonView) -> bool {
    get_str(account, "serviceID"@) == Some(SERVICE@)
}

/// The members of the store's `accounts` object.
pub open spec fn store_members(store: JsonView) -> Seq<(Seq<char>, JsonView)> {
    match get(store, "accounts"@) {
        Some(accounts) => match as_object(accounts) {
            Some(ms) => ms,
            None => Seq::empty(),
        },
        None => Seq::empty(),
    }
}

/// The `opencode-go` accounts among `members`, in order.
pub open spec fn go_members(members: Seq<(Seq<char>, JsonView)>) -> Seq<(Seq<char>, JsonView)>
    decreases members.len(),
{
    if members.len() == 0 {
        Seq::empty()
    } else {
        let rest = go_members(members.drop_last());
        if is_go(members.last().1) {
            rest.push(members.last())
        } else {
            rest
        }
    }
}

/// The `opencode-go` accounts of the store, in order, by id.
pub open spec fn go_accounts(store: JsonView) -> Seq<(Seq<char>, JsonView)> {
    go_members(store_members(store))
}

/// The description an account is listed under.
pub open spec fn description(account: JsonView) -> Seq<char> {
    text_of(account, "description"@)
}

/// The id that `active["opencode-go"]` names.
pub open spec fn active_id(store: JsonView) -> Option<Seq<char>> {
    match get(store, "active"@) {
        Some(a) => get_str(a, SERVICE@),
        None => None,
    }
}

/// One row per `opencode-go` account, in store order: its description, and whether it is the
/// active one.
pub open spec fn rows(store: JsonView) -> Seq<(Seq<char>, bool)> {
    let go = go_accounts(store);
    Seq::new(go.len(), |i: int| (description(go[i].1), active_id(store) == Some(go[i].0)))
}

/// The descriptions of the `opencode-go` accounts, in store order.
pub open spec fn descriptions(store: JsonView) -> Seq<Seq<char>> {
    let go = go_accounts(store);
    Seq::new(go.len(), |i: int| description(go[i].1))
}

/// The accounts among `members` whose description is `name`, in order.
pub open spec fn named(members: Seq<(Seq<char>, JsonView)>, name: Seq<char>) -> Seq<(Seq<char>, JsonView)>
    decreases members.len(),
{
    if members.len() == 0 {
        Seq::empty()
    } else {
        let rest = named(members.drop_last(), name);
        if description(members.last().1) == name {
            rest.push(members.last())
        } else {
            rest
        }
    }
}

/// The message for a switch to a description that no account has.
pub open spec fn not_found_message(name: Seq<char>, sorted: Seq<Seq<char>>) -> Seq<char> {
    if sorted.len() == 0 {
        "conta "@ + debug_quoted(name) + " não existe. não há contas Go"@
    } else {
        "conta "@ + debug_quoted(name) + " não existe. Contas Go: "@ + join(sorted, ", "@) + "."@
    }
}

/// The message for a switch to a description that several accounts share.
pub open spec fn duplicate_message(count: nat, name: Seq<char>) -> Seq<char> {
    "há "@ + decimal(count) + " contas Go chamadas "@ + debug_quoted(name)
        + ". Renomeie a ativa com ocgs save <nome-único>."@
}

/// The live members with the `opencode-go` credential replaced by `credential`.
pub open spec fn replaced_credential(
    live: Seq<(Seq<char>, JsonView)>,
    credential: JsonView,
) -> JsonView {
    with_member(JsonView::Object(live), SERVICE@, credential)
}

/// The store with `active["opencode-go"]` set to `id`.
pub open spec fn activated(store: JsonView, id: Seq<char>) -> JsonView {
    let active = match get(store, "active"@) {
        Some(a) => a,
        None => JsonView::Null,
    };
    with_member(store, "active"@, with_member(active, SERVICE@, JsonView::Str(id)))
}

/// Whether a switch to `name` reaches `credentials["opencode-go"] = ..` or
/// `store["active"]["opencode-go"] = ..` on a value where serde_json panics: a live file
/// without an `opencode-go` entry, or an `active` field that is neither an object nor null.
pub open spec fn switch_panics(
    store: Result<JsonView, Seq<char>>,
    live: Result<Seq<(Seq<char>, JsonView)>, Seq<char>>,
    name: Seq<char>,
) -> bool {
    match store {
        Ok(s) => {
            let found = named(go_accounts(s), name);
            found.len() == 1 && match live {
                Ok(ms) => get(found[0].1, "credential"@) is Some && (member(ms, SERVICE@) is None
                    || match get(s, "active"@) {
                    Some(a) => !is_object_or_null(a),
                    None => false,
                }),
                Err(_) => false,
            }
        },
        Err(_) => false,
    }
}

/// The store, checked to be the version 2 shape.
fn store_at(stores: &Stores) -> (r: Result<JsonValue, String>)
    ensures
        match r {
            Ok(v) => store_of(read_view(stores.store), stores.store_path@, stores.auth_dir@)
                == Ok::<JsonView, Seq<char>>(v@),
            Err(e) => store_of(read_view(stores.store), stores.store_path@, stores.auth_dir@)
                == Err::<JsonView, Seq<char>>(e@),
        },
{
    let v = match &stores.store {
        Err(e) => return Err(e.clone()),
        Ok(None) => return Err(missing(stores.auth_dir.as_str())),
        Ok(Some(v)) => v,
    };
    let version = match v.get("version") {
        Some(x) => x.as_u64(),
        None => None,
    };
    if version == Some(2u64) {
        Ok(v.duplicate())
    } else {
        let shown = match v.get("version") {
            Some(x) => to_debug(x),
            None => to_debug(&JsonValue::Null),
        };
        let head = concat2(stores.store_path.as_str(), " não é um JSON v2 válido: version ");
        Err(concat2(head.as_str(), shown.as_str()))
    }
}

/// The message when the store or the live file is missing.
fn missing(dir: &str) -> (r: String)
    ensures
        r@ == missing_message(dir@),
{
    concat3(
        "não achei o store do OpenCode em ",
        dir,
        ". Abra o OpenCode uma vez ou rode opencode auth login.",
    )
}

/// The `opencode-go` accounts of the store, by id.
fn go_accounts_of(store: &JsonValue) -> (r: Vec<(String, JsonValue)>)
    ensures
        members_view(r@) == go_accounts(store@),
{
    let mut out: Vec<(String, JsonValue)> = Vec::new();
    let members = match store.get("accounts") {
        Some(a) => a.as_object(),
        None => None,
    };
    match members {
        Some(ms) => {
            let ghost mv = members_view(ms@);
            let mut i: usize = 0;
            while i < ms.len()
                invariant
                    i <= ms@.len(),
                    mv == members_view(ms@),
                    mv == store_members(store@),
                    members_view(out@) == go_members(mv.take(i as int)),
                decreases ms@.len() - i,
            {
                proof {
                    assert(mv.take(i + 1).drop_last() =~= mv.take(i as int));
                    assert(mv.take(i + 1).last() == mv[i as int]);
                }
                let service = match ms[i].1.get("serviceID") {
                    Some(x) => x.as_str(),
                    None => None,
                };
                let go = match service {
                    Some(s) => str_eq(s.as_str(), SERVICE),
                    None => false,
                };
                if go {
                    let ghost before = members_view(out@);
                    out.push((ms[i].0.clone(), ms[i].1.duplicate()));
                    assert(members_view(out@) =~= before.push(mv[i as int]));
                }
                i += 1;
            }
            assert(mv.take(ms@.len() as int) =~= mv);
        },
        None => {
            assert(members_view(out@) =~= Seq::empty());
        },
    }
    out
}

/// The description an account is listed under.
fn description_of(account: &JsonValue) -> (r: String)
    ensures
        r@ == description(account@),
{
    match account.get("description") {
        Some(v) => match v.as_str() {
            Some(s) => s.clone(),
            None => String::new(),
        },
        None => String::new(),
    }
}

/// The `opencode-go` accounts, by description, with the active one marked.
pub fn list(stores: &Stores) -> (r: Result<Vec<Account>, String>)
    ensures
        match store_of(read_view(stores.store), stores.store_path@, stores.auth_dir@) {
            Err(e) => r is Err && r->Err_0@ == e,
            Ok(s) => r is Ok && sorted_by_name(accounts_view(r->Ok_0@), rows(s)),
        },
{
    let store = match store_at(stores) {
        Ok(s) => s,
        Err(e) => return Err(e),
    };
    let active = match store.get("active") {
        Some(a) => match a.get(SERVICE) {
            Some(id) => id.as_str(),
            None => None,
        },
        None => None,
    };
    let go = go_accounts_of(&store);
    let ghost gv = members_view(go@);
    let ghost rs = rows(store@);
    let mut accounts: Vec<Account> = Vec::new();
    let mut i: usize = 0;
    while i < go.len()
        invariant
            i <= go@.len(),
            gv == members_view(go@),
            gv == go_accounts(store@),
            rs == rows(store@),
            active matches Some(a) ==> active_id(store@) == Some(a@),
            active is None ==> active_id(store@) is None,
            accounts@.len() == i,
            forall|k: int| 0 <= k < i ==> #[trigger] accounts@[k]@ == rs[k],
        decreases go@.len() - i,
    {
        let is_active = match active {
            Some(a) => str_eq(a.as_str(), go[i].0.as_str()),
            None => false,
        };
        accounts.push(Account { name: description_of(&go[i].1), active: is_active });
        i += 1;
    }
    assert(accounts_view(accounts@) =~= rs);
    Ok(sort_by_name(accounts))
}

/// `conta "<name>" não existe.` followed by the descriptions in order, or by the notice that
/// there are none.
fn not_found(name: &str, store: &JsonValue) -> (r: String)
    ensures
        exists|sorted: Seq<Seq<char>>|
            sorted_permutation(sorted, descriptions(store@)) && r@ == not_found_message(
                name@,
                sorted,
            ),
{
    let go = go_accounts_of(store);
    let ghost ds = descriptions(store@);
    let mut list: Vec<String> = Vec::new();
    let mut i: usize = 0;
    while i < go.len()
        invariant
            i <= go@.len(),
            members_view(go@) == go_accounts(store@),
            ds == descriptions(store@),
            list@.len() == i,
            forall|k: int| 0 <= k < i ==> #[trigger] list@[k]@ == ds[k],
        decreases go@.len() - i,
    {
        list.push(description_of(&go[i].1));
        i += 1;
    }
    assert(string_views(list@) =~= ds);
    let sorted = sort_strings(list);
    let ghost sv = string_views(sorted@);
    let q = quoted(name);
    let r = if sorted.len() == 0 {
        concat3("conta ", q.as_str(), " não existe. não há contas Go")
    } else {
        let joined = join_strings(&sorted, ", ");
        let head = concat3("conta ", q.as_str(), " não existe. Contas Go: ");
        concat3(head.as_str(), joined.as_str(), ".")
    };
    assert(sorted_permutation(sv, descriptions(store@)) && r@ == not_found_message(name@, sv));
    r
}

/// Points `active["opencode-go"]` at the account described as `name` and puts its credential
/// in the live file, leaving the other services alone: the files to write, in the order to
/// write them.
pub fn switch(stores: Stores, name: &str) -> (r: Result<Vec<FileWrite>, String>)
    requires
        !switch_panics(
            store_of(read_view(stores.store), stores.store_path@, stores.auth_dir@),
            live_of(read_view(stores.live), stores.auth_path@, stores.auth_dir@),
            name@,
        ),
    ensures
        match store_of(read_view(stores.store), stores.store_path@, stores.auth_dir@) {
            Err(e) => r is Err && r->Err_0@ == e,
            Ok(s) => {
                let found = named(go_accounts(s), name@);
                if found.len() == 0 {
                    r is Err && exists|sorted: Seq<Seq<char>>|
                        sorted_permutation(sorted, descriptions(s)) && r->Err_0@
                            == not_found_message(name@, sorted)
                } else if found.len() > 1 {
                    r is Err && r->Err_0@ == duplicate_message(found.len(), name@)
                } else {
                    match live_of(read_view(stores.live), stores.auth_path@, stores.auth_dir@) {
                        Err(e) => r is Err && r->Err_0@ == e,
                        Ok(ms) => match get(found[0].1, "credential"@) {
                            None => r is Err && r->Err_0@ == "conta "@ + debug_quoted(name@)
                                + " não tem credencial salva"@,
                            Some(c) => r is Ok && writes_view(r->Ok_0@) == seq![
                                (StoreFile::OpenCodeStore, activated(s, found[0].0)),
                                (StoreFile::LiveAuth, replaced_credential(ms, c)),
                            ],
                        },
                    }
                }
            },
        },
{
    let mut store = match store_at(&stores) {
        Ok(s) => s,
        Err(e) => return Err(e),
    };
    let ghost s = store@;
    let go = go_accounts_of(&store);
    let ghost gv = members_view(go@);
    let mut found: Vec<(String, JsonValue)> = Vec::new();
    let mut i: usize = 0;
    while i < go.len()
        invariant
            i <= go@.len(),
            gv == members_view(go@),
            members_view(found@) == named(gv.take(i as int), name@),
        decreases go@.len() - i,
    {
        proof {
            assert(gv.take(i + 1).drop_last() =~= gv.take(i as int));
            assert(gv.take(i + 1).last() == gv[i as int]);
        }
        let d = description_of(&go[i].1);
        if str_eq(d.as_str(), name) {
            let ghost before = members_view(found@);
            found.push((go[i].0.clone(), go[i].1.duplicate()));
            assert(members_view(found@) =~= before.push(gv[i as int]));
        }
        i += 1;
    }
    assert(gv.take(go@.len() as int) =~= gv);
    let ghost fv = members_view(found@);
    if found.len() == 0 {
        return Err(not_found(name, &store));
    }
    if found.len() > 1 {
        let n = decimal_text(found.len());
        let q = quoted(name);
        let head = concat3("há ", n.as_str(), " contas Go chamadas ");
        let tail = concat2(q.as_str(), ". Renomeie a ativa com ocgs save <nome-único>.");
        return Err(concat2(head.as_str(), tail.as_str()));
    }
    let (id, account) = found.pop().unwrap();
    assert(id@ == fv[0].0 && account@ == fv[0].1);
    let live_members = match &stores.live {
        Err(e) => return Err(e.clone()),
        Ok(None) => return Err(missing(stores.auth_dir.as_str())),
        Ok(Some(v)) => match v.as_object() {
            Some(ms) => ms,
            None => return Err(concat2(stores.auth_path.as_str(), " não é um JSON válido")),
        },
    };
    let ghost lm = members_view(live_members@);
    let credential = match account.get("credential") {
        Some(c) => c.duplicate(),
        None => {
            let q = quoted(name);
            return Err(concat3("conta ", q.as_str(), " não tem credencial salva"));
        },
    };
    let mut copied: Vec<(String, JsonValue)> = Vec::new();
    let mut k: usize = 0;
    while k < live_members.len()
        invariant
            k <= live_members@.len(),
            lm == members_view(live_members@),
            members_view(copied@) == lm.take(k as int),
        decreases live_members@.len() - k,
    {
        let ghost before = members_view(copied@);
        copied.push((live_members[k].0.clone(), live_members[k].1.duplicate()));
        assert(members_view(copied@) =~= before.push(lm[k as int]));
        assert(lm.take(k + 1) =~= lm.take(k as int).push(lm[k as int]));
        k += 1;
    }
    assert(lm.take(live_members@.len() as int) =~= lm);
    proof {
        lemma_object_view(copied);
    }
    let mut live = JsonValue::Object(copied);
    proof {
        lemma_member_index(lm, SERVICE@);
    }
    live.set(SERVICE, credential);
    let mut active = match store.get("active") {
        Some(a) => a.duplicate(),
        None => JsonValue::Null,
    };
    active.set(SERVICE, string_value(id.as_str()));
    store.set("active", active);
    let mut writes: Vec<FileWrite> = Vec::new();
    let ghost store_view = store@;
    let ghost live_view = live@;
    writes.push(FileWrite { file: StoreFile::OpenCodeStore, contents: store });
    writes.push(FileWrite { file: StoreFile::LiveAuth, contents: live });
    assert(writes_view(writes@) =~= seq![
        (StoreFile::OpenCodeStore, store_view),
        (StoreFile::LiveAuth, live_view),
    ]);
    Ok(writes)
}

/// Each account that `named` finds is one of `members`, with that description.
proof fn lemma_named_in(members: Seq<(Seq<char>, JsonView)>, name: Seq<char>)
    ensures
        forall|k: int|
            0 <= k < named(members, name).len() ==> exists|j: int|
                0 <= j < members.len() && members[j] == #[trigger] named(members, name)[k]
                    && description(members[j].1) == name,
    decreases members.len(),
{
    if members.len() > 0 {
        let rest = members.drop_last();
        lemma_named_in(rest, name);
        assert forall|k: int| 0 <= k < named(members, name).len() implies exists|j: int|
            0 <= j < members.len() && members[j] == #[trigger] named(members, name)[k]
                && description(members[j].1) == name by {
            if k < named(rest, name).len() {
                let j = choose|j: int|
                    0 <= j < rest.len() && rest[j] == #[trigger] named(rest, name)[k]
                        && description(rest[j].1) == name;
                assert(members[j] == rest[j]);
            } else {
                assert(members[members.len() - 1] == named(members, name)[k]);
            }
        }
    }
}

/// Law: a switch keeps every Go account and makes the one switched to the active one. Once
/// the store that `switch` writes is in place, it is still a version 2 store, it holds the
/// same Go accounts in the same order, `active["opencode-go"]` names the account switched to,
/// and its row, under `name`, is active.
pub proof fn lemma_switch_then_list(store: JsonView, name: Seq<char>)
    requires
        get_u64(store, "version"@) == Some(2u64),
        named(go_accounts(store), name).len() == 1,
        match get(store, "active"@) {
            Some(a) => is_object_or_null(a),
            None => true,
        },
    ensures
        get_u64(activated(store, named(go_accounts(store), name)[0].0), "version"@) == Some(2u64),
        go_accounts(activated(store, named(go_accounts(store), name)[0].0)) == go_accounts(store),
        active_id(activated(store, named(go_accounts(store), name)[0].0)) == Some(
            named(go_accounts(store), name)[0].0,
        ),
        exists|i: int|
            0 <= i < rows(activated(store, named(go_accounts(store), name)[0].0)).len()
                && #[trigger] rows(activated(store, named(go_accounts(store), name)[0].0))[i] == (
                name,
                true,
            ),
{
    reveal_strlit("active");
    reveal_strlit("accounts");
    reveal_strlit("version");
    assert("active"@.len() != "accounts"@.len());
    assert("active"@ != "version"@) by {
        assert("active"@[0] != "version"@[0]);
    }
    let go = go_accounts(store);
    let id = named(go, name)[0].0;
    let active = match get(store, "active"@) {
        Some(a) => a,
        None => JsonView::Null,
    };
    let switched = activated(store, id);
    lemma_with_member_get(store, "active"@, with_member(active, SERVICE@, JsonView::Str(id)), "accounts"@);
    lemma_with_member_get(store, "active"@, with_member(active, SERVICE@, JsonView::Str(id)), "version"@);
    lemma_with_member_get(active, SERVICE@, JsonView::Str(id), SERVICE@);
    assert(store_members(switched) == store_members(store));
    lemma_named_in(go, name);
    let j = choose|j: int| 0 <= j < go.len() && go[j] == #[trigger] named(go, name)[0]
        && description(go[j].1) == name;
    assert(rows(switched)[j] == (name, true));
}

/// Whether `switch(stores, name)` would reach one of the assignments on which serde_json
/// panics (see [`switch_panics`]); `switch` may only be called when it would not.
pub fn switch_would_panic(stores: &Stores, name: &str) -> (r: bool)
    ensures
        r == switch_panics(
            store_of(read_view(stores.store), stores.store_path@, stores.auth_dir@),
            live_of(read_view(stores.live), stores.auth_path@, stores.auth_dir@),
            name@,
        ),
{
    let store = match store_at(stores) {
        Ok(s) => s,
        Err(_) => return false,
    };
    let go = go_accounts_of(&store);
    let ghost gv = members_view(go@);
    let mut found: Vec<(String, JsonValue)> = Vec::new();
    let mut i: usize = 0;
    while i < go.len()
        invariant
            i <= go@.len(),
            gv == members_view(go@),
            members_view(found@) == named(gv.take(i as int), name@),
        decreases go@.len() - i,
    {
        proof {
            assert(gv.take(i + 1).drop_last() =~= gv.take(i as int));
            assert(gv.take(i + 1).last() == gv[i as int]);
        }
        let d = description_of(&go[i].1);
        if str_eq(d.as_str(), name) {
            let ghost before = members_view(found@);
            found.push((go[i].0.clone(), go[i].1.duplicate()));
            assert(members_view(found@) =~= before.push(gv[i as int]));
        }
        i += 1;
    }
    assert(gv.take(go@.len() as int) =~= gv);
    if found.len() != 1 {
        return false;
    }
    let live_members = match &stores.live {
        Ok(Some(v)) => match v.as_object() {
            Some(ms) => ms,
            None => return false,
        },
        _ => return false,
    };
    if found[0].1.get("credential").is_none() {
        return false;
    }
    proof {
        lemma_member_index(members_view(live_members@), SERVICE@);
    }
    let mut has_service = false;
    let mut k: usize = 0;
    while k < live_members.len()
        invariant
            k <= live_members@.len(),
            has_service == exists|j: int| 0 <= j < k && #[trigger] live_members@[j].0@ == SERVICE@,
        decreases live_members@.len() - k,
    {
        if str_eq(live_members[k].0.as_str(), SERVICE) {
            has_service = true;
        }
        k += 1;
    }
    proof {
        let ms = members_view(live_members@);
        assert forall|j: int| 0 <= j < ms.len() implies ms[j].0 == live_members@[j].0@ by {}
        if has_service {
            let j = choose|j: int| 0 <= j < live_members@.len() && #[trigger] live_members@[j].0@
                == SERVICE@;
            assert(ms[j].0 == SERVICE@);
        }
    }
    if !has_service {
        return true;
    }
    match store.get("active") {
        Some(a) => !(a.as_object().is_some() || a.is_null()),
        None => false,
    }
}

} // verus!

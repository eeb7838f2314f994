//! Account switching for the three tools. Each tool keeps a store of saved logins plus the
//! live credential file its command-line client reads. This module decides, from the contents
//! of those files, which logins exist, which one is in use, and what a switch writes; reading
//! and writing the files is left to the caller.

pub mod commandcode;
pub mod grok;
pub mod opencode;

use vstd::prelude::*;
use crate::json::{JsonValue, JsonView, json_text, parse};
use crate::order::{SortKey, stable_sort, stable_permutation, sorted_by_key};
use crate::text::{lex_le, concat3};

verus! {

/// A saved login of one tool: its name and whether it is the one in use.
#[derive(Debug)]
pub struct Account {
    pub name: String,
    pub active: bool,
}

impl View for Account {
    type V = (Seq<char>, bool);

    open spec fn view(&self) -> (Seq<char>, bool) {
        (self.name@, self.active)
    }
}

impl SortKey for Account {
    open spec fn sort_key(&self) -> Seq<char> {
        self.name@
    }

    fn key_str(&self) -> (r: &str) {
        self.name.as_str()
    }
}

impl PartialEq for Account {
    fn eq(&self, other: &Account) -> (r: bool) {
        self.name == other.name && self.active == other.active
    }
}

impl vstd::std_specs::cmp::PartialEqSpecImpl for Account {
    open spec fn obeys_eq_spec() -> bool {
        true
    }

    open spec fn eq_spec(&self, other: &Account) -> bool {
        self.name@ == other.name@ && self.active == other.active
    }
}

/// The views of a list of accounts.
pub open spec fn accounts_view(s: Seq<Account>) -> Seq<(Seq<char>, bool)> {
    s.map_values(|a: Account| a@)
}

/// `r` is `rows` ordered by name as a stable sort orders them: names never decrease, every
/// row appears once, and rows with equal names keep their order.
pub open spec fn sorted_by_name(r: Seq<(Seq<char>, bool)>, rows: Seq<(Seq<char>, bool)>) -> bool {
    &&& forall|i: int, j: int| 0 <= i < j < r.len() ==> lex_le(r[i].0, r[j].0)
    &&& exists|perm: Seq<int>|
        #![trigger perm.len()]
        {
            &&& perm.len() == rows.len() && r.len() == rows.len()
            &&& forall|k: int| 0 <= k < perm.len() ==> 0 <= #[trigger] perm[k] < rows.len()
            &&& forall|k: int, l: int| 0 <= k < l < perm.len() ==> perm[k] != perm[l]
            &&& forall|k: int| 0 <= k < perm.len() ==> r[k] == rows[#[trigger] perm[k]]
            &&& forall|k: int, l: int|
                0 <= k < l < perm.len() && r[k].0 == r[l].0 ==> perm[k] < perm[l]
        }
}

/// `accounts.sort_by(|left, right| left.name.cmp(&right.name))`.
pub fn sort_by_name(v: Vec<Account>) -> (r: Vec<Account>)
    ensures
        sorted_by_name(accounts_view(r@), accounts_view(v@)),
{
    let ghost src = v@;
    let r = stable_sort(v);
    proof {
        let perm = choose|perm: Seq<int>| stable_permutation(r@, src, perm);
        let rv = accounts_view(r@);
        let sv = accounts_view(src);
        assert(perm.len() == sv.len());
        assert forall|k: int| 0 <= k < perm.len() implies rv[k] == sv[#[trigger] perm[k]] by {
            assert(r@[k] == src[perm[k]]);
        }
        assert forall|i: int, j: int| 0 <= i < j < rv.len() implies lex_le(rv[i].0, rv[j].0) by {
            assert(lex_le(r@[i].sort_key(), r@[j].sort_key()));
        }
    }
    r
}

/// A read of a JSON file: `Ok(None)` when the file does not exist, `Err` with the message
/// when it could not be read or is not valid JSON.
pub type JsonRead = Result<Option<JsonValue>, String>;

/// The value of a read of a JSON file.
pub open spec fn read_view(read: JsonRead) -> Result<Option<JsonView>, Seq<char>> {
    match read {
        Ok(Some(v)) => Ok(Some(v@)),
        Ok(None) => Ok(None),
        Err(e) => Err(e@),
    }
}

/// What `parse_json_file` gives for the text of the file at `path`.
pub open spec fn parsed_file(path: Seq<char>, text: Seq<char>) -> Result<JsonView, Seq<char>> {
    match json_text(text) {
        Ok(v) => Ok(v),
        Err(e) => Err(path + " não é um JSON válido: "@ + e),
    }
}

/// The JSON document in the text of the file at `path` (`path` as it is displayed), or the
/// message that says it is not valid JSON.
pub fn parse_json_file(path: &str, text: &str) -> (r: Result<JsonValue, String>)
    ensures
        match r {
            Ok(v) => parsed_file(path@, text@) == Ok::<JsonView, Seq<char>>(v@),
            Err(e) => parsed_file(path@, text@) == Err::<JsonView, Seq<char>>(e@),
        },
{
    match parse(text) {
        Ok(v) => Ok(v),
        Err(e) => Err(concat3(path, " não é um JSON válido: ", e.as_str())),
    }
}

/// The files of the account stores that a switch rewrites.
#[derive(Debug, Clone, Copy, PartialEq, Eq, Structural)]
pub enum StoreFile {
    /// The live credential file the tool's client reads (`auth.json`).
    LiveAuth,
    /// Command Code's ledger of saved logins (`ccs-accounts.json`).
    CommandCodeLedger,
    /// OpenCode's store of saved credentials (`account.json`).
    OpenCodeStore,
}

/// One file to write, with its new JSON contents.
#[derive(Debug)]
pub struct FileWrite {
    pub file: StoreFile,
    pub contents: JsonValue,
}

/// The value of a list of writes.
pub open spec fn writes_view(writes: Seq<FileWrite>) -> Seq<(StoreFile, JsonView)> {
    writes.map_values(|w: FileWrite| (w.file, w.contents@))
}

/// The store files of one tool, as read: which tool is meant is the variant.
pub enum AccountStores {
    CommandCode(commandcode::Stores),
    Grok(grok::Stores),
    OpenCode(opencode::Stores),
}

/// The logins saved for the tool whose stores are given, by name, with the one in use marked.
pub fn list(stores: &AccountStores) -> (r: Result<Vec<Account>, String>)
    ensures
        match stores {
            AccountStores::CommandCode(s) => match commandcode::ledger_of(read_view(s.ledger)) {
                Err(e) => r is Err && r->Err_0@ == e,
                Ok(l) => r is Ok && sorted_by_name(
                    accounts_view(r->Ok_0@),
                    commandcode::rows(l, commandcode::live_key(read_view(s.live))),
                ),
            },
            AccountStores::Grok(s) => match s.profiles {
                Err(e) => r is Err && r->Err_0@ == e@,
                Ok(ps) => r is Ok && sorted_by_name(
                    accounts_view(r->Ok_0@),
                    grok::rows(grok::ordered_profiles(ps@), grok::live_email(read_view(s.live))),
                ),
            },
            AccountStores::OpenCode(s) => match opencode::store_of(
                read_view(s.store),
                s.store_path@,
                s.auth_dir@,
            ) {
                Err(e) => r is Err && r->Err_0@ == e,
                Ok(st) => r is Ok && sorted_by_name(accounts_view(r->Ok_0@), opencode::rows(st)),
            },
        },
{
    match stores {
        AccountStores::CommandCode(s) => commandcode::list(s),
        AccountStores::Grok(s) => grok::list(s),
        AccountStores::OpenCode(s) => opencode::list(s),
    }
}

/// Whether switching the tool to `name` would reach a write on which serde_json panics (only
/// the OpenCode store can: see [`opencode::switch_panics`]).
pub open spec fn switch_panics(stores: AccountStores, name: Seq<char>) -> bool {
    match stores {
        AccountStores::OpenCode(s) => opencode::switch_panics(
            opencode::store_of(read_view(s.store), s.store_path@, s.auth_dir@),
            opencode::live_of(read_view(s.live), s.auth_path@, s.auth_dir@),
            name,
        ),
        _ => false,
    }
}

/// Whether switching the tool to `name` would reach a write on which serde_json panics; `switch`
/// may only be called when it would not.
pub fn switch_would_panic(stores: &AccountStores, name: &str) -> (r: bool)
    ensures
        r == switch_panics(*stores, name@),
{
    match stores {
        AccountStores::OpenCode(s) => opencode::switch_would_panic(s, name),
        _ => false,
    }
}

/// Points the tool at the saved login `name`: the files to write, in the order to write them
/// (each tool's `switch` says which).
pub fn switch(stores: AccountStores, name: &str) -> (r: Result<Vec<FileWrite>, String>)
    requires
        !switch_panics(stores, name@),
    ensures
        match stores {
            AccountStores::CommandCode(s) => match commandcode::ledger_of(read_view(s.ledger)) {
                Err(e) => r is Err && r->Err_0@ == e,
                Ok(l) => match commandcode::saved(l, name@) {
                    None => r is Err && exists|sorted: Seq<Seq<char>>|
                        crate::order::sorted_permutation(sorted, commandcode::names(l))
                            && r->Err_0@ == commandcode::not_found_message(name@, sorted),
                    Some(account) => r is Ok && writes_view(r->Ok_0@) == seq![
                        (
                            StoreFile::CommandCodeLedger,
                            crate::json::with_member(l, "active"@, JsonView::Str(name@)),
                        ),
                        (StoreFile::LiveAuth, account),
                    ],
                },
            },
            AccountStores::Grok(s) => match s.profiles {
                Err(e) => r is Err && r->Err_0@ == e@,
                Ok(ps) => match grok::first_match(grok::ordered_profiles(ps@), name@) {
                    None => r is Err && r->Err_0@ == "conta "@ + crate::text::debug_quoted(name@)
                        + " não existe"@,
                    Some(i) => match grok::ordered_profiles(ps@)[i].2 {
                        None => r is Err && r->Err_0@ == "perfil "@ + crate::text::debug_quoted(
                            grok::profile_name(grok::ordered_profiles(ps@)[i]),
                        ) + " não tem credencial salva"@,
                        Some(c) => r is Ok && writes_view(r->Ok_0@) == seq![(StoreFile::LiveAuth, c)],
                    },
                },
            },
            AccountStores::OpenCode(s) => match opencode::store_of(
                read_view(s.store),
                s.store_path@,
                s.auth_dir@,
            ) {
                Err(e) => r is Err && r->Err_0@ == e,
                Ok(st) => {
                    let found = opencode::named(opencode::go_accounts(st), name@);
                    if found.len() == 0 {
                        r is Err && exists|sorted: Seq<Seq<char>>|
                            crate::order::sorted_permutation(sorted, opencode::descriptions(st))
                                && r->Err_0@ == opencode::not_found_message(name@, sorted)
                    } else if found.len() > 1 {
                        r is Err && r->Err_0@ == opencode::duplicate_message(found.len(), name@)
                    } else {
                        match opencode::live_of(read_view(s.live), s.auth_path@, s.auth_dir@) {
                            Err(e) => r is Err && r->Err_0@ == e,
                            Ok(ms) => match crate::json::get(found[0].1, "credential"@) {
                                None => r is Err && r->Err_0@ == "conta "@
                                    + crate::text::debug_quoted(name@)
                                    + " não tem credencial salva"@,
                                Some(c) => r is Ok && writes_view(r->Ok_0@) == seq![
                                    (StoreFile::OpenCodeStore, opencode::activated(st, found[0].0)),
                                    (StoreFile::LiveAuth, opencode::replaced_credential(ms, c)),
                                ],
                            },
                        }
                    }
                },
            },
        },
{
    match stores {
        AccountStores::CommandCode(s) => commandcode::switch(s, name),
        AccountStores::Grok(s) => grok::switch(s, name),
        AccountStores::OpenCode(s) => opencode::switch(s, name),
    }
}

} // verus!

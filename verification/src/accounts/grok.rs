//! Grok accounts: the saved profiles under `<home>/accounts` (one JSON file each) plus the live
//! `<home>/auth.json`. The profile in use is the one whose e-mail matches the live file, and
//! switching copies the profile's credentials over it.

use vstd::prelude::*;
use crate::json::{JsonValue, JsonView, get, get_str, as_object, members_view};
use crate::text::{trim, lowercase, eq_ignore_ascii_case, starts_with, ends_with, lex_lt,
    debug_quoted, str_trim, to_lowercase, str_eq_ignore_ascii_case, str_starts_with,
    str_ends_with, str_lt, quoted, concat3, owned, lex_le, lemma_lex_total, lemma_lex_transitive};
use super::{Account, JsonRead, read_view, sorted_by_name, sort_by_name, accounts_view, FileWrite,
    StoreFile, writes_view};

verus! {

/// One saved profile: its alias, its e-mail and the credentials to copy over the live file.
#[derive(Debug)]
pub struct Profile {
    pub alias: String,
    pub email: String,
    pub credentials: Option<JsonValue>,
}

/// The value of a profile: alias, e-mail, credentials.
pub type ProfileView = (Seq<char>, Seq<char>, Option<JsonView>);

impl View for Profile {
    type V = ProfileView;

    open spec fn view(&self) -> ProfileView {
        (
            self.alias@,
            self.email@,
            match self.credentials {
                Some(c) => Some(c@),
                None => None,
            },
        )
    }
}

/// The name a profile is listed under: its trimmed alias, else its trimmed e-mail, else
/// `perfil`.
pub open spec fn profile_name(p: ProfileView) -> Seq<char> {
    if trim(p.0).len() > 0 {
        trim(p.0)
    } else if trim(p.1).len() > 0 {
        trim(p.1)
    } else {
        "perfil"@
    }
}

/// The trimmed, lowercased e-mail of a profile, when not empty.
pub open spec fn profile_email(p: ProfileView) -> Option<Seq<char>> {
    let e = lowercase(trim(p.1));
    if e.len() > 0 {
        Some(e)
    } else {
        None
    }
}

/// Whether `name` designates the profile: its alias or e-mail, trimmed, ignoring ASCII case.
pub open spec fn profile_matches(p: ProfileView, name: Seq<char>) -> bool {
    eq_ignore_ascii_case(trim(p.0), trim(name)) || eq_ignore_ascii_case(trim(p.1), trim(name))
}

impl Profile {
    /// The name the profile is listed under.
    pub fn name(&self) -> (r: String)
        ensures
            r@ == profile_name(self@),
    {
        let alias = str_trim(self.alias.as_str());
        if !alias.as_str().is_empty() {
            return alias;
        }
        let email = str_trim(self.email.as_str());
        if !email.as_str().is_empty() {
            return email;
        }
        owned("perfil")
    }

    /// The e-mail the profile logs in with, trimmed and lowercased, when not empty.
    pub fn email(&self) -> (r: Option<String>)
        ensures
            r matches Some(e) ==> profile_email(self@) == Some(e@),
            r is None ==> profile_email(self@) is None,
    {
        let trimmed = str_trim(self.email.as_str());
        let email = to_lowercase(trimmed.as_str());
        if !email.as_str().is_empty() {
            Some(email)
        } else {
            None
        }
    }

    /// Whether `name` designates this profile.
    pub fn matches(&self, name: &str) -> (r: bool)
        ensures
            r == profile_matches(self@, name@),
    {
        let wanted = str_trim(name);
        let alias = str_trim(self.alias.as_str());
        let email = str_trim(self.email.as_str());
        str_eq_ignore_ascii_case(alias.as_str(), wanted.as_str()) || str_eq_ignore_ascii_case(
            email.as_str(),
            wanted.as_str(),
        )
    }
}

/// Whether a directory entry is a profile: a file (not a directory) whose name does not start
/// with `.` and ends with `.json`.
pub fn is_profile_file(file_name: &str, is_dir: bool) -> (r: bool)
    ensures
        r == (!is_dir && !starts_with(file_name@, "."@) && ends_with(file_name@, ".json"@)),
{
    !(is_dir || str_starts_with(file_name, ".") || !str_ends_with(file_name, ".json"))
}

/// The text stored under `key`, or the empty text.
pub open spec fn text_of(value: JsonView, key: Seq<char>) -> Seq<char> {
    match get_str(value, key) {
        Some(s) => s,
        None => Seq::empty(),
    }
}

/// The profile a profile file holds: `alias`, `email`, and the `auth` credentials unless null.
pub open spec fn profile_of(value: JsonView) -> ProfileView {
    (
        text_of(value, "alias"@),
        text_of(value, "email"@),
        match get(value, "auth"@) {
            Some(a) => if a is Null {
                None
            } else {
                Some(a)
            },
            None => None,
        },
    )
}

fn text_at(value: &JsonValue, key: &str) -> (r: String)
    ensures
        r@ == text_of(value@, key@),
{
    match value.get(key) {
        Some(v) => match v.as_str() {
            Some(s) => s.clone(),
            None => String::new(),
        },
        None => String::new(),
    }
}

/// Reads a profile out of the contents of its file.
pub fn profile_from(value: &JsonValue) -> (r: Profile)
    ensures
        r@ == profile_of(value@),
{
    let credentials = match value.get("auth") {
        Some(a) => if a.is_null() {
            None
        } else {
            Some(a.duplicate())
        },
        None => None,
    };
    Profile { alias: text_at(value, "alias"), email: text_at(value, "email"), credentials }
}

/// The e-mail that the credential stored under `key` in the live file carries: trimmed,
/// non-empty, lowercased.
pub open spec fn email_at(live: JsonView, key: Seq<char>) -> Option<Seq<char>> {
    match get(live, key) {
        Some(credential) => match get_str(credential, "email"@) {
            Some(e) => if trim(e).len() > 0 {
                Some(lowercase(trim(e)))
            } else {
                None
            },
            None => None,
        },
        None => None,
    }
}

/// Among the keys of `members`, the least one whose credential carries an e-mail, with that
/// e-mail.
pub open spec fn least_email(live: JsonView, members: Seq<(Seq<char>, JsonView)>) -> Option<(Seq<char>, Seq<char>)>
    decreases members.len(),
{
    if members.len() == 0 {
        None
    } else {
        let prev = least_email(live, members.drop_last());
        let key = members.last().0;
        match email_at(live, key) {
            Some(e) => match prev {
                Some(p) => if lex_lt(key, p.0) {
                    Some((key, e))
                } else {
                    prev
                },
                None => Some((key, e)),
            },
            None => prev,
        }
    }
}

/// The e-mail of the live login: that of the first credential, by key order, that carries one.
pub open spec fn live_email(live: Result<Option<JsonView>, Seq<char>>) -> Option<Seq<char>> {
    match live {
        Ok(Some(v)) => match as_object(v) {
            Some(members) => match least_email(v, members) {
                Some(p) => Some(p.1),
                None => None,
            },
            None => None,
        },
        _ => None,
    }
}

/// `least_email` is the e-mail of a key whose credential carries one, and that key sorts at
/// or before every other key whose credential carries one; with no such key, there is none.
proof fn lemma_least_email(live: JsonView, members: Seq<(Seq<char>, JsonView)>)
    ensures
        least_email(live, members) is None ==> forall|j: int|
            0 <= j < members.len() ==> (#[trigger] email_at(live, members[j].0)) is None,
        least_email(live, members) matches Some(p) ==> exists|i: int|
            0 <= i < members.len() && members[i].0 == p.0 && #[trigger] email_at(live, members[i].0)
                == Some(p.1),
        least_email(live, members) matches Some(p) ==> forall|j: int|
            0 <= j < members.len() && (#[trigger] email_at(live, members[j].0)) is Some ==> lex_le(
                p.0,
                members[j].0,
            ),
    decreases members.len(),
{
    if members.len() > 0 {
        let rest = members.drop_last();
        lemma_least_email(live, rest);
        let key = members.last().0;
        assert forall|j: int| 0 <= j < rest.len() implies members[j] == rest[j] by {}
        match least_email(live, rest) {
            Some(p) => {
                lemma_lex_total(key, p.0);
                if email_at(live, key) is Some && lex_lt(key, p.0) {
                    assert forall|j: int|
                        0 <= j < members.len() && (#[trigger] email_at(live, members[j].0)) is Some
                        implies lex_le(key, members[j].0) by {
                        if j < rest.len() {
                            assert(members[j] == rest[j]);
                            if p.0 != members[j].0 {
                                lemma_lex_transitive(key, p.0, members[j].0);
                            }
                        }
                    }
                    assert(members[members.len() - 1].0 == key);
                } else {
                    let i = choose|i: int|
                        0 <= i < rest.len() && rest[i].0 == p.0 && #[trigger] email_at(live, rest[i].0)
                            == Some(p.1);
                    assert(members[i] == rest[i]);
                }
            },
            None => {
                if email_at(live, key) is Some {
                    assert(members[members.len() - 1].0 == key);
                    assert forall|j: int|
                        0 <= j < members.len() && (#[trigger] email_at(live, members[j].0)) is Some
                        implies lex_le(key, members[j].0) by {
                        if j < rest.len() {
                            assert(members[j] == rest[j]);
                        }
                    }
                }
            },
        }
    }
}

/// Law: the live e-mail is that of the credential with the least key among those that carry an
/// e-mail. When the live file is an object, the e-mail found is carried by the credential under
/// one of its keys, and that key sorts at or before every other key whose credential carries an
/// e-mail; when none carries one, there is no live e-mail.
pub proof fn lemma_live_email_is_least_key(members: Seq<(Seq<char>, JsonView)>)
    ensures
        ({
            let live = JsonView::Object(members);
            let found = live_email(Ok(Some(live)));
            &&& found is None ==> forall|j: int|
                0 <= j < members.len() ==> (#[trigger] email_at(live, members[j].0)) is None
            &&& found matches Some(e) ==> exists|i: int|
                0 <= i < members.len() && #[trigger] email_at(live, members[i].0) == Some(e)
                    && forall|j: int|
                    0 <= j < members.len() && (#[trigger] email_at(live, members[j].0)) is Some
                        ==> lex_le(members[i].0, members[j].0)
        }),
{
    let live = JsonView::Object(members);
    lemma_least_email(live, members);
}

fn email_of_credential(live: &JsonValue, key: &str) -> (r: Option<String>)
    ensures
        r matches Some(e) ==> email_at(live@, key@) == Some(e@),
        r is None ==> email_at(live@, key@) is None,
{
    match live.get(key) {
        Some(credential) => match credential.get("email") {
            Some(e) => match e.as_str() {
                Some(s) => {
                    let t = str_trim(s.as_str());
                    if !t.as_str().is_empty() {
                        Some(to_lowercase(t.as_str()))
                    } else {
                        None
                    }
                },
                None => None,
            },
            None => None,
        },
        None => None,
    }
}

/// The e-mail of the live login.
pub fn live_email_of(live: &JsonRead) -> (r: Option<String>)
    ensures
        r matches Some(e) ==> live_email(read_view(*live)) == Some(e@),
        r is None ==> live_email(read_view(*live)) is None,
{
    let value = match live {
        Ok(Some(v)) => v,
        _ => return None,
    };
    let members = match value.as_object() {
        Some(ms) => ms,
        None => return None,
    };
    let ghost ms = members_view(members@);
    let mut best: Option<(String, String)> = None;
    let mut i: usize = 0;
    while i < members.len()
        invariant
            i <= members@.len(),
            ms == members_view(members@),
            best matches Some(b) ==> least_email(value@, ms.take(i as int)) == Some((b.0@, b.1@)),
            best is None ==> least_email(value@, ms.take(i as int)) is None,
        decreases members@.len() - i,
    {
        proof {
            assert(ms.take(i + 1).drop_last() =~= ms.take(i as int));
            assert(ms.take(i + 1).last() == ms[i as int]);
        }
        let key = members[i].0.as_str();
        match email_of_credential(value, key) {
            Some(e) => {
                let better = match &best {
                    Some(b) => str_lt(key, b.0.as_str()),
                    None => true,
                };
                if better {
                    best = Some((members[i].0.clone(), e));
                }
            },
            None => {},
        }
        i += 1;
    }
    assert(ms.take(members@.len() as int) =~= ms);
    match best {
        Some(b) => Some(b.1),
        None => None,
    }
}

/// A profile file of `<home>/accounts`: its file name and the profile it holds.
#[derive(Debug)]
pub struct ProfileFile {
    pub file_name: String,
    pub profile: Profile,
}

/// The value of a profile file: its name and its profile.
pub type FileView = (Seq<char>, ProfileView);

impl View for ProfileFile {
    type V = FileView;

    open spec fn view(&self) -> FileView {
        (self.file_name@, self.profile@)
    }
}

/// The values of a list of profile files.
pub open spec fn files_view(fs: Seq<ProfileFile>) -> Seq<FileView> {
    fs.map_values(|f: ProfileFile| f@)
}

/// The two things the Grok store is made of, as read.
pub struct Stores {
    /// The profile files under `<home>/accounts`, in the order the directory gave them, or the
    /// message of the failure to read them. The store takes them alphabetically by file name.
    pub profiles: Result<Vec<ProfileFile>, String>,
    /// `<home>/auth.json`.
    pub live: JsonRead,
}

/// The position before the first file of `s` whose name sorts after `name` (the length of `s`
/// when none does).
pub open spec fn first_after(s: Seq<FileView>, name: Seq<char>) -> nat
    decreases s.len(),
{
    if s.len() == 0 {
        0
    } else if lex_lt(name, s[0].0) {
        0
    } else {
        1 + first_after(s.drop_first(), name)
    }
}

/// `x` placed in `s` after every file whose name sorts before it or equals it.
pub open spec fn insert_by_name(s: Seq<FileView>, x: FileView) -> Seq<FileView> {
    s.insert(first_after(s, x.0) as int, x)
}

/// The files in alphabetical order of file name; files of equal names keep their order.
pub open spec fn by_file_name(fs: Seq<FileView>) -> Seq<FileView>
    decreases fs.len(),
{
    if fs.len() == 0 {
        Seq::empty()
    } else {
        insert_by_name(by_file_name(fs.drop_last()), fs.last())
    }
}

/// The profiles of the store, alphabetically by file name.
pub open spec fn ordered_profiles(fs: Seq<ProfileFile>) -> Seq<ProfileView> {
    let o = by_file_name(files_view(fs));
    Seq::new(o.len(), |i: int| o[i].1)
}

/// Whether the names of `s` never decrease.
pub open spec fn names_ascending(s: Seq<FileView>) -> bool {
    forall|a: int, b: int| 0 <= a < b < s.len() ==> lex_le(#[trigger] s[a].0, #[trigger] s[b].0)
}

proof fn lemma_first_after(s: Seq<FileView>, name: Seq<char>)
    ensures
        first_after(s, name) <= s.len(),
        forall|k: int| 0 <= k < first_after(s, name) ==> !lex_lt(name, #[trigger] s[k].0),
        first_after(s, name) < s.len() ==> lex_lt(name, s[first_after(s, name) as int].0),
    decreases s.len(),
{
    if s.len() > 0 && !lex_lt(name, s[0].0) {
        let rest = s.drop_first();
        lemma_first_after(rest, name);
        assert forall|k: int| 0 <= k < first_after(s, name) implies !lex_lt(name, #[trigger] s[k].0) by {
            if k > 0 {
                assert(s[k] == rest[k - 1]);
            }
        }
    }
}

/// Law: the store takes the profiles alphabetically by file name: none is lost or added, and
/// the names never decrease.
pub proof fn lemma_by_file_name_ascending(fs: Seq<FileView>)
    ensures
        by_file_name(fs).len() == fs.len(),
        names_ascending(by_file_name(fs)),
    decreases fs.len(),
{
    if fs.len() > 0 {
        let s = by_file_name(fs.drop_last());
        lemma_by_file_name_ascending(fs.drop_last());
        let x = fs.last();
        let p = first_after(s, x.0) as int;
        lemma_first_after(s, x.0);
        let r = s.insert(p, x);
        assert forall|a: int, b: int| 0 <= a < b < r.len() implies lex_le(
            #[trigger] r[a].0,
            #[trigger] r[b].0,
        ) by {
            if b < p {
                assert(r[a] == s[a] && r[b] == s[b]);
            } else if b == p {
                assert(r[a] == s[a]);
                lemma_lex_total(s[a].0, x.0);
            } else if a > p {
                assert(r[a] == s[a - 1] && r[b] == s[b - 1]);
            } else if a == p {
                assert(r[b] == s[b - 1]);
                assert(lex_lt(x.0, s[p].0));
                if s[p].0 != s[b - 1].0 {
                    assert(lex_le(s[p].0, s[b - 1].0));
                    lemma_lex_transitive(x.0, s[p].0, s[b - 1].0);
                }
            } else {
                assert(r[a] == s[a] && r[b] == s[b - 1]);
            }
        }
    }
}

/// The profile files, alphabetically by file name (files of equal names keep their order).
fn order_by_file_name(files: &Vec<ProfileFile>) -> (r: Vec<&ProfileFile>)
    ensures
        r@.map_values(|f: &ProfileFile| f@) == by_file_name(files_view(files@)),
{
    let ghost fv = files_view(files@);
    let mut out: Vec<&ProfileFile> = Vec::new();
    proof {
        assert(fv.take(0) =~= Seq::<FileView>::empty());
        assert(out@.map_values(|f: &ProfileFile| f@) =~= Seq::<FileView>::empty());
    }
    let mut i: usize = 0;
    while i < files.len()
        invariant
            i <= files@.len(),
            fv == files_view(files@),
            out@.map_values(|f: &ProfileFile| f@) == by_file_name(fv.take(i as int)),
        decreases files@.len() - i,
    {
        let f = &files[i];
        let ghost s = out@.map_values(|g: &ProfileFile| g@);
        proof {
            lemma_first_after(s, f.file_name@);
        }
        let mut j: usize = 0;
        while j < out.len() && !str_lt(f.file_name.as_str(), out[j].file_name.as_str())
            invariant
                j <= out@.len(),
                s == out@.map_values(|g: &ProfileFile| g@),
                j <= first_after(s, f.file_name@),
                first_after(s, f.file_name@) <= s.len(),
                forall|k: int| 0 <= k < first_after(s, f.file_name@) ==> !lex_lt(f.file_name@, #[trigger] s[k].0),
                first_after(s, f.file_name@) < s.len() ==> lex_lt(f.file_name@, s[first_after(s, f.file_name@) as int].0),
            decreases out@.len() - j,
        {
            assert(s[j as int].0 == out@[j as int].file_name@);
            j += 1;
        }
        proof {
            if j < out@.len() {
                assert(s[j as int].0 == out@[j as int].file_name@);
            }
            assert(j == first_after(s, f.file_name@));
        }
        out.insert(j, f);
        proof {
            assert(fv.take(i + 1).drop_last() =~= fv.take(i as int));
            assert(fv.take(i + 1).last() == f@);
            assert(out@.map_values(|g: &ProfileFile| g@) =~= s.insert(j as int, f@));
        }
        i += 1;
    }
    proof {
        assert(fv.take(files@.len() as int) =~= fv);
    }
    out
}

/// One row per profile, in the order given: its name, and whether its e-mail is the live one.
pub open spec fn rows(ps: Seq<ProfileView>, live: Option<Seq<char>>) -> Seq<(Seq<char>, bool)> {
    Seq::new(ps.len(), |i: int| (profile_name(ps[i]), live is Some && live == profile_email(ps[i])))
}

/// The profiles, by name, with the one in use marked.
pub fn list(stores: &Stores) -> (r: Result<Vec<Account>, String>)
    ensures
        match stores.profiles {
            Err(e) => r is Err && r->Err_0@ == e@,
            Ok(ps) => r is Ok && sorted_by_name(
                accounts_view(r->Ok_0@),
                rows(ordered_profiles(ps@), live_email(read_view(stores.live))),
            ),
        },
{
    let live = live_email_of(&stores.live);
    let files = match &stores.profiles {
        Ok(ps) => ps,
        Err(e) => return Err(e.clone()),
    };
    let ordered = order_by_file_name(files);
    let ghost ov = ordered@.map_values(|f: &ProfileFile| f@);
    let ghost pv = ordered_profiles(files@);
    let ghost rs = rows(pv, live_email(read_view(stores.live)));
    let mut accounts: Vec<Account> = Vec::new();
    let mut i: usize = 0;
    while i < ordered.len()
        invariant
            i <= ordered@.len(),
            ov == ordered@.map_values(|f: &ProfileFile| f@),
            ov == by_file_name(files_view(files@)),
            pv == ordered_profiles(files@),
            rs == rows(pv, live_email(read_view(stores.live))),
            live matches Some(e) ==> live_email(read_view(stores.live)) == Some(e@),
            live is None ==> live_email(read_view(stores.live)) is None,
            accounts@.len() == i,
            forall|k: int| 0 <= k < i ==> #[trigger] accounts@[k]@ == rs[k],
        decreases ordered@.len() - i,
    {
        let p = &ordered[i].profile;
        assert(pv[i as int] == p@);
        let active = match (&live, p.email()) {
            (Some(a), Some(b)) => *a == b,
            _ => false,
        };
        accounts.push(Account { name: p.name(), active });
        i += 1;
    }
    assert(accounts_view(accounts@) =~= rs);
    Ok(sort_by_name(accounts))
}

/// The position of the first profile that `name` designates.
pub open spec fn first_match(ps: Seq<ProfileView>, name: Seq<char>) -> Option<int>
    decreases ps.len(),
{
    if ps.len() == 0 {
        None
    } else if profile_matches(ps[0], name) {
        Some(0)
    } else {
        match first_match(ps.drop_first(), name) {
            Some(i) => Some(i + 1),
            None => None,
        }
    }
}

proof fn lemma_first_match_skip(ps: Seq<ProfileView>, name: Seq<char>, i: int)
    requires
        0 <= i < ps.len(),
    ensures
        profile_matches(ps[i], name) ==> first_match(ps.skip(i), name) == Some(0int),
        !profile_matches(ps[i], name) ==> (first_match(ps.skip(i), name) matches Some(k) ==> first_match(ps.skip(i + 1), name) == Some(k - 1)),
        !profile_matches(ps[i], name) ==> (first_match(ps.skip(i), name) is None ==> first_match(ps.skip(i + 1), name) is None),
{
    assert(ps.skip(i).drop_first() =~= ps.skip(i + 1));
}

proof fn lemma_first_match_in_range(ps: Seq<ProfileView>, name: Seq<char>)
    ensures
        first_match(ps, name) matches Some(i) ==> 0 <= i < ps.len() && profile_matches(ps[i], name),
    decreases ps.len(),
{
    if ps.len() > 0 && !profile_matches(ps[0], name) {
        lemma_first_match_in_range(ps.drop_first(), name);
    }
}

/// Copies the credentials of the profile that `name` designates (the first, alphabetically by
/// file name) over the live file: the file to write.
pub fn switch(stores: Stores, name: &str) -> (r: Result<Vec<FileWrite>, String>)
    ensures
        match stores.profiles {
            Err(e) => r is Err && r->Err_0@ == e@,
            Ok(ps) => match first_match(ordered_profiles(ps@), name@) {
                None => r is Err && r->Err_0@ == "conta "@ + debug_quoted(name@) + " não existe"@,
                Some(i) => match ordered_profiles(ps@)[i].2 {
                    None => r is Err && r->Err_0@ == "perfil "@ + debug_quoted(
                        profile_name(ordered_profiles(ps@)[i]),
                    ) + " não tem credencial salva"@,
                    Some(c) => r is Ok && writes_view(r->Ok_0@) == seq![(StoreFile::LiveAuth, c)],
                },
            },
        },
{
    let files = match stores.profiles {
        Ok(ps) => ps,
        Err(e) => return Err(e),
    };
    let ordered = order_by_file_name(&files);
    let ghost pv = ordered_profiles(files@);
    let ghost ov = ordered@.map_values(|f: &ProfileFile| f@);
    assert(pv.skip(0) =~= pv);
    let mut i: usize = 0;
    while i < ordered.len()
        invariant
            i <= ordered@.len(),
            stores.profiles is Ok && stores.profiles->Ok_0@ == files@,
            ov == ordered@.map_values(|f: &ProfileFile| f@),
            ov == by_file_name(files_view(files@)),
            pv == ordered_profiles(files@),
            first_match(pv, name@) matches Some(k) ==> first_match(pv.skip(i as int), name@) == Some(k - i),
            first_match(pv, name@) is None ==> first_match(pv.skip(i as int), name@) is None,
        decreases ordered@.len() - i,
    {
        assert(pv[i as int] == ordered@[i as int].profile@);
        proof {
            lemma_first_match_skip(pv, name@, i as int);
        }
        if ordered[i].profile.matches(name) {
            assert(first_match(pv, name@) == Some(i as int));
            let profile = &ordered[i].profile;
            match &profile.credentials {
                Some(c) => {
                    let mut writes: Vec<FileWrite> = Vec::new();
                    writes.push(FileWrite { file: StoreFile::LiveAuth, contents: c.duplicate() });
                    assert(writes_view(writes@) =~= seq![(StoreFile::LiveAuth, pv[i as int].2->Some_0)]);
                    return Ok(writes);
                },
                None => {
                    let n = profile.name();
                    let q = quoted(n.as_str());
                    return Err(concat3("perfil ", q.as_str(), " não tem credencial salva"));
                },
            }
        }
        i += 1;
    }
    proof {
        assert(pv.skip(ordered@.len() as int).len() == 0);
    }
    let q = quoted(name);
    Err(concat3("conta ", q.as_str(), " não existe"))
}

/// Law: a switch keeps every profile and marks the one switched to as in use, when its saved
/// credentials carry its own e-mail. Once `switch` has written the credentials of the profile
/// that `name` designates over the live file, the list has as many rows as before, and the row
/// of that profile is active whenever the e-mail of those credentials is the profile's.
pub proof fn lemma_switch_then_list(files: Seq<ProfileFile>, name: Seq<char>)
    requires
        first_match(ordered_profiles(files), name) is Some,
        ordered_profiles(files)[first_match(ordered_profiles(files), name)->Some_0].2 is Some,
    ensures
        ({
            let ps = ordered_profiles(files);
            let i = first_match(ps, name)->Some_0;
            let live = live_email(Ok(Some(ps[i].2->Some_0)));
            &&& rows(ps, live).len() == files.len()
            &&& live is Some && live == profile_email(ps[i]) ==> rows(ps, live)[i] == (
                profile_name(ps[i]),
                true,
            )
        }),
{
    let ps = ordered_profiles(files);
    lemma_first_match_in_range(ps, name);
    lemma_by_file_name_ascending(files_view(files));
}

} // verus!

use code_usage::accounts::commandcode::{self, MISSING_LEDGER};
use code_usage::accounts::grok::{self, profile_from, ProfileFile};
use code_usage::accounts::opencode;
use code_usage::accounts::{self as stores, Account, AccountStores, FileWrite, StoreFile};
use code_usage::json::JsonValue;

fn json(text: &str) -> JsonValue {
    stores::parse_json_file("test.json", text).expect("valid JSON")
}

fn account(name: &str, active: bool) -> Account {
    Account { name: name.to_string(), active }
}

fn text_at<'a>(value: &'a JsonValue, path: &[&str]) -> Option<&'a str> {
    let mut current = value;
    for key in path {
        current = current.get(key)?;
    }
    current.as_str().map(String::as_str)
}

const LEDGER: &str = r#"{"version":1,"accounts":{"pessoal":{"apiKey":"key-personal","userName":"pessoal"},"trabalho":{"apiKey":"key-work","userName":"trabalho","userId":"u2"}},"active":"trabalho"}"#;

fn cc_stores(live: &str) -> commandcode::Stores {
    commandcode::Stores { ledger: Ok(Some(json(LEDGER))), live: Ok(Some(json(live))) }
}

#[test]
fn lists_the_ledger_accounts_with_the_live_one_active() {
    assert_eq!(
        commandcode::list(&cc_stores(r#"{"apiKey":"key-personal"}"#)).expect("lists"),
        vec![account("pessoal", true), account("trabalho", false)]
    );
}

#[test]
fn switching_writes_the_ledger_then_the_live_auth_file() {
    let writes: Vec<FileWrite> =
        commandcode::switch(cc_stores(r#"{"apiKey":"key-work"}"#), "pessoal").expect("switches");

    assert_eq!(writes.len(), 2);
    assert_eq!(writes[0].file, StoreFile::CommandCodeLedger);
    let ledger = &writes[0].contents;
    assert_eq!(text_at(ledger, &["active"]), Some("pessoal"));
    assert_eq!(text_at(ledger, &["accounts", "trabalho", "apiKey"]), Some("key-work"));

    assert_eq!(writes[1].file, StoreFile::LiveAuth);
    let live = &writes[1].contents;
    assert_eq!(text_at(live, &["apiKey"]), Some("key-personal"));
    assert_eq!(text_at(live, &["userName"]), Some("pessoal"));
}

#[test]
fn an_unknown_account_lists_the_ones_that_exist() {
    let error = commandcode::switch(cc_stores("{}"), "nope").expect_err("unknown account");

    assert!(error.contains("conta \"nope\" não existe"));
    assert!(error.contains("pessoal, trabalho"));
}

#[test]
fn a_missing_ledger_lists_nothing_and_refuses_to_switch() {
    let missing = || commandcode::Stores { ledger: Ok(None), live: Ok(None) };

    assert_eq!(commandcode::list(&missing()).expect("lists"), Vec::new());
    assert!(commandcode::switch(missing(), "pessoal")
        .expect_err("no accounts")
        .contains(MISSING_LEDGER));
}

#[test]
fn switching_then_listing_marks_the_new_account() {
    let writes = commandcode::switch(cc_stores(r#"{"apiKey":"key-work"}"#), "pessoal").expect("switches");
    let mut writes = writes.into_iter();
    let ledger = writes.next().expect("ledger").contents;
    let live = writes.next().expect("live").contents;
    let after = commandcode::Stores { ledger: Ok(Some(ledger)), live: Ok(Some(live)) };
    assert_eq!(
        commandcode::list(&after).expect("lists"),
        vec![account("pessoal", true), account("trabalho", false)]
    );
}

#[test]
fn a_ledger_read_error_is_passed_on() {
    let broken = commandcode::Stores { ledger: Err("x não é um JSON válido: y".to_string()), live: Ok(None) };
    assert_eq!(commandcode::list(&broken), Err("x não é um JSON válido: y".to_string()));
}

fn profile(alias: &str, email: &str, key: &str) -> grok::Profile {
    profile_from(&json(&format!(
        r#"{{"alias":"{alias}","email":"{email}","saved_at":"2026-09-22T02:35:23-03:00","auth":{{"https://auth.x.ai::client":{{"key":"{key}","email":"{email}"}}}}}}"#
    )))
}

fn file(file_name: &str, profile: grok::Profile) -> ProfileFile {
    ProfileFile { file_name: file_name.to_string(), profile }
}

fn live(email: &str, key: &str) -> JsonValue {
    json(&format!(r#"{{"https://auth.x.ai::client":{{"key":"{key}","email":"{email}"}}}}"#))
}

#[test]
fn lists_the_profiles_with_the_live_email_active() {
    let s = grok::Stores {
        profiles: Ok(vec![
            file("pessoal.json", profile("pessoal", "eu@gmail.com", "key-personal")),
            file("trabalho.json", profile("trabalho", "trabalho@empresa.com", "key-work")),
        ]),
        live: Ok(Some(live("EU@gmail.com", "key-personal"))),
    };
    assert_eq!(
        grok::list(&s).expect("lists"),
        vec![account("pessoal", true), account("trabalho", false)]
    );
}

#[test]
fn switching_copies_the_profile_credentials_over_the_live_file() {
    let s = grok::Stores {
        profiles: Ok(vec![file("trabalho.json", profile("trabalho", "trabalho@empresa.com", "key-work"))]),
        live: Ok(Some(live("eu@gmail.com", "key-personal"))),
    };
    let writes = grok::switch(s, "trabalho").expect("switches");
    assert_eq!(writes.len(), 1);
    assert_eq!(writes[0].file, StoreFile::LiveAuth);
    assert_eq!(text_at(&writes[0].contents, &["https://auth.x.ai::client", "key"]), Some("key-work"));

    let after = grok::Stores {
        profiles: Ok(vec![file("trabalho.json", profile("trabalho", "trabalho@empresa.com", "key-work"))]),
        live: Ok(Some(writes.into_iter().next().expect("live").contents)),
    };
    assert!(grok::list(&after).expect("lists")[0].active);
}

#[test]
fn switching_by_email_works_too() {
    let s = grok::Stores {
        profiles: Ok(vec![file("trabalho.json", profile("trabalho", "trabalho@empresa.com", "key-work"))]),
        live: Ok(Some(live("eu@gmail.com", "key-personal"))),
    };
    let writes = grok::switch(s, "trabalho@empresa.com").expect("switches by email");
    assert_eq!(text_at(&writes[0].contents, &["https://auth.x.ai::client", "key"]), Some("key-work"));
}

#[test]
fn an_unknown_profile_is_an_error_and_changes_nothing() {
    let s = grok::Stores {
        profiles: Ok(vec![file("trabalho.json", profile("trabalho", "trabalho@empresa.com", "key-work"))]),
        live: Ok(Some(live("eu@gmail.com", "key-personal"))),
    };
    assert_eq!(grok::switch(s, "nope").expect_err("unknown profile"), "conta \"nope\" não existe");
}

#[test]
fn a_profile_without_credentials_is_refused() {
    let s = grok::Stores {
        profiles: Ok(vec![file("vazio.json", profile_from(&json(r#"{"alias":"vazio","email":"vazio@gmail.com"}"#)))]),
        live: Ok(Some(live("eu@gmail.com", "key-personal"))),
    };
    assert!(grok::switch(s, "vazio")
        .expect_err("no credentials")
        .contains("não tem credencial salva"));
}

#[test]
fn a_missing_profiles_dir_lists_nothing() {
    let s = grok::Stores { profiles: Ok(Vec::new()), live: Ok(None) };
    assert_eq!(grok::list(&s).expect("lists"), Vec::new());
}

#[test]
fn profile_names_fall_back_to_the_email_then_a_placeholder() {
    let named = profile_from(&json(r#"{"alias":"  ","email":" Eu@Gmail.com "}"#));
    assert_eq!(named.name(), "Eu@Gmail.com");
    assert_eq!(named.email().as_deref(), Some("eu@gmail.com"));
    assert!(named.matches("EU@gmail.com"));
    let empty = profile_from(&json("{}"));
    assert_eq!(empty.name(), "perfil");
    assert_eq!(empty.email(), None);
    assert!(grok::is_profile_file("a.json", false));
    assert!(!grok::is_profile_file(".a.json", false));
    assert!(!grok::is_profile_file("a.json", true));
    assert!(!grok::is_profile_file("a.txt", false));
}

const STORE: &str = r#"{"version":2,"accounts":{"id-a":{"id":"id-a","serviceID":"opencode-go","description":"pessoal","credential":{"type":"api","key":"go-personal"}},"id-b":{"id":"id-b","serviceID":"opencode-go","description":"trabalho","credential":{"type":"api","key":"go-work"}},"id-c":{"id":"id-c","serviceID":"opencode","description":"zen","credential":{"type":"api","key":"zen"}}},"active":{"opencode-go":"id-a","opencode":"id-c"}}"#;
const AUTH: &str = r#"{"opencode-go":{"type":"api","key":"go-personal"},"opencode":{"type":"api","key":"zen"}}"#;

fn oc_stores(store: Option<&str>, auth: Option<&str>) -> opencode::Stores {
    opencode::Stores {
        store: Ok(store.map(json)),
        live: Ok(auth.map(json)),
        store_path: "/h/account.json".to_string(),
        auth_path: "/h/auth.json".to_string(),
        auth_dir: "/h".to_string(),
    }
}

#[test]
fn lists_only_the_go_accounts_with_the_active_one_marked() {
    assert_eq!(
        opencode::list(&oc_stores(Some(STORE), Some(AUTH))).expect("lists"),
        vec![account("pessoal", true), account("trabalho", false)]
    );
}

#[test]
fn switching_moves_the_active_id_and_the_live_credential() {
    let writes = opencode::switch(oc_stores(Some(STORE), Some(AUTH)), "trabalho").expect("switches");

    assert_eq!(writes[0].file, StoreFile::OpenCodeStore);
    let store = &writes[0].contents;
    assert_eq!(text_at(store, &["active", "opencode-go"]), Some("id-b"));
    assert_eq!(
        text_at(store, &["accounts", "id-c", "credential", "key"]),
        Some("zen"),
        "other providers keep their credentials"
    );

    assert_eq!(writes[1].file, StoreFile::LiveAuth);
    let live = &writes[1].contents;
    assert_eq!(text_at(live, &["opencode-go", "key"]), Some("go-work"));
    assert_eq!(text_at(live, &["opencode", "key"]), Some("zen"));
}

#[test]
fn a_store_that_is_not_v2_is_refused() {
    assert!(opencode::list(&oc_stores(Some(r#"{"version":1,"accounts":{}}"#), Some(AUTH)))
        .expect_err("version 1")
        .contains("não é um JSON v2 válido"));
}

#[test]
fn a_missing_store_says_what_to_do() {
    let error = opencode::list(&oc_stores(None, None)).expect_err("missing store");

    assert!(error.contains("não achei o store do OpenCode"));
    assert!(error.contains("opencode auth login"));
}

#[test]
fn duplicate_names_are_refused() {
    let store = r#"{"version":2,"accounts":{"a":{"id":"a","serviceID":"opencode-go","description":"default","credential":{"key":"1"}},"b":{"id":"b","serviceID":"opencode-go","description":"default","credential":{"key":"2"}}},"active":{"opencode-go":"a"}}"#;
    assert!(opencode::switch(oc_stores(Some(store), Some(AUTH)), "default")
        .expect_err("duplicate")
        .contains("há 2 contas Go chamadas \"default\""));
}

#[test]
fn switching_without_a_live_auth_file_is_refused() {
    assert!(opencode::switch(oc_stores(Some(STORE), None), "trabalho")
        .expect_err("no auth file")
        .contains("não achei o store do OpenCode"));
}

#[test]
fn an_unknown_go_account_lists_the_ones_that_exist() {
    assert_eq!(
        opencode::switch(oc_stores(Some(STORE), Some(AUTH)), "zen").expect_err("not a go account"),
        "conta \"zen\" não existe. Contas Go: pessoal, trabalho."
    );
}

#[test]
fn switching_then_listing_marks_the_new_go_account() {
    let writes = opencode::switch(oc_stores(Some(STORE), Some(AUTH)), "trabalho").expect("switches");
    let mut writes = writes.into_iter();
    let store = writes.next().expect("store").contents;
    let after = opencode::Stores {
        store: Ok(Some(store)),
        live: Ok(None),
        store_path: "/h/account.json".to_string(),
        auth_path: "/h/auth.json".to_string(),
        auth_dir: "/h".to_string(),
    };
    assert_eq!(
        opencode::list(&after).expect("lists"),
        vec![account("pessoal", false), account("trabalho", true)]
    );
}

#[test]
fn the_dispatch_lists_and_switches_each_store() {
    let listed = stores::list(&AccountStores::CommandCode(cc_stores(r#"{"apiKey":"key-work"}"#)));
    assert_eq!(listed.expect("lists"), vec![account("pessoal", false), account("trabalho", true)]);
    let writes = stores::switch(AccountStores::OpenCode(oc_stores(Some(STORE), Some(AUTH))), "pessoal")
        .expect("switches");
    assert_eq!(writes.len(), 2);
}

#[test]
fn broken_files_are_named_in_the_error() {
    let error = stores::parse_json_file("/h/auth.json", "{ not json").expect_err("broken file");
    assert!(error.starts_with("/h/auth.json não é um JSON válido: "));
    assert!(stores::parse_json_file("/h/auth.json", "{}").is_ok());
}

#[test]
fn the_version_of_a_refused_store_is_shown_as_serde_json_debugs_it() {
    assert_eq!(
        opencode::list(&oc_stores(Some(r#"{"version":1,"accounts":{}}"#), Some(AUTH))),
        Err("/h/account.json não é um JSON v2 válido: version Number(1)".to_string())
    );
    assert_eq!(
        opencode::list(&oc_stores(Some(r#"{"accounts":{}}"#), Some(AUTH))),
        Err("/h/account.json não é um JSON v2 válido: version Null".to_string())
    );
}

#[test]
fn a_live_file_without_the_go_entry_is_where_a_switch_would_panic() {
    let without_go = r#"{"opencode":{"type":"api","key":"zen"}}"#;
    let s = AccountStores::OpenCode(oc_stores(Some(STORE), Some(without_go)));
    assert!(stores::switch_would_panic(&s, "trabalho"));
    let s = AccountStores::OpenCode(oc_stores(Some(STORE), Some(AUTH)));
    assert!(!stores::switch_would_panic(&s, "trabalho"));
    let odd_active = r#"{"version":2,"accounts":{"id-b":{"serviceID":"opencode-go","description":"trabalho","credential":{"key":"k"}}},"active":3}"#;
    let s = AccountStores::OpenCode(oc_stores(Some(odd_active), Some(AUTH)));
    assert!(stores::switch_would_panic(&s, "trabalho"));
    let s = AccountStores::CommandCode(cc_stores("{}"));
    assert!(!stores::switch_would_panic(&s, "pessoal"));
}

#[test]
fn profiles_are_taken_alphabetically_by_file_name() {
    let s = || grok::Stores {
        profiles: Ok(vec![
            file("zeta.json", profile("mesmo", "z@x.com", "key-z")),
            file("alfa.json", profile("mesmo", "a@x.com", "key-a")),
            file("meio.json", profile("outro", "m@x.com", "key-m")),
        ]),
        live: Ok(Some(live("a@x.com", "key-a"))),
    };
    let writes = grok::switch(s(), "mesmo").expect("switches");
    assert_eq!(text_at(&writes[0].contents, &["https://auth.x.ai::client", "key"]), Some("key-a"));
    assert_eq!(
        grok::list(&s()).expect("lists"),
        vec![account("mesmo", true), account("mesmo", false), account("outro", false)]
    );
}

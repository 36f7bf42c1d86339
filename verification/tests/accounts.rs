use ucelofka::account::{Account, Accounts};
use ucelofka::actions::account::{get, list};
use ucelofka::error::{Error, Kind, LoadError};
use ucelofka::source::SourceFile;

fn file(name: &str, text: &str) -> SourceFile {
    SourceFile { name: name.to_string(), content: Ok(text.to_string()) }
}

fn alice_and_bob() -> Vec<SourceFile> {
    vec![
        file("accounts/002-bob.yaml", "id: bob\nname: Bob\n"),
        file("accounts/001-alice.yaml", "id: alice\nname: Alice\n"),
    ]
}

#[test]
fn list_returns_accounts_in_file_name_order() {
    let accounts = list(alice_and_bob()).unwrap();
    assert_eq!(accounts.len(), 2);
    let ids: Vec<&str> = accounts.records().iter().map(|a| a.id.as_str()).collect();
    assert_eq!(ids, vec!["alice", "bob"]);
    assert_eq!(accounts.records()[0], Account { id: "alice".to_string(), name: "Alice".to_string() });
    assert_eq!(accounts.records()[1], Account { id: "bob".to_string(), name: "Bob".to_string() });
}

#[test]
fn get_returns_the_account_asked_for() {
    let bob = get(alice_and_bob(), "bob").unwrap();
    assert_eq!(bob, Account { id: "bob".to_string(), name: "Bob".to_string() });
}

#[test]
fn get_of_an_unknown_account_names_it() {
    let error = get(alice_and_bob(), "carol").unwrap_err();
    assert_eq!(error, Error::NotFound { kind: Kind::Account, id: "carol".to_string() });
    assert_eq!(error.message(), "Account carol not found.");
}

#[test]
fn get_passes_a_failed_load_on() {
    let files = vec![file("accounts/001-alice.yaml", "id: alice\n")];
    match get(files, "alice") {
        Err(Error::Load(LoadError::Parse { path, .. })) => {
            assert_eq!(path, "accounts/001-alice.yaml")
        }
        other => panic!("{:?}", other),
    }
}

#[test]
fn list_of_no_files_is_empty() {
    let accounts = list(Vec::new()).unwrap();
    assert_eq!(accounts.len(), 0);
    assert!(accounts.get("alice").is_none());
}

#[test]
fn duplicate_identifiers_give_the_first_by_file_name() {
    let files = vec![
        file("b.yaml", "id: twin\nname: Second\n"),
        file("c.yaml", "id: other\nname: Other\n"),
        file("a.yaml", "id: twin\nname: First\n"),
    ];
    let accounts = Accounts::load(files).unwrap();
    assert_eq!(accounts.get("twin").unwrap().name, "First");
    assert_eq!(accounts.get("other").unwrap().name, "Other");
    assert!(accounts.get("none").is_none());
}

#[test]
fn account_fields_beyond_the_schema_are_passed_over() {
    let files = vec![file("a.yaml", "id: a\nname: A\nnote: kept out\n")];
    let accounts = list(files).unwrap();
    assert_eq!(accounts.records()[0], Account { id: "a".to_string(), name: "A".to_string() });
}

#[test]
fn account_round_trip_through_text() {
    let account = Account { id: "alice".to_string(), name: "Alice: the first".to_string() };
    let text = account.render().unwrap();
    let back = list(vec![file("x", &text)]).unwrap();
    assert_eq!(back.records()[0], account);
}

#[test]
fn account_renders_its_fields_in_order() {
    let account = Account { id: "alice".to_string(), name: "Alice".to_string() };
    assert_eq!(account.render().unwrap(), "id: alice\nname: Alice\n");
}

#[test]
fn accounts_render_as_one_list() {
    let accounts = list(alice_and_bob()).unwrap();
    assert_eq!(
        accounts.render().unwrap(),
        "accounts:\n- id: alice\n  name: Alice\n- id: bob\n  name: Bob\n"
    );
}

#[test]
fn kinds_name_their_directories() {
    assert_eq!(Kind::Account.directory(), "accounts");
    assert_eq!(Kind::Entry.directory(), "entries");
    assert_eq!(Kind::Identity.directory(), "identities");
    assert_eq!(Kind::Invoice.directory(), "invoices");
    assert_eq!(Kind::Account.name(), "Account");
    assert_eq!(Kind::Invoice.name(), "Invoice");
}

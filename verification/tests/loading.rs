use ucelofka::account::Accounts;
use ucelofka::entry::Entries;
use ucelofka::error::LoadError;
use ucelofka::source::{bytes_no_later, name_no_later, sort_by_name, SourceFile};

fn file(name: &str, text: &str) -> SourceFile {
    SourceFile { name: name.to_string(), content: Ok(text.to_string()) }
}

fn account(name: &str, id: &str) -> SourceFile {
    file(name, &format!("id: {}\nname: {}\n", id, id.to_uppercase()))
}

fn names(files: &[SourceFile]) -> Vec<&str> {
    files.iter().map(|f| f.name.as_str()).collect()
}

#[test]
fn load_gives_one_record_for_each_file_in_name_order() {
    let files = vec![
        account("30.yaml", "c"),
        account("10.yaml", "a"),
        account("40.yaml", "d"),
        account("20.yaml", "b"),
    ];
    let accounts = Accounts::load(files).unwrap();
    assert_eq!(accounts.len(), 4);
    let ids: Vec<&str> = accounts.records().iter().map(|a| a.id.as_str()).collect();
    assert_eq!(ids, vec!["a", "b", "c", "d"]);
}

#[test]
fn one_malformed_document_fails_the_whole_load() {
    let files = vec![
        account("1.yaml", "a"),
        file("2.yaml", "id: b\n"),
        account("3.yaml", "c"),
    ];
    match Accounts::load(files) {
        Err(LoadError::Parse { path, cause }) => {
            assert_eq!(path, "2.yaml");
            assert_eq!(cause, "a field is missing or holds a value of the wrong kind");
        }
        other => panic!("{:?}", other),
    }
}

#[test]
fn text_that_is_not_yaml_fails_the_load() {
    let files = vec![account("1.yaml", "a"), file("2.yaml", "id: [unclosed\n")];
    match Accounts::load(files) {
        Err(LoadError::Parse { path, cause }) => {
            assert_eq!(path, "2.yaml");
            assert!(!cause.is_empty());
        }
        other => panic!("{:?}", other),
    }
}

#[test]
fn an_unreadable_file_fails_the_load_with_its_cause() {
    let files = vec![
        account("1.yaml", "a"),
        SourceFile { name: "sub".to_string(), content: Err("Is a directory".to_string()) },
    ];
    let error = Accounts::load(files).unwrap_err();
    assert_eq!(
        error,
        LoadError::Io { path: "sub".to_string(), cause: "Is a directory".to_string() }
    );
    assert_eq!(error.path(), "sub");
    assert_eq!(error.message(), "cannot read sub: Is a directory");
}

#[test]
fn the_first_fault_in_name_order_is_the_one_reported() {
    let files = vec![
        file("c.yaml", "name: no id\n"),
        SourceFile { name: "b.yaml".to_string(), content: Err("denied".to_string()) },
        account("a.yaml", "a"),
    ];
    match Accounts::load(files) {
        Err(LoadError::Io { path, .. }) => assert_eq!(path, "b.yaml"),
        other => panic!("{:?}", other),
    }
}

#[test]
fn a_document_that_is_no_table_is_malformed() {
    for text in ["", "- id: a\n", "just text", "42"] {
        match Entries::load(vec![file("x.yaml", text)]) {
            Err(LoadError::Parse { path, .. }) => assert_eq!(path, "x.yaml"),
            other => panic!("{:?}: {:?}", text, other),
        }
    }
}

#[test]
fn parse_error_message_names_the_file() {
    let error = LoadError::Parse { path: "a.yaml".to_string(), cause: "bad".to_string() };
    assert_eq!(error.message(), "cannot parse a.yaml: bad");
    let error = LoadError::Migration { path: "a.yaml".to_string(), version: 7 };
    assert_eq!(error.message(), "cannot migrate a.yaml: no path from version 7 to the current one");
    assert_eq!(error.path(), "a.yaml");
}

#[test]
fn names_are_ordered_byte_by_byte() {
    assert!(name_no_later("a", "b"));
    assert!(!name_no_later("b", "a"));
    assert!(name_no_later("a", "a"));
    assert!(name_no_later("a", "ab"));
    assert!(!name_no_later("ab", "a"));
    assert!(name_no_later("", "a"));
    assert!(name_no_later("B", "a"));
    assert!(!name_no_later("a", "B"));
    assert!(name_no_later("10", "9"));
    assert!(name_no_later("z", "\u{e9}"));
    assert!(!name_no_later("\u{e9}", "z"));
    assert!(bytes_no_later(&[1, 2], &[1, 2, 0]));
    assert!(!bytes_no_later(&[1, 3], &[1, 2, 9]));
    assert!(bytes_no_later(&[], &[]));
}

#[test]
fn sort_by_name_orders_and_keeps_every_file() {
    let files = vec![
        file("b", "2"),
        file("a", "1"),
        file("c", "5"),
        file("B", "0"),
        file("ab", "3"),
    ];
    let sorted = sort_by_name(files);
    assert_eq!(names(&sorted), vec!["B", "a", "ab", "b", "c"]);
    let texts: Vec<&str> = sorted.iter().map(|f| f.content.as_ref().unwrap().as_str()).collect();
    assert_eq!(texts, vec!["0", "1", "3", "2", "5"]);
}

#[test]
fn sort_by_name_keeps_files_of_one_name_in_their_order() {
    let files = vec![file("x", "first"), file("a", "-"), file("x", "second"), file("x", "third")];
    let sorted = sort_by_name(files);
    let texts: Vec<&str> = sorted.iter().map(|f| f.content.as_ref().unwrap().as_str()).collect();
    assert_eq!(texts, vec!["-", "first", "second", "third"]);
}

#[test]
fn sort_by_name_leaves_ordered_files_alone() {
    let files = vec![file("1", "a"), file("2", "b"), file("3", "c")];
    let sorted = sort_by_name(files);
    assert_eq!(names(&sorted), vec!["1", "2", "3"]);
    assert!(sort_by_name(Vec::new()).is_empty());
}

use ucelofka::error::{Flaw, LoadError};
use ucelofka::identity::{latest, v1, Identities, Identity, Versioned, CURRENT_VERSION};
use ucelofka::record::{parse, Record};
use ucelofka::source::SourceFile;

fn file(name: &str, text: &str) -> SourceFile {
    SourceFile { name: name.to_string(), content: Ok(text.to_string()) }
}

fn jane() -> Identity {
    Identity { id: "jane".to_string(), name: "Jane Doe".to_string() }
}

#[test]
fn the_latest_version_is_the_first() {
    assert_eq!(CURRENT_VERSION, 1);
    assert_eq!(v1::VERSION, CURRENT_VERSION);
    let identity: latest::Identity = jane();
    assert_eq!(identity, v1::Identity { id: "jane".to_string(), name: "Jane Doe".to_string() });
}

#[test]
fn a_document_without_a_version_is_of_the_first() {
    let identities = Identities::load(vec![file("jane.yml", "id: jane\nname: Jane Doe\n")]).unwrap();
    assert_eq!(identities.records()[0], jane());
}

#[test]
fn a_document_of_the_current_version_is_read_as_it_is() {
    let text = "version: 1\nid: jane\nname: Jane Doe\n";
    let identities = Identities::load(vec![file("jane.yml", text)]).unwrap();
    assert_eq!(identities.records()[0], jane());
    assert_eq!(identities.get("jane"), Some(&jane()));
    assert_eq!(identities.get("john"), None);
    assert_eq!(identities.len(), 1);
}

#[test]
fn a_document_of_an_unknown_version_cannot_be_migrated() {
    for version in [0u64, 2, 3, u64::MAX] {
        let text = format!("version: {}\nid: jane\nname: Jane Doe\n", version);
        let error = Identities::load(vec![file("jane.yml", &text)]).unwrap_err();
        assert_eq!(error, LoadError::Migration { path: "jane.yml".to_string(), version });
    }
}

#[test]
fn a_version_that_is_no_whole_number_is_malformed() {
    for version in ["one", "1.0", "-1", "'1'", "[1]", ""] {
        let text = format!("version: {}\nid: jane\nname: Jane Doe\n", version);
        assert!(matches!(
            Identities::load(vec![file("jane.yml", &text)]),
            Err(LoadError::Parse { .. })
        ));
    }
}

#[test]
fn identity_is_written_in_the_current_version() {
    assert_eq!(jane().render().unwrap(), "version: 1\nid: jane\nname: Jane Doe\n");
}

#[test]
fn identity_round_trip_through_text() {
    let text = jane().render().unwrap();
    assert_eq!(parse::<Identity>(&text).unwrap(), jane());
}

#[test]
fn migrating_a_current_document_changes_nothing() {
    let document = Versioned::from_tree(&jane().to_tree()).unwrap();
    assert_eq!(document.version(), CURRENT_VERSION);
    assert_eq!(document, Versioned::V1(jane()));
    let stepped = document.upgrade();
    assert_eq!(stepped, Versioned::V1(jane()));
    assert_eq!(stepped.into_latest(), jane());
}

#[test]
fn migrating_twice_gives_what_once_gives() {
    let once = Versioned::V1(jane()).into_latest();
    let twice = Versioned::V1(Versioned::V1(jane()).into_latest()).into_latest();
    assert_eq!(once, twice);
    let again = Versioned::V1(jane()).upgrade().upgrade().into_latest();
    assert_eq!(once, again);
}

#[test]
fn versioned_documents_report_their_flaws() {
    assert_eq!(
        Versioned::from_tree(&Identity { id: "a".to_string(), name: "b".to_string() }.to_tree()),
        Ok(Versioned::V1(Identity { id: "a".to_string(), name: "b".to_string() }))
    );
    let text = "version: 9\nid: jane\nname: Jane Doe\n";
    assert!(matches!(
        parse::<Identity>(text),
        Err(ucelofka::error::ParseError::Flawed(Flaw::Unsupported(9)))
    ));
    let text = "version: 1\nid: jane\n";
    assert!(matches!(
        parse::<Identity>(text),
        Err(ucelofka::error::ParseError::Flawed(Flaw::Malformed))
    ));
}

#[test]
fn identities_render_as_one_list() {
    let identities = Identities::load(vec![file("a", "id: jane\nname: Jane Doe\n")]).unwrap();
    assert_eq!(
        identities.render().unwrap(),
        "identities:\n- version: 1\n  id: jane\n  name: Jane Doe\n"
    );
}

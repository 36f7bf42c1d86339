use ucelofka::entry::{Entries, Entry};
use ucelofka::error::{Flaw, LoadError, ParseError};
use ucelofka::source::SourceFile;

fn file(name: &str, text: &str) -> SourceFile {
    SourceFile { name: name.to_string(), content: Ok(text.to_string()) }
}

fn work() -> Entry {
    Entry::new(
        "work".to_string(),
        "Work".to_string(),
        "12.5".to_string(),
        "EUR".to_string(),
        vec!["first line".to_string(), "second line".to_string()],
    )
}

const WORK: &str =
    "id: work\nname: Work\nprice: 12.5\ncurrency: EUR\ndetails:\n- first line\n- second line\n";

#[test]
fn entry_new_keeps_its_arguments() {
    let entry = work();
    assert_eq!(entry.id, "work");
    assert_eq!(entry.name, "Work");
    assert_eq!(entry.price, "12.5");
    assert_eq!(entry.currency, "EUR");
    assert_eq!(entry.details, vec!["first line".to_string(), "second line".to_string()]);
}

#[test]
fn entry_is_read_from_its_text() {
    assert_eq!(Entry::try_from(WORK.to_string()), Ok(work()));
}

#[test]
fn entry_is_written_as_its_text() {
    assert_eq!(work().render().unwrap(), WORK);
}

#[test]
fn entry_round_trip_through_text() {
    let entry = Entry::new(
        "x: y".to_string(),
        "  padded  ".to_string(),
        "-0.25".to_string(),
        "".to_string(),
        vec!["123".to_string(), "true".to_string(), "- dash".to_string(), "".to_string()],
    );
    let text = entry.render().unwrap();
    assert_eq!(Entry::try_from(text), Ok(entry));
}

#[test]
fn entry_text_that_is_not_yaml_is_a_syntax_error() {
    assert!(matches!(
        Entry::try_from("id: [unclosed".to_string()),
        Err(ParseError::Syntax(_))
    ));
    assert!(matches!(
        Entry::try_from("id: a\nid: b\n".to_string()),
        Err(ParseError::Syntax(_))
    ));
}

#[test]
fn entry_text_without_a_field_is_malformed() {
    for key in ["id", "name", "price", "currency", "details"] {
        let text = WORK.replacen(&format!("{}:", key), &format!("no_{}:", key), 1);
        assert_eq!(Entry::try_from(text), Err(ParseError::Flawed(Flaw::Malformed)));
    }
}

#[test]
fn entry_with_a_whole_price() {
    let text = WORK.replacen("price: 12.5", "price: 100", 1);
    assert_eq!(Entry::try_from(text).unwrap().price, "100");
}

#[test]
fn entries_are_loaded_and_found() {
    let other = WORK.replacen("id: work", "id: rest", 1);
    let entries = Entries::load(vec![file("2", WORK), file("1", &other)]).unwrap();
    assert_eq!(entries.entries.len(), 2);
    assert_eq!(entries.entries[0].id, "rest");
    assert_eq!(entries.entries[1], work());
    assert_eq!(entries.get("work"), Some(&work()));
    assert_eq!(entries.get("Work"), None);
}

#[test]
fn entries_fail_on_one_bad_file() {
    let files = vec![file("1", WORK), file("2", "nothing here")];
    assert!(matches!(Entries::load(files), Err(LoadError::Parse { .. })));
}

#[test]
fn entries_render_as_one_list() {
    let entries = Entries { entries: vec![work()] };
    assert_eq!(
        entries.render().unwrap(),
        "entries:\n- id: work\n  name: Work\n  price: 12.5\n  currency: EUR\n  details:\n  - first line\n  - second line\n"
    );
    assert_eq!(Entries::default().render().unwrap(), "entries: []\n");
}

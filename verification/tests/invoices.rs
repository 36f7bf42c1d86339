use ucelofka::error::LoadError;
use ucelofka::invoice::{
    Billing, Customer, Identification, Invoice, Invoices, Issuer, Item,
};
use ucelofka::source::SourceFile;
use ucelofka::tree::Node;

const FIRST: &str = "\
id: 2020001
issue_day: 2020-01-15
due_day: 2020-01-29
issuer:
  name: Jane Doe
  address:
  - Long Street 1
  - 110 00 Prague
  phone:
  - +420 123 456 789
  email:
  - jane@example.com
  www:
  - https://example.com
  identification:
    tax: CZ8001011234
    registration: '12345678'
customer:
  name: Acme Ltd.
  address:
  - Short Street 2
  identification: '87654321'
  email: []
entries:
- name: Consulting
  price: 1500.5
  currency: CZK
  details:
  - January
  - 10 hours
- name: Travel
  price: 300
  currency: CZK
  details: []
billing:
  account_name: Jane Doe
  account_number: 123456789/0100
  BIC: KOMBCZPP
  IBAN: CZ6501000000000123456789
  total: 1800.5
  currency: CZK
  variable_symbol: '2020001'
";

fn file(name: &str, text: &str) -> SourceFile {
    SourceFile { name: name.to_string(), content: Ok(text.to_string()) }
}

fn strings(items: &[&str]) -> Vec<String> {
    items.iter().map(|s| s.to_string()).collect()
}

fn first() -> Invoice {
    Invoice {
        id: 2020001,
        issue_day: "2020-01-15".to_string(),
        due_day: "2020-01-29".to_string(),
        issuer: Issuer {
            name: "Jane Doe".to_string(),
            address: strings(&["Long Street 1", "110 00 Prague"]),
            phone: strings(&["+420 123 456 789"]),
            email: strings(&["jane@example.com"]),
            www: strings(&["https://example.com"]),
            identification: Identification {
                tax: "CZ8001011234".to_string(),
                registration: "12345678".to_string(),
            },
        },
        customer: Customer {
            name: "Acme Ltd.".to_string(),
            address: strings(&["Short Street 2"]),
            identification: "87654321".to_string(),
            email: Vec::new(),
        },
        entries: vec![
            Item {
                name: "Consulting".to_string(),
                price: "1500.5".to_string(),
                currency: "CZK".to_string(),
                details: strings(&["January", "10 hours"]),
            },
            Item {
                name: "Travel".to_string(),
                price: "300".to_string(),
                currency: "CZK".to_string(),
                details: Vec::new(),
            },
        ],
        billing: Billing {
            account_name: "Jane Doe".to_string(),
            account_number: "123456789/0100".to_string(),
            bic: "KOMBCZPP".to_string(),
            iban: "CZ6501000000000123456789".to_string(),
            total: "1800.5".to_string(),
            currency: "CZK".to_string(),
            variable_symbol: "2020001".to_string(),
        },
    }
}

fn numbered(id: u64) -> String {
    FIRST.replacen("id: 2020001", &format!("id: {}", id), 1)
}

#[test]
fn invoice_is_read_field_by_field() {
    let invoices = Invoices::load(vec![file("2020001.yml", FIRST)]).unwrap();
    assert_eq!(invoices.len(), 1);
    assert_eq!(invoices.records()[0], first());
}

#[test]
fn invoice_renders_the_text_it_was_read_from() {
    assert_eq!(first().render().unwrap(), FIRST);
}

#[test]
fn invoice_round_trip_through_text() {
    let text = first().render().unwrap();
    let back = Invoices::load(vec![file("x", &text)]).unwrap();
    assert_eq!(back.records()[0], first());
}

#[test]
fn invoices_are_found_by_number() {
    let files = vec![
        file("b.yml", &numbered(2)),
        file("c.yml", &numbered(3)),
        file("a.yml", &numbered(1)),
    ];
    let invoices = Invoices::load(files).unwrap();
    let ids: Vec<u64> = invoices.records().iter().map(|i| i.id).collect();
    assert_eq!(ids, vec![1, 2, 3]);
    assert_eq!(invoices.get(2).unwrap().id, 2);
    assert_eq!(invoices.get(3).unwrap().id, 3);
    assert!(invoices.get(4).is_none());
}

#[test]
fn invoice_of_a_repeated_number_is_the_first_by_file_name() {
    let later = numbered(7).replacen("due_day: 2020-01-29", "due_day: later", 1);
    let earlier = numbered(7).replacen("due_day: 2020-01-29", "due_day: earlier", 1);
    let invoices = Invoices::load(vec![file("2.yml", &later), file("1.yml", &earlier)]).unwrap();
    assert_eq!(invoices.get(7).unwrap().due_day, "earlier");
}

#[test]
fn invoice_number_must_be_a_whole_number() {
    for id in ["-1", "1.5", "abc", "'12'", "18446744073709551616", "[1]"] {
        let text = FIRST.replacen("id: 2020001", &format!("id: {}", id), 1);
        match Invoices::load(vec![file("x.yml", &text)]) {
            Err(LoadError::Parse { path, .. }) => assert_eq!(path, "x.yml"),
            other => panic!("{}: {:?}", id, other),
        }
    }
    let text = FIRST.replacen("id: 2020001", "id: 18446744073709551615", 1);
    let invoices = Invoices::load(vec![file("x.yml", &text)]).unwrap();
    assert_eq!(invoices.records()[0].id, u64::MAX);
}

#[test]
fn invoice_without_a_part_is_malformed() {
    for key in ["issue_day", "due_day", "issuer", "customer", "entries", "billing"] {
        let text = FIRST.replacen(&format!("\n{}:", key), &format!("\nno_{}:", key), 1);
        assert!(matches!(
            Invoices::load(vec![file("x.yml", &text)]),
            Err(LoadError::Parse { .. })
        ));
    }
    for key in ["tax", "registration", "BIC", "IBAN", "total", "variable_symbol", "account_name"] {
        let text = FIRST.replacen(&format!("  {}:", key), &format!("  no_{}:", key), 1);
        assert!(matches!(
            Invoices::load(vec![file("x.yml", &text)]),
            Err(LoadError::Parse { .. })
        ));
    }
}

#[test]
fn field_names_are_case_sensitive() {
    let text = FIRST.replacen("  BIC:", "  bic:", 1);
    assert!(matches!(Invoices::load(vec![file("x.yml", &text)]), Err(LoadError::Parse { .. })));
}

#[test]
fn a_price_must_be_a_number() {
    let text = FIRST.replacen("price: 300", "price: cheap", 1);
    assert!(matches!(Invoices::load(vec![file("x.yml", &text)]), Err(LoadError::Parse { .. })));
    let text = FIRST.replacen("price: 300", "price: '300'", 1);
    assert!(matches!(Invoices::load(vec![file("x.yml", &text)]), Err(LoadError::Parse { .. })));
}

#[test]
fn digits_may_stand_for_a_text() {
    let text = FIRST.replacen("variable_symbol: '2020001'", "variable_symbol: 2020001", 1);
    let invoices = Invoices::load(vec![file("x.yml", &text)]).unwrap();
    assert_eq!(invoices.records()[0], first());
}

#[test]
fn a_list_left_out_after_its_key_is_empty() {
    let text = FIRST.replacen("  email: []", "  email:", 1);
    let invoices = Invoices::load(vec![file("x.yml", &text)]).unwrap();
    assert_eq!(invoices.records()[0], first());
    let text = FIRST.replacen("  email: []", "  email: none", 1);
    assert!(matches!(Invoices::load(vec![file("x.yml", &text)]), Err(LoadError::Parse { .. })));
}

#[test]
fn invoices_render_as_one_list() {
    let invoices = Invoices::load(vec![file("a.yml", FIRST)]).unwrap();
    let text = invoices.render().unwrap();
    assert!(text.starts_with("invoices:\n- id: 2020001\n  issue_day: 2020-01-15\n"));
    assert!(text.ends_with("    variable_symbol: '2020001'\n"));
    assert_eq!(Invoices::default().render().unwrap(), "invoices: []\n");
    assert_eq!(Invoices::default().len(), 0);
}

#[test]
fn a_price_that_is_no_numeral_cannot_be_written() {
    let mut invoice = first();
    invoice.billing.total = "a lot".to_string();
    assert_eq!(invoice.render(), None);
}

#[test]
fn context_holds_every_field_under_its_name() {
    let context = first().context();
    let keys: Vec<&Node> = context.iter().map(|pair| &pair.key).collect();
    let expected: Vec<Node> =
        ["id", "issue_day", "due_day", "issuer", "customer", "entries", "billing"]
            .iter()
            .map(|k| Node::Text(k.to_string()))
            .collect();
    assert_eq!(keys, expected.iter().collect::<Vec<&Node>>());
    assert_eq!(context[0].value, Node::Number("2020001".to_string()));
    assert_eq!(context[1].value, Node::Text("2020-01-15".to_string()));
    assert_eq!(context[3].value.field("name"), Some(&Node::Text("Jane Doe".to_string())));
    assert_eq!(
        context[6].value.field("BIC").and_then(|n| n.text()),
        Some(&"KOMBCZPP".to_string())
    );
}

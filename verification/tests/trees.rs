use ucelofka::account::Account;
use ucelofka::record::{parse, Record};
use ucelofka::tree::{put, Node, Pair};

fn text(s: &str) -> Node {
    Node::Text(s.to_string())
}

fn table(pairs: Vec<(Node, Node)>) -> Node {
    Node::Table(pairs.into_iter().map(|(key, value)| Pair { key, value }).collect())
}

#[test]
fn field_is_the_first_under_its_name() {
    let node = table(vec![
        (text("a"), text("1")),
        (Node::Number("7".to_string()), text("number key")),
        (text("b"), text("2")),
        (text("a"), text("3")),
    ]);
    assert_eq!(node.field("a"), Some(&text("1")));
    assert_eq!(node.field("b"), Some(&text("2")));
    assert_eq!(node.field("c"), None);
    assert_eq!(node.field("7"), None);
    assert_eq!(node.field(""), None);
    assert_eq!(text("a").field("a"), None);
    assert_eq!(Node::List(vec![text("a")]).field("a"), None);
}

#[test]
fn scalars_are_taken_as_text() {
    assert_eq!(text("x").text(), Some(&"x".to_string()));
    assert_eq!(Node::Number("12".to_string()).text(), Some(&"12".to_string()));
    assert_eq!(Node::Bool(true).text(), None);
    assert_eq!(Node::Null.text(), None);
    assert_eq!(Node::List(vec![]).text(), None);
    assert_eq!(text("12").numeral(), None);
    assert_eq!(Node::Number("12".to_string()).numeral(), Some(&"12".to_string()));
}

#[test]
fn lists_of_texts_are_read() {
    let list = Node::List(vec![text("a"), Node::Number("1".to_string()), text("")]);
    assert_eq!(list.texts(), Some(vec!["a".to_string(), "1".to_string(), "".to_string()]));
    assert_eq!(Node::Null.texts(), Some(Vec::new()));
    assert_eq!(Node::List(vec![]).texts(), Some(Vec::new()));
    assert_eq!(Node::List(vec![text("a"), Node::Bool(false)]).texts(), None);
    assert_eq!(Node::List(vec![Node::List(vec![])]).texts(), None);
    assert_eq!(text("a").texts(), None);
}

#[test]
fn fields_are_read_by_kind() {
    let node = table(vec![
        (text("name"), text("N")),
        (text("count"), Node::Number("42".to_string())),
        (text("ratio"), Node::Number("0.5".to_string())),
        (text("tags"), Node::List(vec![text("x"), text("y")])),
    ]);
    assert_eq!(node.text_at("name"), Some("N".to_string()));
    assert_eq!(node.text_at("count"), Some("42".to_string()));
    assert_eq!(node.text_at("tags"), None);
    assert_eq!(node.text_at("missing"), None);
    assert_eq!(node.numeral_at("ratio"), Some("0.5".to_string()));
    assert_eq!(node.numeral_at("name"), None);
    assert_eq!(node.number_at("count"), Some(42));
    assert_eq!(node.number_at("ratio"), None);
    assert_eq!(node.number_at("missing"), None);
    assert_eq!(node.texts_at("tags"), Some(vec!["x".to_string(), "y".to_string()]));
    assert_eq!(node.texts_at("name"), None);
}

#[test]
fn nodes_are_built_from_values() {
    assert_eq!(Node::of_text(&"a".to_string()), text("a"));
    assert_eq!(Node::of_numeral(&"1.5".to_string()), Node::Number("1.5".to_string()));
    assert_eq!(Node::of_number(120), Node::Number("120".to_string()));
    assert_eq!(
        Node::of_texts(&vec!["a".to_string(), "b".to_string()]),
        Node::List(vec![text("a"), text("b")])
    );
    assert_eq!(Node::of_items(vec![Node::Null]), Node::List(vec![Node::Null]));
    let mut pairs = Vec::new();
    put(&mut pairs, "k", Node::Bool(true));
    put(&mut pairs, "l", Node::Null);
    assert_eq!(
        Node::of_fields(pairs),
        table(vec![(text("k"), Node::Bool(true)), (text("l"), Node::Null)])
    );
}

#[test]
fn a_record_is_read_from_a_tree_built_by_hand() {
    let node = table(vec![(text("name"), text("A")), (text("id"), text("a"))]);
    assert_eq!(
        Account::from_tree(&node),
        Ok(Account { id: "a".to_string(), name: "A".to_string() })
    );
    let account = Account { id: "a".to_string(), name: "A".to_string() };
    assert_eq!(
        account.to_tree(),
        table(vec![(text("id"), text("a")), (text("name"), text("A"))])
    );
}

#[test]
fn yaml_tags_are_left_out_of_the_tree() {
    let account = parse::<Account>("id: !custom a\nname: !!str A\n").unwrap();
    assert_eq!(account, Account { id: "a".to_string(), name: "A".to_string() });
}

#[test]
fn yaml_scalars_keep_their_kinds() {
    let account = parse::<Account>("id: 0x10\nname: 1.50\n").unwrap();
    assert_eq!(account, Account { id: "16".to_string(), name: "1.5".to_string() });
    assert!(parse::<Account>("id: true\nname: A\n").is_err());
    assert!(parse::<Account>("id: ~\nname: A\n").is_err());
    let account = parse::<Account>("id: 'true'\nname: \"~\"\n").unwrap();
    assert_eq!(account, Account { id: "true".to_string(), name: "~".to_string() });
}

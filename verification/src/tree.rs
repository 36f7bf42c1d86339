//! The document tree: what a structured-text document holds once its syntax
//! is gone. Records are read out of such trees and written into them.

use crate::numeral::{decimal, number_of, parse_number, print_number};
use vstd::prelude::*;

verus! {

/// A document, or a part of one.
#[derive(Debug, PartialEq)]
pub enum Node {
    /// The empty value.
    Null,
    /// A truth value.
    Bool(bool),
    /// A number, held as its numeral.
    Number(String),
    /// A string.
    Text(String),
    /// An ordered sequence of nodes.
    List(Vec<Node>),
    /// Keys with their values, in document order.
    Table(Vec<Pair>),
}

/// One key of a table with its value.
#[derive(Debug, PartialEq)]
pub struct Pair {
    pub key: Node,
    pub value: Node,
}

/// The mathematical value of a [`Node`].
pub enum Tree {
    Null,
    Bool(bool),
    Number(Seq<char>),
    Text(Seq<char>),
    List(Seq<Tree>),
    Table(Seq<(Tree, Tree)>),
}

/// The tree that `node` stands for.
pub open spec fn tree_of(node: Node) -> Tree
    decreases node,
{
    match node {
        Node::Null => Tree::Null,
        Node::Bool(b) => Tree::Bool(b),
        Node::Number(numeral) => Tree::Number(numeral@),
        Node::Text(text) => Tree::Text(text@),
        Node::List(items) => Tree::List(
            Seq::new(
                items@.len(),
                |i: int|
                    if 0 <= i < items@.len() {
                        tree_of(items@[i])
                    } else {
                        Tree::Null
                    },
            ),
        ),
        Node::Table(pairs) => Tree::Table(
            Seq::new(
                pairs@.len(),
                |i: int|
                    if 0 <= i < pairs@.len() {
                        (tree_of(pairs@[i].key), tree_of(pairs@[i].value))
                    } else {
                        (Tree::Null, Tree::Null)
                    },
            ),
        ),
    }
}

impl View for Node {
    type V = Tree;

    open spec fn view(&self) -> Tree {
        tree_of(*self)
    }
}

/// The strings of a vector, as sequences of characters.
pub open spec fn strings(v: Seq<String>) -> Seq<Seq<char>> {
    Seq::new(v.len(), |i: int| v[i]@)
}

/// The trees of a vector of nodes.
pub open spec fn trees(nodes: Seq<Node>) -> Seq<Tree> {
    Seq::new(nodes.len(), |i: int| nodes[i]@)
}

/// The keys and values of a vector of pairs.
pub open spec fn pair_trees(pairs: Seq<Pair>) -> Seq<(Tree, Tree)> {
    Seq::new(pairs.len(), |i: int| (pairs[i].key@, pairs[i].value@))
}

/// The value that stands under `key` in `pairs`: that of the first pair
/// whose key is the string `key`.
pub open spec fn first_under(pairs: Seq<(Tree, Tree)>, key: Seq<char>) -> Option<Tree>
    decreases pairs.len(),
{
    if pairs.len() == 0 {
        None
    } else if pairs[0].0 == Tree::Text(key) {
        Some(pairs[0].1)
    } else {
        first_under(pairs.drop_first(), key)
    }
}

/// Whether every tree of `items` can be taken as text.
pub open spec fn all_text(items: Seq<Tree>) -> bool {
    forall|i: int| 0 <= i < items.len() ==> (#[trigger] items[i].text()) is Some
}

impl Tree {
    /// The table with the fields `fields`, each under its name.
    pub open spec fn record(fields: Seq<(Seq<char>, Tree)>) -> Tree {
        Tree::Table(Seq::new(fields.len(), |i: int| (Tree::Text(fields[i].0), fields[i].1)))
    }

    /// The list of the strings `items`.
    pub open spec fn of_texts(items: Seq<Seq<char>>) -> Tree {
        Tree::List(Seq::new(items.len(), |i: int| Tree::Text(items[i])))
    }

    /// The value of the field `key` of a table; `None` for a table without
    /// that key and for every other tree.
    pub open spec fn field(self, key: Seq<char>) -> Option<Tree> {
        match self {
            Tree::Table(pairs) => first_under(pairs, key),
            _ => None,
        }
    }

    /// A scalar taken as text: the characters of a string, or the numeral
    /// of a number, which a document may write for a string of digits.
    pub open spec fn text(self) -> Option<Seq<char>> {
        match self {
            Tree::Text(text) => Some(text),
            Tree::Number(numeral) => Some(numeral),
            _ => None,
        }
    }

    /// The numeral of a number.
    pub open spec fn numeral(self) -> Option<Seq<char>> {
        match self {
            Tree::Number(numeral) => Some(numeral),
            _ => None,
        }
    }

    /// The items of a list. The empty value counts as the empty list: a
    /// document may leave out what follows the key.
    pub open spec fn items(self) -> Option<Seq<Tree>> {
        match self {
            Tree::List(items) => Some(items),
            Tree::Null => Some(Seq::empty()),
            _ => None,
        }
    }

    /// The texts of a list whose items can all be taken as text.
    pub open spec fn texts(self) -> Option<Seq<Seq<char>>> {
        match self.items() {
            Some(items) => if all_text(items) {
                Some(Seq::new(items.len(), |i: int| items[i].text()->0))
            } else {
                None
            },
            None => None,
        }
    }

    /// The text of the field `key`.
    pub open spec fn text_at(self, key: Seq<char>) -> Option<Seq<char>> {
        match self.field(key) {
            Some(value) => value.text(),
            None => None,
        }
    }

    /// The numeral of the field `key`.
    pub open spec fn numeral_at(self, key: Seq<char>) -> Option<Seq<char>> {
        match self.field(key) {
            Some(value) => value.numeral(),
            None => None,
        }
    }

    /// The texts of the field `key`.
    pub open spec fn texts_at(self, key: Seq<char>) -> Option<Seq<Seq<char>>> {
        match self.field(key) {
            Some(value) => value.texts(),
            None => None,
        }
    }

    /// The whole number that the field `key` holds.
    pub open spec fn number_at(self, key: Seq<char>) -> Option<u64> {
        match self.numeral_at(key) {
            Some(numeral) => number_of(numeral),
            None => None,
        }
    }
}

/// The field `key` of a table is the value of the pair at `at`, when that
/// pair has the key and none before it has.
pub proof fn lemma_first_under(pairs: Seq<(Tree, Tree)>, key: Seq<char>, at: int)
    requires
        0 <= at < pairs.len(),
        pairs[at].0 == Tree::Text(key),
        forall|j: int| 0 <= j < at ==> pairs[j].0 != Tree::Text(key),
    ensures
        first_under(pairs, key) == Some(pairs[at].1),
    decreases pairs.len(),
{
    if at > 0 {
        let rest = pairs.drop_first();
        assert forall|j: int| 0 <= j < at - 1 implies rest[j].0 != Tree::Text(key) by {
            assert(rest[j] == pairs[j + 1]);
        }
        lemma_first_under(rest, key, at - 1);
    }
}

/// No pair of `pairs` has the key exactly when no field stands under it.
pub proof fn lemma_none_under(pairs: Seq<(Tree, Tree)>, key: Seq<char>)
    ensures
        first_under(pairs, key) is None <==> forall|j: int|
            0 <= j < pairs.len() ==> (#[trigger] pairs[j]).0 != Tree::Text(key),
    decreases pairs.len(),
{
    if pairs.len() > 0 {
        let rest = pairs.drop_first();
        lemma_none_under(rest, key);
        if pairs[0].0 != Tree::Text(key) {
            if first_under(rest, key) is None {
                assert forall|j: int| 0 <= j < pairs.len() implies (#[trigger] pairs[j]).0
                    != Tree::Text(key) by {
                    if j > 0 {
                        assert(rest[j - 1] == pairs[j]);
                    }
                }
            } else {
                let j = choose|j: int|
                    0 <= j < rest.len() && (#[trigger] rest[j]).0 == Tree::Text(key);
                assert(pairs[j + 1] == rest[j]);
            }
        }
    }
}

/// A record holds each of its fields under the field's name, as long as no
/// earlier field has the same name.
pub proof fn lemma_record_field(fields: Seq<(Seq<char>, Tree)>, at: int)
    requires
        0 <= at < fields.len(),
        forall|j: int| 0 <= j < at ==> (#[trigger] fields[j]).0 != fields[at].0,
    ensures
        Tree::record(fields).field(fields[at].0) == Some(fields[at].1),
{
    let pairs = Tree::record(fields)->Table_0;
    assert forall|j: int| 0 <= j < at implies pairs[j].0 != Tree::Text(fields[at].0) by {
        assert(fields[j].0 != fields[at].0);
    }
    lemma_first_under(pairs, fields[at].0, at);
}

/// The list of some strings holds those strings.
pub proof fn lemma_texts_of_texts(items: Seq<Seq<char>>)
    ensures
        Tree::of_texts(items).texts() == Some(items),
{
    let list = Tree::of_texts(items)->List_0;
    assert(all_text(list));
    assert(Tree::of_texts(items).texts()->0 =~= items);
}

impl Node {
    /// The string node that holds `text`.
    pub fn of_text(text: &String) -> (node: Node)
        ensures
            node@ == Tree::Text(text@),
    {
        Node::Text(text.clone())
    }

    /// The number node with the numeral `numeral`.
    pub fn of_numeral(numeral: &String) -> (node: Node)
        ensures
            node@ == Tree::Number(numeral@),
    {
        Node::Number(numeral.clone())
    }

    /// The list node of the strings `items`.
    pub fn of_texts(items: &Vec<String>) -> (node: Node)
        ensures
            node@ == Tree::of_texts(strings(items@)),
    {
        let mut nodes: Vec<Node> = Vec::new();
        let mut i: usize = 0;
        while i < items.len()
            invariant
                i <= items.len(),
                nodes.len() == i,
                forall|j: int| 0 <= j < i ==> (#[trigger] nodes@[j])@ == Tree::Text(items@[j]@),
            decreases items.len() - i,
        {
            nodes.push(Node::Text(items[i].clone()));
            i += 1;
        }
        let node = Node::List(nodes);
        assert(node@->List_0 =~= Tree::of_texts(strings(items@))->List_0);
        node
    }

    /// The list node of `items`.
    pub fn of_items(items: Vec<Node>) -> (node: Node)
        ensures
            node@ == Tree::List(trees(items@)),
    {
        let node = Node::List(items);
        assert(node@->List_0 =~= trees(items@));
        node
    }

    /// The table node of the fields `fields`.
    pub fn of_fields(fields: Vec<Pair>) -> (node: Node)
        ensures
            node@ == Tree::Table(pair_trees(fields@)),
    {
        let node = Node::Table(fields);
        assert(node@->Table_0 =~= pair_trees(fields@));
        node
    }

    /// The value of the field `key`, if this node is a table that has it.
    pub fn field(&self, key: &str) -> (found: Option<&Node>)
        ensures
            match found {
                Some(node) => self@.field(key@) == Some(node@),
                None => self@.field(key@) is None,
            },
    {
        match self {
            Node::Table(pairs) => {
                let wanted = key.to_owned();
                let ghost table = self@->Table_0;
                let mut i: usize = 0;
                while i < pairs.len()
                    invariant
                        i <= pairs.len(),
                        wanted@ == key@,
                        self@ == Tree::Table(table),
                        table.len() == pairs.len(),
                        forall|j: int|
                            0 <= j < pairs.len() ==> #[trigger] table[j] == (
                                pairs@[j].key@,
                                pairs@[j].value@,
                            ),
                        forall|j: int| 0 <= j < i ==> (#[trigger] table[j]).0 != Tree::Text(key@),
                    decreases pairs.len() - i,
                {
                    let hit = match &pairs[i].key {
                        Node::Text(name) => *name == wanted,
                        _ => false,
                    };
                    if hit {
                        proof {
                            lemma_first_under(table, key@, i as int);
                        }
                        return Some(&pairs[i].value);
                    }
                    i += 1;
                }
                proof {
                    lemma_none_under(table, key@);
                }
                None
            },
            _ => None,
        }
    }

    /// This node taken as text, if it is a string or a number.
    pub fn text(&self) -> (found: Option<&String>)
        ensures
            match found {
                Some(text) => self@.text() == Some(text@),
                None => self@.text() is None,
            },
    {
        match self {
            Node::Text(text) => Some(text),
            Node::Number(numeral) => Some(numeral),
            _ => None,
        }
    }

    /// The numeral that this node holds, if it is a number.
    pub fn numeral(&self) -> (found: Option<&String>)
        ensures
            match found {
                Some(numeral) => self@.numeral() == Some(numeral@),
                None => self@.numeral() is None,
            },
    {
        match self {
            Node::Number(numeral) => Some(numeral),
            _ => None,
        }
    }

    /// The texts of this node, if it is a list of strings and numbers, or
    /// the empty value.
    pub fn texts(&self) -> (found: Option<Vec<String>>)
        ensures
            match found {
                Some(texts) => self@.texts() == Some(strings(texts@)),
                None => self@.texts() is None,
            },
    {
        match self {
            Node::Null => {
                let texts: Vec<String> = Vec::new();
                assert(self@.texts()->0 =~= strings(texts@));
                Some(texts)
            },
            Node::List(items) => {
                let ghost list = self@->List_0;
                let mut texts: Vec<String> = Vec::new();
                let mut i: usize = 0;
                while i < items.len()
                    invariant
                        i <= items.len(),
                        texts.len() == i,
                        self@ == Tree::List(list),
                        list.len() == items.len(),
                        forall|j: int| 0 <= j < items.len() ==> #[trigger] list[j] == items@[j]@,
                        forall|j: int|
                            0 <= j < i ==> (#[trigger] list[j]).text() == Some(texts@[j]@),
                    decreases items.len() - i,
                {
                    match items[i].text() {
                        Some(text) => {
                            texts.push(text.clone());
                        },
                        None => {
                            assert(list[i as int].text() is None);
                            return None;
                        },
                    }
                    i += 1;
                }
                assert(all_text(list));
                assert(self@.texts()->0 =~= strings(texts@));
                Some(texts)
            },
            _ => None,
        }
    }

    /// The text of the field `key`.
    pub fn text_at(&self, key: &str) -> (found: Option<String>)
        ensures
            match found {
                Some(text) => self@.text_at(key@) == Some(text@),
                None => self@.text_at(key@) is None,
            },
    {
        match self.field(key) {
            Some(value) => match value.text() {
                Some(text) => Some(text.clone()),
                None => None,
            },
            None => None,
        }
    }

    /// The numeral of the field `key`.
    pub fn numeral_at(&self, key: &str) -> (found: Option<String>)
        ensures
            match found {
                Some(numeral) => self@.numeral_at(key@) == Some(numeral@),
                None => self@.numeral_at(key@) is None,
            },
    {
        match self.field(key) {
            Some(value) => match value.numeral() {
                Some(numeral) => Some(numeral.clone()),
                None => None,
            },
            None => None,
        }
    }

    /// The whole number that the field `key` holds.
    pub fn number_at(&self, key: &str) -> (found: Option<u64>)
        ensures
            found == self@.number_at(key@),
    {
        match self.field(key) {
            Some(value) => match value.numeral() {
                Some(numeral) => parse_number(numeral.as_str()),
                None => None,
            },
            None => None,
        }
    }

    /// The number node that holds `number`.
    pub fn of_number(number: u64) -> (node: Node)
        ensures
            node@ == Tree::Number(decimal(number as nat)),
    {
        Node::Number(print_number(number))
    }

    /// The texts of the field `key`.
    pub fn texts_at(&self, key: &str) -> (found: Option<Vec<String>>)
        ensures
            match found {
                Some(texts) => self@.texts_at(key@) == Some(strings(texts@)),
                None => self@.texts_at(key@) is None,
            },
    {
        match self.field(key) {
            Some(value) => value.texts(),
            None => None,
        }
    }
}

/// Puts `value` under the name `key`, after the pairs that are there.
pub fn put(pairs: &mut Vec<Pair>, key: &str, value: Node)
    ensures
        pair_trees(final(pairs)@) == pair_trees(old(pairs)@).push((Tree::Text(key@), value@)),
{
    pairs.push(Pair { key: Node::Text(key.to_owned()), value });
    assert(pair_trees(pairs@) =~= pair_trees(old(pairs)@).push((Tree::Text(key@), value@)));
}

} // verus!

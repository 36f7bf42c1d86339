//! Ledger entries: the line items that invoices are made of.

use crate::error::{Flaw, LoadError, ParseError};
use crate::record::{
    collection_to_tree, collection_tree, first_keyed, lemma_first_keyed_at,
    lemma_first_keyed_none, load_records, loaded, parse, render, reports, views, Fault, Record,
};
use crate::source::SourceFile;
use crate::tree::{lemma_record_field, lemma_texts_of_texts, put, strings, Node, Pair, Tree};
use crate::yaml::{write_tree, yaml_fault, yaml_text, yaml_tree};
use vstd::prelude::*;

verus! {

/// One line item: what was delivered and what it costs.
#[derive(Debug, Clone, PartialEq)]
pub struct Entry {
    pub id: String,
    pub name: String,
    /// The price, as the numeral that the document holds.
    pub price: String,
    pub currency: String,
    pub details: Vec<String>,
}

/// The mathematical value of an [`Entry`].
pub struct EntryView {
    pub id: Seq<char>,
    pub name: Seq<char>,
    pub price: Seq<char>,
    pub currency: Seq<char>,
    pub details: Seq<Seq<char>>,
}

impl View for Entry {
    type V = EntryView;

    open spec fn view(&self) -> EntryView {
        EntryView {
            id: self.id@,
            name: self.name@,
            price: self.price@,
            currency: self.currency@,
            details: strings(self.details@),
        }
    }
}

/// The fields of an entry's document, in the order in which they are
/// written.
pub open spec fn entry_fields(entry: EntryView) -> Seq<(Seq<char>, Tree)> {
    seq![
        ("id"@, Tree::Text(entry.id)),
        ("name"@, Tree::Text(entry.name)),
        ("price"@, Tree::Number(entry.price)),
        ("currency"@, Tree::Text(entry.currency)),
        ("details"@, Tree::of_texts(entry.details)),
    ]
}

/// The entry that `tree` holds: a table with the texts `id`, `name` and
/// `currency`, the number `price` and the list of texts `details`. Other
/// fields are passed over.
pub open spec fn entry_in(tree: Tree) -> Option<EntryView> {
    if tree.text_at("id"@) is Some && tree.text_at("name"@) is Some && tree.numeral_at("price"@)
        is Some && tree.text_at("currency"@) is Some && tree.texts_at("details"@) is Some {
        Some(
            EntryView {
                id: tree.text_at("id"@)->0,
                name: tree.text_at("name"@)->0,
                price: tree.numeral_at("price"@)->0,
                currency: tree.text_at("currency"@)->0,
                details: tree.texts_at("details"@)->0,
            },
        )
    } else {
        None
    }
}

impl Entry {
    /// The entry with these fields.
    pub fn new(
        id: String,
        name: String,
        price: String,
        currency: String,
        details: Vec<String>,
    ) -> (entry: Entry)
        ensures
            entry.id == id,
            entry.name == name,
            entry.price == price,
            entry.currency == currency,
            entry.details == details,
    {
        Entry { id, name, price, currency, details }
    }

    /// Reads an entry out of the text of its document.
    pub fn try_from(input: String) -> (read: Result<Entry, ParseError>)
        ensures
            match read {
                Ok(entry) => yaml_tree(input@) matches Some(tree) && entry_in(tree) == Some(
                    entry@,
                ),
                Err(ParseError::Syntax(message)) => yaml_tree(input@) is None && message@
                    == yaml_fault(input@),
                Err(ParseError::Flawed(flaw)) => yaml_tree(input@) matches Some(tree) && entry_in(
                    tree,
                ) is None && flaw == Flaw::Malformed,
            },
    {
        parse::<Entry>(input.as_str())
    }

    /// The text of the entry's document. `None` where the price is no
    /// numeral that YAML knows.
    pub fn render(&self) -> (written: Option<String>)
        ensures
            match written {
                Some(text) => yaml_text(Entry::encoded(self@)) == Some(text@),
                None => yaml_text(Entry::encoded(self@)) is None,
            },
    {
        render::<Entry>(self)
    }
}

impl Record for Entry {
    open spec fn decoded(tree: Tree) -> Result<EntryView, Flaw> {
        match entry_in(tree) {
            Some(entry) => Ok(entry),
            None => Err(Flaw::Malformed),
        }
    }

    open spec fn encoded(record: EntryView) -> Tree {
        Tree::record(entry_fields(record))
    }

    proof fn round_trip(record: EntryView) {
        reveal_strlit("id");
        reveal_strlit("name");
        reveal_strlit("price");
        reveal_strlit("currency");
        reveal_strlit("details");
        let fields = entry_fields(record);
        assert(fields[0].0.len() == 2);
        assert(fields[1].0.len() == 4);
        assert(fields[2].0.len() == 5);
        assert(fields[3].0.len() == 8);
        assert(fields[4].0.len() == 7);
        lemma_record_field(fields, 0);
        lemma_record_field(fields, 1);
        lemma_record_field(fields, 2);
        lemma_record_field(fields, 3);
        lemma_record_field(fields, 4);
        lemma_texts_of_texts(record.details);
    }

    fn from_tree(node: &Node) -> (read: Result<Entry, Flaw>) {
        let id = node.text_at("id");
        let name = node.text_at("name");
        let price = node.numeral_at("price");
        let currency = node.text_at("currency");
        let details = node.texts_at("details");
        match (id, name, price, currency, details) {
            (Some(id), Some(name), Some(price), Some(currency), Some(details)) => Ok(
                Entry { id, name, price, currency, details },
            ),
            _ => Err(Flaw::Malformed),
        }
    }

    fn to_tree(&self) -> (node: Node) {
        let mut pairs: Vec<Pair> = Vec::new();
        put(&mut pairs, "id", Node::of_text(&self.id));
        put(&mut pairs, "name", Node::of_text(&self.name));
        put(&mut pairs, "price", Node::of_numeral(&self.price));
        put(&mut pairs, "currency", Node::of_text(&self.currency));
        put(&mut pairs, "details", Node::of_texts(&self.details));
        let node = Node::of_fields(pairs);
        assert(node@->Table_0 =~= Tree::record(entry_fields(self@))->Table_0);
        node
    }
}

/// The entry that a lookup by identifier finds in `entries`: the first
/// with that identifier.
pub open spec fn entry_called(entries: Seq<EntryView>, id: Seq<char>) -> Option<EntryView> {
    first_keyed(entries, |entry: EntryView| entry.id, id)
}

/// The entries of a directory, in the order of their files' names.
#[derive(Debug, Default, Clone, PartialEq)]
pub struct Entries {
    pub entries: Vec<Entry>,
}

impl View for Entries {
    type V = Seq<EntryView>;

    open spec fn view(&self) -> Seq<EntryView> {
        views(self.entries@)
    }
}

impl Entries {
    /// Loads the entries that `files` hold, one from each file, in the
    /// order of the files' names. One file that cannot be read or holds no
    /// entry fails the load.
    pub fn load(files: Vec<SourceFile>) -> (result: Result<Entries, LoadError>)
        ensures
            match result {
                Ok(entries) => loaded::<Entry>(files@) == Ok::<
                    Seq<EntryView>,
                    (Seq<char>, Fault),
                >(entries@),
                Err(error) => loaded::<Entry>(files@) matches Err((name, fault)) && reports(
                    error,
                    name,
                    fault,
                ),
            },
    {
        match load_records::<Entry>(files) {
            Ok(entries) => Ok(Entries { entries }),
            Err(error) => Err(error),
        }
    }

    /// The first entry with the identifier `id`.
    pub fn get(&self, id: &str) -> (found: Option<&Entry>)
        ensures
            match found {
                Some(entry) => entry_called(self@, id@) == Some(entry@),
                None => entry_called(self@, id@) is None,
            },
    {
        let wanted = id.to_owned();
        let mut i: usize = 0;
        while i < self.entries.len()
            invariant
                i <= self.entries.len(),
                wanted@ == id@,
                forall|j: int| 0 <= j < i ==> (#[trigger] self@[j]).id != id@,
            decreases self.entries.len() - i,
        {
            if self.entries[i].id == wanted {
                proof {
                    lemma_first_keyed_at(self@, |entry: EntryView| entry.id, id@, i as int);
                }
                return Some(&self.entries[i]);
            }
            i += 1;
        }
        proof {
            lemma_first_keyed_none(self@, |entry: EntryView| entry.id, id@);
        }
        None
    }

    /// The text of the collection's document. `None` where a price in it
    /// is no numeral that YAML knows.
    pub fn render(&self) -> (written: Option<String>)
        ensures
            match written {
                Some(text) => yaml_text(collection_tree::<Entry>("entries"@, self@)) == Some(
                    text@,
                ),
                None => yaml_text(collection_tree::<Entry>("entries"@, self@)) is None,
            },
    {
        let node = collection_to_tree::<Entry>("entries", &self.entries);
        write_tree(&node)
    }
}

} // verus!

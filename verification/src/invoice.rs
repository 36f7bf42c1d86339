//! Invoices: who issued one, to whom, for what, and how it is to be paid.

use crate::error::{Flaw, LoadError};
use crate::numeral::{decimal, lemma_number_of_decimal};
use crate::record::{
    collection_to_tree, collection_tree, first_keyed, lemma_first_keyed_at,
    lemma_first_keyed_none, load_records, loaded, render, reports, views, Fault, Record,
};
use crate::yaml::{write_tree, yaml_text};
use crate::source::SourceFile;
use crate::tree::{
    lemma_record_field, lemma_texts_of_texts, pair_trees, put, strings, Node, Pair, Tree,
};
use vstd::prelude::*;

verus! {

/// The tax and registration numbers of an issuer.
#[derive(Debug, PartialEq)]
pub struct Identification {
    pub tax: String,
    pub registration: String,
}

/// The mathematical value of an [`Identification`].
pub struct IdentificationView {
    pub tax: Seq<char>,
    pub registration: Seq<char>,
}

impl View for Identification {
    type V = IdentificationView;

    open spec fn view(&self) -> IdentificationView {
        IdentificationView { tax: self.tax@, registration: self.registration@ }
    }
}

/// The fields of an identification, in the order in which they are written.
pub open spec fn identification_fields(record: IdentificationView) -> Seq<(Seq<char>, Tree)> {
    seq![("tax"@, Tree::Text(record.tax)), ("registration"@, Tree::Text(record.registration))]
}

/// The identification that `tree` holds: a table with the texts `tax` and
/// `registration`.
pub open spec fn identification_in(tree: Tree) -> Option<IdentificationView> {
    if tree.text_at("tax"@) is Some && tree.text_at("registration"@) is Some {
        Some(
            IdentificationView {
                tax: tree.text_at("tax"@)->0,
                registration: tree.text_at("registration"@)->0,
            },
        )
    } else {
        None
    }
}

/// An identification that is written can be read, and is then what it was.
pub proof fn lemma_identification_round_trip(record: IdentificationView)
    ensures
        identification_in(Tree::record(identification_fields(record))) == Some(record),
{
    reveal_strlit("tax");
    reveal_strlit("registration");
    let fields = identification_fields(record);
    assert(fields[0].0.len() == 3);
    assert(fields[1].0.len() == 12);
    lemma_record_field(fields, 0);
    lemma_record_field(fields, 1);
}

impl Identification {
    /// Reads the identification out of `node`.
    pub fn from_tree(node: &Node) -> (read: Option<Identification>)
        ensures
            match read {
                Some(record) => identification_in(node@) == Some(record@),
                None => identification_in(node@) is None,
            },
    {
        let tax = node.text_at("tax");
        let registration = node.text_at("registration");
        match (tax, registration) {
            (Some(tax), Some(registration)) => Some(Identification { tax, registration }),
            _ => None,
        }
    }

    /// Writes the identification into a tree.
    pub fn to_tree(&self) -> (node: Node)
        ensures
            node@ == Tree::record(identification_fields(self@)),
    {
        let mut pairs: Vec<Pair> = Vec::new();
        put(&mut pairs, "tax", Node::of_text(&self.tax));
        put(&mut pairs, "registration", Node::of_text(&self.registration));
        let node = Node::of_fields(pairs);
        assert(node@->Table_0 =~= Tree::record(identification_fields(self@))->Table_0);
        node
    }
}

/// Who issues an invoice.
#[derive(Debug, PartialEq)]
pub struct Issuer {
    pub name: String,
    pub address: Vec<String>,
    pub phone: Vec<String>,
    pub email: Vec<String>,
    pub www: Vec<String>,
    pub identification: Identification,
}

/// The mathematical value of an [`Issuer`].
pub struct IssuerView {
    pub name: Seq<char>,
    pub address: Seq<Seq<char>>,
    pub phone: Seq<Seq<char>>,
    pub email: Seq<Seq<char>>,
    pub www: Seq<Seq<char>>,
    pub identification: IdentificationView,
}

impl View for Issuer {
    type V = IssuerView;

    open spec fn view(&self) -> IssuerView {
        IssuerView {
            name: self.name@,
            address: strings(self.address@),
            phone: strings(self.phone@),
            email: strings(self.email@),
            www: strings(self.www@),
            identification: self.identification@,
        }
    }
}

/// The fields of an issuer, in the order in which they are written.
pub open spec fn issuer_fields(record: IssuerView) -> Seq<(Seq<char>, Tree)> {
    seq![
        ("name"@, Tree::Text(record.name)),
        ("address"@, Tree::of_texts(record.address)),
        ("phone"@, Tree::of_texts(record.phone)),
        ("email"@, Tree::of_texts(record.email)),
        ("www"@, Tree::of_texts(record.www)),
        ("identification"@, Tree::record(identification_fields(record.identification))),
    ]
}

/// The identification under the field `key` of `tree`.
pub open spec fn identification_at(tree: Tree, key: Seq<char>) -> Option<IdentificationView> {
    match tree.field(key) {
        Some(part) => identification_in(part),
        None => None,
    }
}

/// The issuer that `tree` holds: a table with the text `name`, the lists of
/// texts `address`, `phone`, `email` and `www`, and the table
/// `identification`.
pub open spec fn issuer_in(tree: Tree) -> Option<IssuerView> {
    if tree.text_at("name"@) is Some && tree.texts_at("address"@) is Some && tree.texts_at(
        "phone"@,
    ) is Some && tree.texts_at("email"@) is Some && tree.texts_at("www"@) is Some
        && identification_at(tree, "identification"@) is Some {
        Some(
            IssuerView {
                name: tree.text_at("name"@)->0,
                address: tree.texts_at("address"@)->0,
                phone: tree.texts_at("phone"@)->0,
                email: tree.texts_at("email"@)->0,
                www: tree.texts_at("www"@)->0,
                identification: identification_at(tree, "identification"@)->0,
            },
        )
    } else {
        None
    }
}

/// An issuer that is written can be read, and is then what it was.
pub proof fn lemma_issuer_round_trip(record: IssuerView)
    ensures
        issuer_in(Tree::record(issuer_fields(record))) == Some(record),
{
    reveal_strlit("name");
    reveal_strlit("address");
    reveal_strlit("phone");
    reveal_strlit("email");
    reveal_strlit("www");
    reveal_strlit("identification");
    let fields = issuer_fields(record);
    assert(fields[0].0.len() == 4);
    assert(fields[1].0.len() == 7);
    assert(fields[2].0.len() == 5 && fields[2].0[0] == 'p');
    assert(fields[3].0.len() == 5 && fields[3].0[0] == 'e');
    assert(fields[4].0.len() == 3);
    assert(fields[5].0.len() == 14);
    lemma_record_field(fields, 0);
    lemma_record_field(fields, 1);
    lemma_record_field(fields, 2);
    lemma_record_field(fields, 3);
    lemma_record_field(fields, 4);
    lemma_record_field(fields, 5);
    lemma_texts_of_texts(record.address);
    lemma_texts_of_texts(record.phone);
    lemma_texts_of_texts(record.email);
    lemma_texts_of_texts(record.www);
    lemma_identification_round_trip(record.identification);
}

impl Issuer {
    /// Reads the issuer out of `node`.
    pub fn from_tree(node: &Node) -> (read: Option<Issuer>)
        ensures
            match read {
                Some(record) => issuer_in(node@) == Some(record@),
                None => issuer_in(node@) is None,
            },
    {
        let name = node.text_at("name");
        let address = node.texts_at("address");
        let phone = node.texts_at("phone");
        let email = node.texts_at("email");
        let www = node.texts_at("www");
        let identification = match node.field("identification") {
            Some(part) => Identification::from_tree(part),
            None => None,
        };
        match (name, address, phone, email, www, identification) {
            (
                Some(name),
                Some(address),
                Some(phone),
                Some(email),
                Some(www),
                Some(identification),
            ) => Some(Issuer { name, address, phone, email, www, identification }),
            _ => None,
        }
    }

    /// Writes the issuer into a tree.
    pub fn to_tree(&self) -> (node: Node)
        ensures
            node@ == Tree::record(issuer_fields(self@)),
    {
        let mut pairs: Vec<Pair> = Vec::new();
        put(&mut pairs, "name", Node::of_text(&self.name));
        put(&mut pairs, "address", Node::of_texts(&self.address));
        put(&mut pairs, "phone", Node::of_texts(&self.phone));
        put(&mut pairs, "email", Node::of_texts(&self.email));
        put(&mut pairs, "www", Node::of_texts(&self.www));
        put(&mut pairs, "identification", self.identification.to_tree());
        let node = Node::of_fields(pairs);
        assert(node@->Table_0 =~= Tree::record(issuer_fields(self@))->Table_0);
        node
    }
}

/// To whom an invoice goes.
#[derive(Debug, PartialEq)]
pub struct Customer {
    pub name: String,
    pub address: Vec<String>,
    pub identification: String,
    pub email: Vec<String>,
}

/// The mathematical value of a [`Customer`].
pub struct CustomerView {
    pub name: Seq<char>,
    pub address: Seq<Seq<char>>,
    pub identification: Seq<char>,
    pub email: Seq<Seq<char>>,
}

impl View for Customer {
    type V = CustomerView;

    open spec fn view(&self) -> CustomerView {
        CustomerView {
            name: self.name@,
            address: strings(self.address@),
            identification: self.identification@,
            email: strings(self.email@),
        }
    }
}

/// The fields of a customer, in the order in which they are written.
pub open spec fn customer_fields(record: CustomerView) -> Seq<(Seq<char>, Tree)> {
    seq![
        ("name"@, Tree::Text(record.name)),
        ("address"@, Tree::of_texts(record.address)),
        ("identification"@, Tree::Text(record.identification)),
        ("email"@, Tree::of_texts(record.email)),
    ]
}

/// The customer that `tree` holds: a table with the texts `name` and
/// `identification` and the lists of texts `address` and `email`.
pub open spec fn customer_in(tree: Tree) -> Option<CustomerView> {
    if tree.text_at("name"@) is Some && tree.texts_at("address"@) is Some && tree.text_at(
        "identification"@,
    ) is Some && tree.texts_at("email"@) is Some {
        Some(
            CustomerView {
                name: tree.text_at("name"@)->0,
                address: tree.texts_at("address"@)->0,
                identification: tree.text_at("identification"@)->0,
                email: tree.texts_at("email"@)->0,
            },
        )
    } else {
        None
    }
}

/// A customer that is written can be read, and is then what it was.
pub proof fn lemma_customer_round_trip(record: CustomerView)
    ensures
        customer_in(Tree::record(customer_fields(record))) == Some(record),
{
    reveal_strlit("name");
    reveal_strlit("address");
    reveal_strlit("identification");
    reveal_strlit("email");
    let fields = customer_fields(record);
    assert(fields[0].0.len() == 4);
    assert(fields[1].0.len() == 7);
    assert(fields[2].0.len() == 14);
    assert(fields[3].0.len() == 5);
    lemma_record_field(fields, 0);
    lemma_record_field(fields, 1);
    lemma_record_field(fields, 2);
    lemma_record_field(fields, 3);
    lemma_texts_of_texts(record.address);
    lemma_texts_of_texts(record.email);
}

impl Customer {
    /// Reads the customer out of `node`.
    pub fn from_tree(node: &Node) -> (read: Option<Customer>)
        ensures
            match read {
                Some(record) => customer_in(node@) == Some(record@),
                None => customer_in(node@) is None,
            },
    {
        let name = node.text_at("name");
        let address = node.texts_at("address");
        let identification = node.text_at("identification");
        let email = node.texts_at("email");
        match (name, address, identification, email) {
            (Some(name), Some(address), Some(identification), Some(email)) => Some(
                Customer { name, address, identification, email },
            ),
            _ => None,
        }
    }

    /// Writes the customer into a tree.
    pub fn to_tree(&self) -> (node: Node)
        ensures
            node@ == Tree::record(customer_fields(self@)),
    {
        let mut pairs: Vec<Pair> = Vec::new();
        put(&mut pairs, "name", Node::of_text(&self.name));
        put(&mut pairs, "address", Node::of_texts(&self.address));
        put(&mut pairs, "identification", Node::of_text(&self.identification));
        put(&mut pairs, "email", Node::of_texts(&self.email));
        let node = Node::of_fields(pairs);
        assert(node@->Table_0 =~= Tree::record(customer_fields(self@))->Table_0);
        node
    }
}

/// One line of an invoice: an entry as the invoice holds it, without an
/// identifier of its own.
#[derive(Debug, PartialEq)]
pub struct Item {
    pub name: String,
    /// The price, as the numeral that the document holds.
    pub price: String,
    pub currency: String,
    pub details: Vec<String>,
}

/// The mathematical value of an [`Item`].
pub struct ItemView {
    pub name: Seq<char>,
    pub price: Seq<char>,
    pub currency: Seq<char>,
    pub details: Seq<Seq<char>>,
}

impl View for Item {
    type V = ItemView;

    open spec fn view(&self) -> ItemView {
        ItemView {
            name: self.name@,
            price: self.price@,
            currency: self.currency@,
            details: strings(self.details@),
        }
    }
}

/// The fields of an item, in the order in which they are written.
pub open spec fn item_fields(record: ItemView) -> Seq<(Seq<char>, Tree)> {
    seq![
        ("name"@, Tree::Text(record.name)),
        ("price"@, Tree::Number(record.price)),
        ("currency"@, Tree::Text(record.currency)),
        ("details"@, Tree::of_texts(record.details)),
    ]
}

/// The item that `tree` holds: a table with the texts `name` and
/// `currency`, the number `price` and the list of texts `details`.
pub open spec fn item_in(tree: Tree) -> Option<ItemView> {
    if tree.text_at("name"@) is Some && tree.numeral_at("price"@) is Some && tree.text_at(
        "currency"@,
    ) is Some && tree.texts_at("details"@) is Some {
        Some(
            ItemView {
                name: tree.text_at("name"@)->0,
                price: tree.numeral_at("price"@)->0,
                currency: tree.text_at("currency"@)->0,
                details: tree.texts_at("details"@)->0,
            },
        )
    } else {
        None
    }
}

/// An item that is written can be read, and is then what it was.
pub proof fn lemma_item_round_trip(record: ItemView)
    ensures
        item_in(Tree::record(item_fields(record))) == Some(record),
{
    reveal_strlit("name");
    reveal_strlit("price");
    reveal_strlit("currency");
    reveal_strlit("details");
    let fields = item_fields(record);
    assert(fields[0].0.len() == 4);
    assert(fields[1].0.len() == 5);
    assert(fields[2].0.len() == 8);
    assert(fields[3].0.len() == 7);
    lemma_record_field(fields, 0);
    lemma_record_field(fields, 1);
    lemma_record_field(fields, 2);
    lemma_record_field(fields, 3);
    lemma_texts_of_texts(record.details);
}

/// Whether every tree of `list` holds an item.
pub open spec fn all_items(list: Seq<Tree>) -> bool {
    forall|i: int| 0 <= i < list.len() ==> (#[trigger] item_in(list[i])) is Some
}

/// The items that `tree` holds: a list of items, or the empty value for
/// none.
pub open spec fn items_in(tree: Tree) -> Option<Seq<ItemView>> {
    match tree.items() {
        Some(list) => if all_items(list) {
            Some(Seq::new(list.len(), |i: int| item_in(list[i])->0))
        } else {
            None
        },
        None => None,
    }
}

/// The list that holds `items`.
pub open spec fn items_tree(items: Seq<ItemView>) -> Tree {
    Tree::List(Seq::new(items.len(), |i: int| Tree::record(item_fields(items[i]))))
}

/// Items that are written can be read, and are then what they were.
pub proof fn lemma_items_round_trip(items: Seq<ItemView>)
    ensures
        items_in(items_tree(items)) == Some(items),
{
    let list = items_tree(items)->List_0;
    assert forall|i: int| 0 <= i < list.len() implies (#[trigger] item_in(list[i])) == Some(
        items[i],
    ) by {
        lemma_item_round_trip(items[i]);
    }
    assert(items_in(items_tree(items))->0 =~= items);
}

impl Item {
    /// Reads the item out of `node`.
    pub fn from_tree(node: &Node) -> (read: Option<Item>)
        ensures
            match read {
                Some(record) => item_in(node@) == Some(record@),
                None => item_in(node@) is None,
            },
    {
        let name = node.text_at("name");
        let price = node.numeral_at("price");
        let currency = node.text_at("currency");
        let details = node.texts_at("details");
        match (name, price, currency, details) {
            (Some(name), Some(price), Some(currency), Some(details)) => Some(
                Item { name, price, currency, details },
            ),
            _ => None,
        }
    }

    /// Writes the item into a tree.
    pub fn to_tree(&self) -> (node: Node)
        ensures
            node@ == Tree::record(item_fields(self@)),
    {
        let mut pairs: Vec<Pair> = Vec::new();
        put(&mut pairs, "name", Node::of_text(&self.name));
        put(&mut pairs, "price", Node::of_numeral(&self.price));
        put(&mut pairs, "currency", Node::of_text(&self.currency));
        put(&mut pairs, "details", Node::of_texts(&self.details));
        let node = Node::of_fields(pairs);
        assert(node@->Table_0 =~= Tree::record(item_fields(self@))->Table_0);
        node
    }

    /// Reads the items out of `node`.
    pub fn list_from_tree(node: &Node) -> (read: Option<Vec<Item>>)
        ensures
            match read {
                Some(items) => items_in(node@) == Some(views(items@)),
                None => items_in(node@) is None,
            },
    {
        match node {
            Node::Null => {
                let items: Vec<Item> = Vec::new();
                assert(items_in(node@)->0 =~= views(items@));
                Some(items)
            },
            Node::List(nodes) => {
                let ghost list = node@->List_0;
                let mut items: Vec<Item> = Vec::new();
                let mut i: usize = 0;
                while i < nodes.len()
                    invariant
                        i <= nodes.len(),
                        items.len() == i,
                        node@ == Tree::List(list),
                        list.len() == nodes.len(),
                        forall|j: int| 0 <= j < nodes.len() ==> #[trigger] list[j] == nodes@[j]@,
                        forall|j: int|
                            0 <= j < i ==> (#[trigger] item_in(list[j])) == Some(items@[j]@),
                    decreases nodes.len() - i,
                {
                    match Item::from_tree(&nodes[i]) {
                        Some(item) => {
                            items.push(item);
                        },
                        None => {
                            assert(item_in(list[i as int]) is None);
                            return None;
                        },
                    }
                    i += 1;
                }
                assert(all_items(list));
                assert(items_in(node@)->0 =~= views(items@));
                Some(items)
            },
            _ => None,
        }
    }

    /// Writes the items into a list.
    pub fn list_to_tree(items: &Vec<Item>) -> (node: Node)
        ensures
            node@ == items_tree(views(items@)),
    {
        let mut nodes: Vec<Node> = Vec::new();
        let mut i: usize = 0;
        while i < items.len()
            invariant
                i <= items.len(),
                nodes.len() == i,
                forall|j: int|
                    0 <= j < i ==> (#[trigger] nodes@[j])@ == Tree::record(
                        item_fields(items@[j]@),
                    ),
            decreases items.len() - i,
        {
            nodes.push(items[i].to_tree());
            i += 1;
        }
        let node = Node::of_items(nodes);
        assert(node@->List_0 =~= items_tree(views(items@))->List_0);
        node
    }
}

/// How an invoice is to be paid.
#[derive(Debug, PartialEq)]
pub struct Billing {
    pub account_name: String,
    pub account_number: String,
    /// The bank's identifier code; `BIC` in a document.
    pub bic: String,
    /// The account's international number; `IBAN` in a document.
    pub iban: String,
    /// The sum, as the numeral that the document holds.
    pub total: String,
    pub currency: String,
    pub variable_symbol: String,
}

/// The mathematical value of a [`Billing`].
pub struct BillingView {
    pub account_name: Seq<char>,
    pub account_number: Seq<char>,
    pub bic: Seq<char>,
    pub iban: Seq<char>,
    pub total: Seq<char>,
    pub currency: Seq<char>,
    pub variable_symbol: Seq<char>,
}

impl View for Billing {
    type V = BillingView;

    open spec fn view(&self) -> BillingView {
        BillingView {
            account_name: self.account_name@,
            account_number: self.account_number@,
            bic: self.bic@,
            iban: self.iban@,
            total: self.total@,
            currency: self.currency@,
            variable_symbol: self.variable_symbol@,
        }
    }
}

/// The fields of a billing, in the order in which they are written.
pub open spec fn billing_fields(record: BillingView) -> Seq<(Seq<char>, Tree)> {
    seq![
        ("account_name"@, Tree::Text(record.account_name)),
        ("account_number"@, Tree::Text(record.account_number)),
        ("BIC"@, Tree::Text(record.bic)),
        ("IBAN"@, Tree::Text(record.iban)),
        ("total"@, Tree::Number(record.total)),
        ("currency"@, Tree::Text(record.currency)),
        ("variable_symbol"@, Tree::Text(record.variable_symbol)),
    ]
}

/// The billing that `tree` holds: a table with the texts `account_name`,
/// `account_number`, `BIC`, `IBAN`, `currency` and `variable_symbol` and
/// the number `total`.
pub open spec fn billing_in(tree: Tree) -> Option<BillingView> {
    if tree.text_at("account_name"@) is Some && tree.text_at("account_number"@) is Some
        && tree.text_at("BIC"@) is Some && tree.text_at("IBAN"@) is Some && tree.numeral_at(
        "total"@,
    ) is Some && tree.text_at("currency"@) is Some && tree.text_at("variable_symbol"@) is Some {
        Some(
            BillingView {
                account_name: tree.text_at("account_name"@)->0,
                account_number: tree.text_at("account_number"@)->0,
                bic: tree.text_at("BIC"@)->0,
                iban: tree.text_at("IBAN"@)->0,
                total: tree.numeral_at("total"@)->0,
                currency: tree.text_at("currency"@)->0,
                variable_symbol: tree.text_at("variable_symbol"@)->0,
            },
        )
    } else {
        None
    }
}

/// A billing that is written can be read, and is then what it was.
pub proof fn lemma_billing_round_trip(record: BillingView)
    ensures
        billing_in(Tree::record(billing_fields(record))) == Some(record),
{
    reveal_strlit("account_name");
    reveal_strlit("account_number");
    reveal_strlit("BIC");
    reveal_strlit("IBAN");
    reveal_strlit("total");
    reveal_strlit("currency");
    reveal_strlit("variable_symbol");
    let fields = billing_fields(record);
    assert(fields[0].0.len() == 12);
    assert(fields[1].0.len() == 14);
    assert(fields[2].0.len() == 3);
    assert(fields[3].0.len() == 4);
    assert(fields[4].0.len() == 5);
    assert(fields[5].0.len() == 8);
    assert(fields[6].0.len() == 15);
    lemma_record_field(fields, 0);
    lemma_record_field(fields, 1);
    lemma_record_field(fields, 2);
    lemma_record_field(fields, 3);
    lemma_record_field(fields, 4);
    lemma_record_field(fields, 5);
    lemma_record_field(fields, 6);
}

impl Billing {
    /// Reads the billing out of `node`.
    pub fn from_tree(node: &Node) -> (read: Option<Billing>)
        ensures
            match read {
                Some(record) => billing_in(node@) == Some(record@),
                None => billing_in(node@) is None,
            },
    {
        let account_name = node.text_at("account_name");
        let account_number = node.text_at("account_number");
        let bic = node.text_at("BIC");
        let iban = node.text_at("IBAN");
        let total = node.numeral_at("total");
        let currency = node.text_at("currency");
        let variable_symbol = node.text_at("variable_symbol");
        match (account_name, account_number, bic, iban, total, currency, variable_symbol) {
            (
                Some(account_name),
                Some(account_number),
                Some(bic),
                Some(iban),
                Some(total),
                Some(currency),
                Some(variable_symbol),
            ) => Some(
                Billing {
                    account_name,
                    account_number,
                    bic,
                    iban,
                    total,
                    currency,
                    variable_symbol,
                },
            ),
            _ => None,
        }
    }

    /// Writes the billing into a tree.
    pub fn to_tree(&self) -> (node: Node)
        ensures
            node@ == Tree::record(billing_fields(self@)),
    {
        let mut pairs: Vec<Pair> = Vec::new();
        put(&mut pairs, "account_name", Node::of_text(&self.account_name));
        put(&mut pairs, "account_number", Node::of_text(&self.account_number));
        put(&mut pairs, "BIC", Node::of_text(&self.bic));
        put(&mut pairs, "IBAN", Node::of_text(&self.iban));
        put(&mut pairs, "total", Node::of_numeral(&self.total));
        put(&mut pairs, "currency", Node::of_text(&self.currency));
        put(&mut pairs, "variable_symbol", Node::of_text(&self.variable_symbol));
        let node = Node::of_fields(pairs);
        assert(node@->Table_0 =~= Tree::record(billing_fields(self@))->Table_0);
        node
    }
}

/// One invoice.
#[derive(Debug, PartialEq)]
pub struct Invoice {
    pub id: u64,
    pub issue_day: String,
    pub due_day: String,
    pub issuer: Issuer,
    pub customer: Customer,
    pub entries: Vec<Item>,
    pub billing: Billing,
}

/// The mathematical value of an [`Invoice`].
pub struct InvoiceView {
    pub id: u64,
    pub issue_day: Seq<char>,
    pub due_day: Seq<char>,
    pub issuer: IssuerView,
    pub customer: CustomerView,
    pub entries: Seq<ItemView>,
    pub billing: BillingView,
}

impl View for Invoice {
    type V = InvoiceView;

    open spec fn view(&self) -> InvoiceView {
        InvoiceView {
            id: self.id,
            issue_day: self.issue_day@,
            due_day: self.due_day@,
            issuer: self.issuer@,
            customer: self.customer@,
            entries: views(self.entries@),
            billing: self.billing@,
        }
    }
}

/// The fields of an invoice, in the order in which they are written.
pub open spec fn invoice_fields(record: InvoiceView) -> Seq<(Seq<char>, Tree)> {
    seq![
        ("id"@, Tree::Number(decimal(record.id as nat))),
        ("issue_day"@, Tree::Text(record.issue_day)),
        ("due_day"@, Tree::Text(record.due_day)),
        ("issuer"@, Tree::record(issuer_fields(record.issuer))),
        ("customer"@, Tree::record(customer_fields(record.customer))),
        ("entries"@, items_tree(record.entries)),
        ("billing"@, Tree::record(billing_fields(record.billing))),
    ]
}

/// The issuer under the field `key` of `tree`.
pub open spec fn issuer_at(tree: Tree, key: Seq<char>) -> Option<IssuerView> {
    match tree.field(key) {
        Some(part) => issuer_in(part),
        None => None,
    }
}

/// The customer under the field `key` of `tree`.
pub open spec fn customer_at(tree: Tree, key: Seq<char>) -> Option<CustomerView> {
    match tree.field(key) {
        Some(part) => customer_in(part),
        None => None,
    }
}

/// The items under the field `key` of `tree`.
pub open spec fn items_at(tree: Tree, key: Seq<char>) -> Option<Seq<ItemView>> {
    match tree.field(key) {
        Some(part) => items_in(part),
        None => None,
    }
}

/// The billing under the field `key` of `tree`.
pub open spec fn billing_at(tree: Tree, key: Seq<char>) -> Option<BillingView> {
    match tree.field(key) {
        Some(part) => billing_in(part),
        None => None,
    }
}

/// The invoice that `tree` holds: a table with the whole number `id`, the
/// texts `issue_day` and `due_day`, the tables `issuer`, `customer` and
/// `billing` and the list of items `entries`.
pub open spec fn invoice_in(tree: Tree) -> Option<InvoiceView> {
    if tree.number_at("id"@) is Some && tree.text_at("issue_day"@) is Some && tree.text_at(
        "due_day"@,
    ) is Some && issuer_at(tree, "issuer"@) is Some && customer_at(tree, "customer"@) is Some
        && items_at(tree, "entries"@) is Some && billing_at(tree, "billing"@) is Some {
        Some(
            InvoiceView {
                id: tree.number_at("id"@)->0,
                issue_day: tree.text_at("issue_day"@)->0,
                due_day: tree.text_at("due_day"@)->0,
                issuer: issuer_at(tree, "issuer"@)->0,
                customer: customer_at(tree, "customer"@)->0,
                entries: items_at(tree, "entries"@)->0,
                billing: billing_at(tree, "billing"@)->0,
            },
        )
    } else {
        None
    }
}

impl Record for Invoice {
    open spec fn decoded(tree: Tree) -> Result<InvoiceView, Flaw> {
        match invoice_in(tree) {
            Some(record) => Ok(record),
            None => Err(Flaw::Malformed),
        }
    }

    open spec fn encoded(record: InvoiceView) -> Tree {
        Tree::record(invoice_fields(record))
    }

    proof fn round_trip(record: InvoiceView) {
        reveal_strlit("id");
        reveal_strlit("issue_day");
        reveal_strlit("due_day");
        reveal_strlit("issuer");
        reveal_strlit("customer");
        reveal_strlit("entries");
        reveal_strlit("billing");
        let fields = invoice_fields(record);
        assert(fields[0].0.len() == 2);
        assert(fields[1].0.len() == 9);
        assert(fields[2].0.len() == 7 && fields[2].0[0] == 'd');
        assert(fields[3].0.len() == 6);
        assert(fields[4].0.len() == 8);
        assert(fields[5].0.len() == 7 && fields[5].0[0] == 'e');
        assert(fields[6].0.len() == 7 && fields[6].0[0] == 'b');
        lemma_record_field(fields, 0);
        lemma_record_field(fields, 1);
        lemma_record_field(fields, 2);
        lemma_record_field(fields, 3);
        lemma_record_field(fields, 4);
        lemma_record_field(fields, 5);
        lemma_record_field(fields, 6);
        lemma_number_of_decimal(record.id);
        lemma_issuer_round_trip(record.issuer);
        lemma_customer_round_trip(record.customer);
        lemma_items_round_trip(record.entries);
        lemma_billing_round_trip(record.billing);
    }

    fn from_tree(node: &Node) -> (read: Result<Invoice, Flaw>) {
        let id = node.number_at("id");
        let issue_day = node.text_at("issue_day");
        let due_day = node.text_at("due_day");
        let issuer = match node.field("issuer") {
            Some(part) => Issuer::from_tree(part),
            None => None,
        };
        let customer = match node.field("customer") {
            Some(part) => Customer::from_tree(part),
            None => None,
        };
        let entries = match node.field("entries") {
            Some(part) => Item::list_from_tree(part),
            None => None,
        };
        let billing = match node.field("billing") {
            Some(part) => Billing::from_tree(part),
            None => None,
        };
        match (id, issue_day, due_day, issuer, customer, entries, billing) {
            (
                Some(id),
                Some(issue_day),
                Some(due_day),
                Some(issuer),
                Some(customer),
                Some(entries),
                Some(billing),
            ) => Ok(Invoice { id, issue_day, due_day, issuer, customer, entries, billing }),
            _ => Err(Flaw::Malformed),
        }
    }

    fn to_tree(&self) -> (node: Node) {
        Node::of_fields(self.context())
    }
}

/// The invoice that a lookup by number finds in `invoices`: the first with
/// that number.
pub open spec fn invoice_numbered(invoices: Seq<InvoiceView>, id: u64) -> Option<InvoiceView> {
    first_keyed(invoices, |invoice: InvoiceView| invoice.id, id)
}

/// The invoices of a directory, in the order of their files' names.
#[derive(Debug, PartialEq)]
pub struct Invoices {
    invoices: Vec<Invoice>,
}

impl View for Invoices {
    type V = Seq<InvoiceView>;

    closed spec fn view(&self) -> Seq<InvoiceView> {
        views(self.invoices@)
    }
}

impl Invoices {
    /// Loads the invoices that `files` hold, one from each file, in the
    /// order of the files' names. One file that cannot be read or holds no
    /// invoice fails the load.
    pub fn load(files: Vec<SourceFile>) -> (result: Result<Invoices, LoadError>)
        ensures
            match result {
                Ok(invoices) => loaded::<Invoice>(files@) == Ok::<
                    Seq<InvoiceView>,
                    (Seq<char>, Fault),
                >(invoices@),
                Err(error) => loaded::<Invoice>(files@) matches Err((name, fault)) && reports(
                    error,
                    name,
                    fault,
                ),
            },
    {
        match load_records::<Invoice>(files) {
            Ok(invoices) => Ok(Invoices { invoices }),
            Err(error) => Err(error),
        }
    }

    /// The first invoice with the number `id`.
    pub fn get(&self, id: u64) -> (found: Option<&Invoice>)
        ensures
            match found {
                Some(invoice) => invoice_numbered(self@, id) == Some(invoice@),
                None => invoice_numbered(self@, id) is None,
            },
    {
        let mut i: usize = 0;
        while i < self.invoices.len()
            invariant
                i <= self.invoices.len(),
                forall|j: int| 0 <= j < i ==> (#[trigger] self@[j]).id != id,
            decreases self.invoices.len() - i,
        {
            if self.invoices[i].id == id {
                proof {
                    lemma_first_keyed_at(self@, |invoice: InvoiceView| invoice.id, id, i as int);
                }
                return Some(&self.invoices[i]);
            }
            i += 1;
        }
        proof {
            lemma_first_keyed_none(self@, |invoice: InvoiceView| invoice.id, id);
        }
        None
    }

    /// How many invoices there are.
    pub fn len(&self) -> (len: usize)
        ensures
            len == self@.len(),
    {
        self.invoices.len()
    }

    /// The invoices, in their order.
    pub fn records(&self) -> (records: &Vec<Invoice>)
        ensures
            views(records@) == self@,
    {
        &self.invoices
    }

    /// The text of the collection's document. `None` where a numeral in
    /// it is none that YAML knows.
    pub fn render(&self) -> (written: Option<String>)
        ensures
            match written {
                Some(text) => yaml_text(collection_tree::<Invoice>("invoices"@, self@)) == Some(
                    text@,
                ),
                None => yaml_text(collection_tree::<Invoice>("invoices"@, self@)) is None,
            },
    {
        let node = collection_to_tree::<Invoice>("invoices", &self.invoices);
        write_tree(&node)
    }
}

impl Default for Invoices {
    /// No invoices.
    fn default() -> (invoices: Invoices)
        ensures
            invoices@ == Seq::<InvoiceView>::empty(),
    {
        let invoices = Invoices { invoices: Vec::new() };
        assert(invoices@ =~= Seq::<InvoiceView>::empty());
        invoices
    }
}

impl Invoice {
    /// The text of the invoice's document. `None` where a numeral in it is
    /// none that YAML knows.
    pub fn render(&self) -> (written: Option<String>)
        ensures
            match written {
                Some(text) => yaml_text(Invoice::encoded(self@)) == Some(text@),
                None => yaml_text(Invoice::encoded(self@)) is None,
            },
    {
        render::<Invoice>(self)
    }

    /// What a template gets to see of the invoice: every field under its
    /// name, as the document holds them.
    pub fn context(&self) -> (context: Vec<Pair>)
        ensures
            Tree::Table(pair_trees(context@)) == Invoice::encoded(self@),
    {
        let mut pairs: Vec<Pair> = Vec::new();
        put(&mut pairs, "id", Node::of_number(self.id));
        put(&mut pairs, "issue_day", Node::of_text(&self.issue_day));
        put(&mut pairs, "due_day", Node::of_text(&self.due_day));
        put(&mut pairs, "issuer", self.issuer.to_tree());
        put(&mut pairs, "customer", self.customer.to_tree());
        put(&mut pairs, "entries", Item::list_to_tree(&self.entries));
        put(&mut pairs, "billing", self.billing.to_tree());
        assert(pair_trees(pairs@) =~= Tree::record(invoice_fields(self@))->Table_0);
        pairs
    }
}

} // verus!

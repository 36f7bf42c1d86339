//! Accounts: the records that the `accounts` directory holds, each known
//! by its identifier.

use crate::error::{Flaw, LoadError};
use crate::record::{
    collection_to_tree, collection_tree, first_keyed, lemma_first_keyed_at,
    lemma_first_keyed_none, load_records, loaded, render, reports, views, Fault, Record,
};
use crate::source::SourceFile;
use crate::tree::{lemma_record_field, put, Node, Pair, Tree};
use crate::yaml::{write_tree, yaml_text};
use vstd::prelude::*;

verus! {

/// One account.
#[derive(Debug, PartialEq)]
pub struct Account {
    pub id: String,
    pub name: String,
}

/// The mathematical value of an [`Account`].
pub struct AccountView {
    pub id: Seq<char>,
    pub name: Seq<char>,
}

impl View for Account {
    type V = AccountView;

    open spec fn view(&self) -> AccountView {
        AccountView { id: self.id@, name: self.name@ }
    }
}

/// The fields of an account, in the order in which they are written.
pub open spec fn account_fields(record: AccountView) -> Seq<(Seq<char>, Tree)> {
    seq![("id"@, Tree::Text(record.id)), ("name"@, Tree::Text(record.name))]
}

/// The account that `tree` holds: a table with the texts `id` and `name`.
/// Other fields are passed over.
pub open spec fn account_in(tree: Tree) -> Option<AccountView> {
    if tree.text_at("id"@) is Some && tree.text_at("name"@) is Some {
        Some(AccountView { id: tree.text_at("id"@)->0, name: tree.text_at("name"@)->0 })
    } else {
        None
    }
}

impl Record for Account {
    open spec fn decoded(tree: Tree) -> Result<AccountView, Flaw> {
        match account_in(tree) {
            Some(record) => Ok(record),
            None => Err(Flaw::Malformed),
        }
    }

    open spec fn encoded(record: AccountView) -> Tree {
        Tree::record(account_fields(record))
    }

    proof fn round_trip(record: AccountView) {
        reveal_strlit("id");
        reveal_strlit("name");
        let fields = account_fields(record);
        assert(fields[0].0.len() == 2);
        assert(fields[1].0.len() == 4);
        lemma_record_field(fields, 0);
        lemma_record_field(fields, 1);
    }

    fn from_tree(node: &Node) -> (read: Result<Account, Flaw>) {
        let id = node.text_at("id");
        let name = node.text_at("name");
        match (id, name) {
            (Some(id), Some(name)) => Ok(Account { id, name }),
            _ => Err(Flaw::Malformed),
        }
    }

    fn to_tree(&self) -> (node: Node) {
        let mut pairs: Vec<Pair> = Vec::new();
        put(&mut pairs, "id", Node::of_text(&self.id));
        put(&mut pairs, "name", Node::of_text(&self.name));
        let node = Node::of_fields(pairs);
        assert(node@->Table_0 =~= Tree::record(account_fields(self@))->Table_0);
        node
    }
}

impl Account {
    /// An account with the same fields.
    pub fn copy(&self) -> (account: Account)
        ensures
            account@ == self@,
    {
        Account { id: self.id.clone(), name: self.name.clone() }
    }

    /// The text of the account's document.
    pub fn render(&self) -> (written: Option<String>)
        ensures
            match written {
                Some(text) => yaml_text(Account::encoded(self@)) == Some(text@),
                None => yaml_text(Account::encoded(self@)) is None,
            },
    {
        render::<Account>(self)
    }
}

/// The account that a lookup by identifier finds in `accounts`: the first
/// with that identifier.
pub open spec fn account_called(accounts: Seq<AccountView>, id: Seq<char>) -> Option<AccountView> {
    first_keyed(accounts, |account: AccountView| account.id, id)
}

/// The accounts of a directory, in the order of their files' names.
#[derive(Debug, PartialEq)]
pub struct Accounts {
    accounts: Vec<Account>,
}

impl View for Accounts {
    type V = Seq<AccountView>;

    closed spec fn view(&self) -> Seq<AccountView> {
        views(self.accounts@)
    }
}

impl Accounts {
    /// Loads the accounts that `files` hold, one from each file, in the
    /// order of the files' names. One file that cannot be read or holds no
    /// account fails the load.
    pub fn load(files: Vec<SourceFile>) -> (result: Result<Accounts, LoadError>)
        ensures
            match result {
                Ok(accounts) => loaded::<Account>(files@) == Ok::<
                    Seq<AccountView>,
                    (Seq<char>, Fault),
                >(accounts@),
                Err(error) => loaded::<Account>(files@) matches Err((name, fault)) && reports(
                    error,
                    name,
                    fault,
                ),
            },
    {
        match load_records::<Account>(files) {
            Ok(accounts) => Ok(Accounts { accounts }),
            Err(error) => Err(error),
        }
    }

    /// The first account with the identifier `id`.
    pub fn get(&self, id: &str) -> (found: Option<&Account>)
        ensures
            match found {
                Some(account) => account_called(self@, id@) == Some(account@),
                None => account_called(self@, id@) is None,
            },
    {
        let wanted = id.to_owned();
        let mut i: usize = 0;
        while i < self.accounts.len()
            invariant
                i <= self.accounts.len(),
                wanted@ == id@,
                forall|j: int| 0 <= j < i ==> (#[trigger] self@[j]).id != id@,
            decreases self.accounts.len() - i,
        {
            if self.accounts[i].id == wanted {
                proof {
                    lemma_first_keyed_at(self@, |account: AccountView| account.id, id@, i as int);
                }
                return Some(&self.accounts[i]);
            }
            i += 1;
        }
        proof {
            lemma_first_keyed_none(self@, |account: AccountView| account.id, id@);
        }
        None
    }

    /// How many accounts there are.
    pub fn len(&self) -> (len: usize)
        ensures
            len == self@.len(),
    {
        self.accounts.len()
    }

    /// The accounts, in their order.
    pub fn records(&self) -> (records: &Vec<Account>)
        ensures
            views(records@) == self@,
    {
        &self.accounts
    }

    /// The text of the collection's document.
    pub fn render(&self) -> (written: Option<String>)
        ensures
            match written {
                Some(text) => yaml_text(collection_tree::<Account>("accounts"@, self@)) == Some(
                    text@,
                ),
                None => yaml_text(collection_tree::<Account>("accounts"@, self@)) is None,
            },
    {
        let node = collection_to_tree::<Account>("accounts", &self.accounts);
        write_tree(&node)
    }
}

} // verus!

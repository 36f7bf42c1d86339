//! The first shape of an identity's document.

use crate::error::LoadError;
use crate::record::{
    collection_to_tree, collection_tree, first_keyed, lemma_first_keyed_at,
    lemma_first_keyed_none, load_records, loaded, reports, views, Fault,
};
use crate::source::SourceFile;
use crate::tree::{Node, Tree};
use crate::yaml::{write_tree, yaml_text};
use vstd::prelude::*;

verus! {

/// The version that documents of this shape carry.
pub const VERSION: u32 = 1;

/// Who somebody is: an identifier and a name.
#[derive(Debug, PartialEq)]
pub struct Identity {
    pub id: String,
    pub name: String,
}

/// The mathematical value of an [`Identity`].
pub struct IdentityView {
    pub id: Seq<char>,
    pub name: Seq<char>,
}

impl View for Identity {
    type V = IdentityView;

    open spec fn view(&self) -> IdentityView {
        IdentityView { id: self.id@, name: self.name@ }
    }
}

/// The identity that a document of this shape holds: a table with the
/// texts `id` and `name`. Other fields are passed over.
pub open spec fn identity_in(tree: Tree) -> Option<IdentityView> {
    if tree.text_at("id"@) is Some && tree.text_at("name"@) is Some {
        Some(IdentityView { id: tree.text_at("id"@)->0, name: tree.text_at("name"@)->0 })
    } else {
        None
    }
}

impl Identity {
    /// Reads the identity out of a document of this shape.
    pub fn from_tree(node: &Node) -> (read: Option<Identity>)
        ensures
            match read {
                Some(record) => identity_in(node@) == Some(record@),
                None => identity_in(node@) is None,
            },
    {
        let id = node.text_at("id");
        let name = node.text_at("name");
        match (id, name) {
            (Some(id), Some(name)) => Some(Identity { id, name }),
            _ => None,
        }
    }
}

/// The identity that a lookup by identifier finds in `identities`: the
/// first with that identifier.
pub open spec fn identity_called(identities: Seq<IdentityView>, id: Seq<char>) -> Option<
    IdentityView,
> {
    first_keyed(identities, |identity: IdentityView| identity.id, id)
}

/// The identities of a directory, in the order of their files' names.
#[derive(Debug, PartialEq)]
pub struct Identities {
    identities: Vec<Identity>,
}

impl View for Identities {
    type V = Seq<IdentityView>;

    closed spec fn view(&self) -> Seq<IdentityView> {
        views(self.identities@)
    }
}

impl Identities {
    /// Loads the identities that `files` hold, one from each file, in the
    /// order of the files' names, each brought up to the current version.
    /// One file that cannot be read, holds no identity or is of a version
    /// that is not known fails the load.
    pub fn load(files: Vec<SourceFile>) -> (result: Result<Identities, LoadError>)
        ensures
            match result {
                Ok(identities) => loaded::<Identity>(files@) == Ok::<
                    Seq<IdentityView>,
                    (Seq<char>, Fault),
                >(identities@),
                Err(error) => loaded::<Identity>(files@) matches Err((name, fault)) && reports(
                    error,
                    name,
                    fault,
                ),
            },
    {
        match load_records::<Identity>(files) {
            Ok(identities) => Ok(Identities { identities }),
            Err(error) => Err(error),
        }
    }

    /// The first identity with the identifier `id`.
    pub fn get(&self, id: &str) -> (found: Option<&Identity>)
        ensures
            match found {
                Some(identity) => identity_called(self@, id@) == Some(identity@),
                None => identity_called(self@, id@) is None,
            },
    {
        let wanted = id.to_owned();
        let mut i: usize = 0;
        while i < self.identities.len()
            invariant
                i <= self.identities.len(),
                wanted@ == id@,
                forall|j: int| 0 <= j < i ==> (#[trigger] self@[j]).id != id@,
            decreases self.identities.len() - i,
        {
            if self.identities[i].id == wanted {
                proof {
                    lemma_first_keyed_at(
                        self@,
                        |identity: IdentityView| identity.id,
                        id@,
                        i as int,
                    );
                }
                return Some(&self.identities[i]);
            }
            i += 1;
        }
        proof {
            lemma_first_keyed_none(self@, |identity: IdentityView| identity.id, id@);
        }
        None
    }

    /// How many identities there are.
    pub fn len(&self) -> (len: usize)
        ensures
            len == self@.len(),
    {
        self.identities.len()
    }

    /// The identities, in their order.
    pub fn records(&self) -> (records: &Vec<Identity>)
        ensures
            views(records@) == self@,
    {
        &self.identities
    }

    /// The text of the collection's document.
    pub fn render(&self) -> (written: Option<String>)
        ensures
            match written {
                Some(text) => yaml_text(collection_tree::<Identity>("identities"@, self@))
                    == Some(text@),
                None => yaml_text(collection_tree::<Identity>("identities"@, self@)) is None,
            },
    {
        let node = collection_to_tree::<Identity>("identities", &self.identities);
        write_tree(&node)
    }
}

} // verus!

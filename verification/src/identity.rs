//! Identities, and the versions of their documents. A document says which
//! version it is of; what is read from it is brought up to the latest
//! version before anybody sees it.

pub mod v1;

pub use latest::{Identities, Identity, IdentityView};
pub use v1 as latest;

use crate::error::Flaw;
use crate::numeral::{decimal, lemma_number_of_decimal};
use crate::record::{render, Record};
use crate::tree::{lemma_record_field, put, Node, Pair, Tree};
use crate::yaml::yaml_text;
use vstd::prelude::*;

verus! {

/// The version of the documents that are written, and the one that every
/// document read is brought up to.
pub const CURRENT_VERSION: u32 = 1;

/// An identity's document in the shape of its version: one variant for
/// each version there has been.
#[derive(Debug, PartialEq)]
pub enum Versioned {
    V1(v1::Identity),
}

/// The mathematical value of a [`Versioned`].
pub enum VersionedView {
    V1(v1::IdentityView),
}

impl View for Versioned {
    type V = VersionedView;

    open spec fn view(&self) -> VersionedView {
        match self {
            Versioned::V1(record) => VersionedView::V1(record@),
        }
    }
}

impl VersionedView {
    /// The version of the document.
    pub open spec fn version(self) -> u32 {
        match self {
            VersionedView::V1(_) => 1,
        }
    }

    /// One step of the migration: the document in the shape of the next
    /// version. A document of the current version stays as it is.
    pub open spec fn upgraded(self) -> VersionedView {
        match self {
            VersionedView::V1(record) => VersionedView::V1(record),
        }
    }

    /// The whole migration: the identity in the latest shape.
    pub open spec fn latest(self) -> IdentityView {
        match self {
            VersionedView::V1(record) => record,
        }
    }
}

/// The version that the document `tree` is of: the whole number under
/// `version`, and 1 where that field is left out.
pub open spec fn version_in(tree: Tree) -> Result<u64, Flaw> {
    match tree.field("version"@) {
        None => Ok(1),
        Some(_) => match tree.number_at("version"@) {
            Some(version) => Ok(version),
            None => Err(Flaw::Malformed),
        },
    }
}

/// The document that `tree` holds, in the shape of its version. A version
/// that there has not been is not supported.
pub open spec fn versioned_in(tree: Tree) -> Result<VersionedView, Flaw> {
    match version_in(tree) {
        Err(flaw) => Err(flaw),
        Ok(version) => if version == 1 {
            match v1::identity_in(tree) {
                Some(record) => Ok(VersionedView::V1(record)),
                None => Err(Flaw::Malformed),
            }
        } else {
            Err(Flaw::Unsupported(version))
        },
    }
}

/// The fields of an identity's document, in the order in which they are
/// written: the current version first.
pub open spec fn identity_fields(record: IdentityView) -> Seq<(Seq<char>, Tree)> {
    seq![
        ("version"@, Tree::Number(decimal(CURRENT_VERSION as nat))),
        ("id"@, Tree::Text(record.id)),
        ("name"@, Tree::Text(record.name)),
    ]
}

/// Migrating a document of the current version changes nothing: a step
/// leaves it as it is, and the whole migration gives the identity that it
/// holds.
pub proof fn lemma_current_stays(document: VersionedView)
    requires
        document.version() == CURRENT_VERSION,
    ensures
        document.upgraded() == document,
        VersionedView::V1(document.latest()) == document,
{
}

/// Migrating twice gives what migrating once gives: steps taken after the
/// end of the chain change nothing, and what comes out of the chain goes
/// through it unchanged.
pub proof fn lemma_migration_settles(document: VersionedView)
    ensures
        document.upgraded().latest() == document.latest(),
        VersionedView::V1(document.latest()).latest() == document.latest(),
{
}

impl Versioned {
    /// The version of the document.
    pub fn version(&self) -> (version: u32)
        ensures
            version == self@.version(),
            1 <= version <= CURRENT_VERSION,
    {
        match self {
            Versioned::V1(_) => v1::VERSION,
        }
    }

    /// Reads the document out of `node`, in the shape of its version.
    pub fn from_tree(node: &Node) -> (read: Result<Versioned, Flaw>)
        ensures
            match read {
                Ok(document) => versioned_in(node@) == Ok::<VersionedView, Flaw>(document@),
                Err(flaw) => versioned_in(node@) == Err::<VersionedView, Flaw>(flaw),
            },
    {
        let version: u64 = match node.field("version") {
            None => 1,
            Some(_) => match node.number_at("version") {
                Some(version) => version,
                None => {
                    return Err(Flaw::Malformed);
                },
            },
        };
        if version == 1 {
            match v1::Identity::from_tree(node) {
                Some(record) => Ok(Versioned::V1(record)),
                None => Err(Flaw::Malformed),
            }
        } else {
            Err(Flaw::Unsupported(version))
        }
    }

    /// Takes one step of the migration.
    pub fn upgrade(self) -> (next: Versioned)
        ensures
            next@ == self@.upgraded(),
    {
        match self {
            Versioned::V1(record) => Versioned::V1(record),
        }
    }

    /// Takes the migration to its end.
    pub fn into_latest(self) -> (record: Identity)
        ensures
            record@ == self@.latest(),
    {
        match self {
            Versioned::V1(record) => record,
        }
    }
}

impl Record for Identity {
    open spec fn decoded(tree: Tree) -> Result<IdentityView, Flaw> {
        match versioned_in(tree) {
            Ok(document) => Ok(document.latest()),
            Err(flaw) => Err(flaw),
        }
    }

    open spec fn encoded(record: IdentityView) -> Tree {
        Tree::record(identity_fields(record))
    }

    proof fn round_trip(record: IdentityView) {
        reveal_strlit("version");
        reveal_strlit("id");
        reveal_strlit("name");
        let fields = identity_fields(record);
        assert(fields[0].0.len() == 7);
        assert(fields[1].0.len() == 2);
        assert(fields[2].0.len() == 4);
        lemma_record_field(fields, 0);
        lemma_record_field(fields, 1);
        lemma_record_field(fields, 2);
        lemma_number_of_decimal(CURRENT_VERSION as u64);
    }

    fn from_tree(node: &Node) -> (read: Result<Identity, Flaw>) {
        match Versioned::from_tree(node) {
            Ok(document) => Ok(document.into_latest()),
            Err(flaw) => Err(flaw),
        }
    }

    fn to_tree(&self) -> (node: Node) {
        let mut pairs: Vec<Pair> = Vec::new();
        put(&mut pairs, "version", Node::of_number(CURRENT_VERSION as u64));
        put(&mut pairs, "id", Node::of_text(&self.id));
        put(&mut pairs, "name", Node::of_text(&self.name));
        let node = Node::of_fields(pairs);
        assert(node@->Table_0 =~= Tree::record(identity_fields(self@))->Table_0);
        node
    }
}

impl Identity {
    /// The text of the identity's document, in the current version.
    pub fn render(&self) -> (written: Option<String>)
        ensures
            match written {
                Some(text) => yaml_text(Identity::encoded(self@)) == Some(text@),
                None => yaml_text(Identity::encoded(self@)) is None,
            },
    {
        render::<Identity>(self)
    }
}

} // verus!

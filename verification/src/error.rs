//! What can go wrong: a load that fails, and a lookup that finds nothing.

use crate::numeral::{decimal, print_number};
use vstd::prelude::*;
use vstd::string::StringExecFns;

verus! {

/// Why a tree is no record of the kind asked for.
#[derive(Debug, Clone, Copy, PartialEq, Eq, Structural)]
pub enum Flaw {
    /// A field is missing or holds a value of the wrong kind.
    Malformed,
    /// The document is of this version, from which nothing leads to the
    /// current one.
    Unsupported(u64),
}

/// Why a text is no record of the kind asked for.
#[derive(Debug, PartialEq)]
pub enum ParseError {
    /// The text is not YAML; `serde_yaml`'s message.
    Syntax(String),
    /// The text is YAML, and its document does not fit the record.
    Flawed(Flaw),
}

/// Why a collection could not be loaded. One file that fails is enough: no
/// part of the collection is handed out.
#[derive(Debug, PartialEq)]
pub enum LoadError {
    /// The file `path` could not be read.
    Io { path: String, cause: String },
    /// The content of `path` is no document of a known version.
    Parse { path: String, cause: String },
    /// The document in `path` is of a version that cannot be brought up to
    /// the current one.
    Migration { path: String, version: u64 },
}

impl LoadError {
    /// The file that the error is about.
    pub open spec fn spec_path(self) -> Seq<char> {
        match self {
            LoadError::Io { path, .. } => path@,
            LoadError::Parse { path, .. } => path@,
            LoadError::Migration { path, .. } => path@,
        }
    }

    /// The file that the error is about.
    pub fn path(&self) -> (path: &String)
        ensures
            path@ == self.spec_path(),
    {
        match self {
            LoadError::Io { path, .. } => path,
            LoadError::Parse { path, .. } => path,
            LoadError::Migration { path, .. } => path,
        }
    }
}

/// The kinds of record.
#[derive(Debug, Clone, Copy, PartialEq, Eq, Structural)]
pub enum Kind {
    Account,
    Entry,
    Identity,
    Invoice,
}

impl Kind {
    /// The kind's name, as an error tells it.
    pub open spec fn spec_name(self) -> Seq<char> {
        match self {
            Kind::Account => "Account"@,
            Kind::Entry => "Entry"@,
            Kind::Identity => "Identity"@,
            Kind::Invoice => "Invoice"@,
        }
    }

    /// The directory below the data root that holds the kind's documents.
    pub open spec fn spec_directory(self) -> Seq<char> {
        match self {
            Kind::Account => "accounts"@,
            Kind::Entry => "entries"@,
            Kind::Identity => "identities"@,
            Kind::Invoice => "invoices"@,
        }
    }

    /// The kind's name, as an error tells it.
    pub fn name(self) -> (name: &'static str)
        ensures
            name@ == self.spec_name(),
    {
        match self {
            Kind::Account => "Account",
            Kind::Entry => "Entry",
            Kind::Identity => "Identity",
            Kind::Invoice => "Invoice",
        }
    }

    /// The directory below the data root that holds the kind's documents.
    pub fn directory(self) -> (directory: &'static str)
        ensures
            directory@ == self.spec_directory(),
    {
        match self {
            Kind::Account => "accounts",
            Kind::Entry => "entries",
            Kind::Identity => "identities",
            Kind::Invoice => "invoices",
        }
    }
}

/// Why a command on the data fails.
#[derive(Debug, PartialEq)]
pub enum Error {
    /// A collection could not be loaded.
    Load(LoadError),
    /// No record of kind `kind` has the identifier `id`.
    NotFound { kind: Kind, id: String },
}

impl LoadError {
    /// What the error says, for a person to read.
    pub open spec fn spec_message(self) -> Seq<char> {
        match self {
            LoadError::Io { path, cause } => "cannot read "@ + path@ + ": "@ + cause@,
            LoadError::Parse { path, cause } => "cannot parse "@ + path@ + ": "@ + cause@,
            LoadError::Migration { path, version } => "cannot migrate "@ + path@
                + ": no path from version "@ + decimal(version as nat) + " to the current one"@,
        }
    }

    /// What the error says, for a person to read.
    pub fn message(&self) -> (message: String)
        ensures
            message@ == self.spec_message(),
    {
        match self {
            LoadError::Io { path, cause } => String::from_str("cannot read ").concat(
                path.as_str(),
            ).concat(": ").concat(cause.as_str()),
            LoadError::Parse { path, cause } => String::from_str("cannot parse ").concat(
                path.as_str(),
            ).concat(": ").concat(cause.as_str()),
            LoadError::Migration { path, version } => String::from_str("cannot migrate ").concat(
                path.as_str(),
            ).concat(": no path from version ").concat(print_number(*version).as_str()).concat(
                " to the current one",
            ),
        }
    }
}

impl Error {
    /// What the error says, for a person to read.
    pub open spec fn spec_message(self) -> Seq<char> {
        match self {
            Error::Load(error) => error.spec_message(),
            Error::NotFound { kind, id } => kind.spec_name() + " "@ + id@ + " not found."@,
        }
    }

    /// What the error says, for a person to read.
    pub fn message(&self) -> (message: String)
        ensures
            message@ == self.spec_message(),
    {
        match self {
            Error::Load(error) => error.message(),
            Error::NotFound { kind, id } => String::from_str(kind.name()).concat(" ").concat(
                id.as_str(),
            ).concat(" not found."),
        }
    }
}

} // verus!

//! Business records kept as one YAML document per record: invoices, ledger
//! entries, accounts and identities, loaded from the files of a directory
//! into ordered collections, looked up by identifier and rendered back to
//! text.

pub mod account;
pub mod actions;
pub mod entry;
pub mod error;
pub mod identity;
pub mod invoice;
pub mod numeral;
pub mod record;
pub mod source;
pub mod tree;
pub mod yaml;

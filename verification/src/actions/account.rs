//! Listing the accounts and getting one of them.

use crate::account::{account_called, Account, AccountView, Accounts};
use crate::error::{Error, Kind, LoadError};
use crate::record::{loaded, reports, Fault};
use crate::source::SourceFile;
use vstd::prelude::*;

verus! {

/// The accounts that the files of the accounts' directory hold, in the
/// order of the files' names.
pub fn list(files: Vec<SourceFile>) -> (result: Result<Accounts, LoadError>)
    ensures
        match result {
            Ok(accounts) => loaded::<Account>(files@) == Ok::<
                Seq<AccountView>,
                (Seq<char>, Fault),
            >(accounts@),
            Err(error) => loaded::<Account>(files@) matches Err((name, fault)) && reports(
                error,
                name,
                fault,
            ),
        },
{
    Accounts::load(files)
}

/// The account with the identifier `id` among those that the files of the
/// accounts' directory hold: the first, in the order of the files' names.
/// Where the load fails, its error; where no account has the identifier,
/// the error that says so.
pub fn get(files: Vec<SourceFile>, id: &str) -> (result: Result<Account, Error>)
    ensures
        match result {
            Ok(account) => loaded::<Account>(files@) matches Ok(accounts) && account_called(
                accounts,
                id@,
            ) == Some(account@),
            Err(Error::Load(error)) => loaded::<Account>(files@) matches Err((name, fault))
                && reports(error, name, fault),
            Err(Error::NotFound { kind, id: asked }) => loaded::<Account>(files@) matches Ok(
                accounts,
            ) && account_called(accounts, id@) is None && kind == Kind::Account && asked@ == id@,
        },
{
    match list(files) {
        Err(error) => Err(Error::Load(error)),
        Ok(accounts) => match accounts.get(id) {
            Some(account) => Ok(account.copy()),
            None => Err(Error::NotFound { kind: Kind::Account, id: id.to_owned() }),
        },
    }
}

} // verus!

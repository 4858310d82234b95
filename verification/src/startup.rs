//! Starting a node, and resetting it.

use vstd::prelude::*;

use crate::error::{Error, ErrorView};
use crate::text::{decimal, decimal_text, join};

verus! {

/// The address that the consensus engine is served at, in its text form.
pub fn listen_address(host: &str, port: u16) -> (address: String)
    ensures
        address@ == host@ + ":"@ + decimal_text(port as nat),
{
    let host = join(host, ":");
    join(host.as_str(), decimal(port as u64).as_str())
}

/// The error on an address that does not parse, for the reason given.
pub fn address_error(reason: &str) -> (error: Error)
    ensures
        error@ == (ErrorView::Temporary {
            error: "cannot parse tendermint address "@ + reason@,
        }),
{
    Error::Temporary { error: join("cannot parse tendermint address ", reason) }
}

/// What came of removing the files of the storage.
#[derive(Debug, PartialEq, Eq)]
pub enum Removal {
    Removed,
    /// There were none.
    NotFound,
    Failed(String),
}

/// Goes on with a reset once the files of the storage have been removed, or
/// not. On success the state of the consensus engine is to be reset too. That
/// there was nothing to remove is a success.
pub fn reset(removal: Removal) -> (result: Result<(), Error>)
    ensures
        match removal {
            Removal::Failed(reason) => result matches Err(error) && error@ == ErrorView::RemoveDB(
                reason@,
            ),
            _ => result is Ok,
        },
{
    match removal {
        Removal::Removed => Ok(()),
        Removal::NotFound => Ok(()),
        Removal::Failed(reason) => Err(Error::RemoveDB(reason)),
    }
}

} // verus!

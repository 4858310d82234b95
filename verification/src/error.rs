//! What can go wrong in the shell.

use vstd::prelude::*;

use crate::text::join;

verus! {

/// An error of the shell. What another part of the node reports is kept as
/// the text it reports.
#[derive(Debug, PartialEq, Eq)]
pub enum Error {
    Temporary { error: String },
    RemoveDB(String),
    StorageError(String),
    AbciChannelRecvError(String),
    AbciChannelSendError(String),
    TxDecodingError(String),
    TxRunnerError(String),
    VpRunnerError { addr: String, error: String },
    GasError(String),
}

/// The model of an [`Error`].
pub enum ErrorView {
    Temporary { error: Seq<char> },
    RemoveDB(Seq<char>),
    StorageError(Seq<char>),
    AbciChannelRecvError(Seq<char>),
    AbciChannelSendError(Seq<char>),
    TxDecodingError(Seq<char>),
    TxRunnerError(Seq<char>),
    VpRunnerError { addr: Seq<char>, error: Seq<char> },
    GasError(Seq<char>),
}

impl View for Error {
    type V = ErrorView;

    open spec fn view(&self) -> ErrorView {
        match self {
            Error::Temporary { error } => ErrorView::Temporary { error: error@ },
            Error::RemoveDB(e) => ErrorView::RemoveDB(e@),
            Error::StorageError(e) => ErrorView::StorageError(e@),
            Error::AbciChannelRecvError(e) => ErrorView::AbciChannelRecvError(e@),
            Error::AbciChannelSendError(e) => ErrorView::AbciChannelSendError(e@),
            Error::TxDecodingError(e) => ErrorView::TxDecodingError(e@),
            Error::TxRunnerError(e) => ErrorView::TxRunnerError(e@),
            Error::VpRunnerError { addr, error } => ErrorView::VpRunnerError {
                addr: addr@,
                error: error@,
            },
            Error::GasError(e) => ErrorView::GasError(e@),
        }
    }
}

impl ErrorView {
    /// The error as a user reads it.
    pub open spec fn message(self) -> Seq<char> {
        match self {
            ErrorView::Temporary { error } => "TEMPORARY error: "@ + error,
            ErrorView::RemoveDB(e) => "Error removing the DB data: "@ + e,
            ErrorView::StorageError(e) => "Storage error: "@ + e,
            ErrorView::AbciChannelRecvError(e) => "Shell ABCI channel receiver error: "@ + e,
            ErrorView::AbciChannelSendError(e) => "Shell ABCI channel sender error: "@ + e,
            ErrorView::TxDecodingError(e) => "Error decoding a transaction from bytes: "@ + e,
            ErrorView::TxRunnerError(e) => "Transaction runner error: "@ + e,
            ErrorView::VpRunnerError { addr, error } => "Validity predicate for "@ + addr
                + " runner error: "@ + error,
            ErrorView::GasError(e) => "Gas error: "@ + e,
        }
    }
}

impl Error {
    /// The error as a user reads it.
    pub fn message(&self) -> (text: String)
        ensures
            text@ == self@.message(),
    {
        match self {
            Error::Temporary { error } => join("TEMPORARY error: ", error.as_str()),
            Error::RemoveDB(e) => join("Error removing the DB data: ", e.as_str()),
            Error::StorageError(e) => join("Storage error: ", e.as_str()),
            Error::AbciChannelRecvError(e) => join(
                "Shell ABCI channel receiver error: ",
                e.as_str(),
            ),
            Error::AbciChannelSendError(e) => join(
                "Shell ABCI channel sender error: ",
                e.as_str(),
            ),
            Error::TxDecodingError(e) => join(
                "Error decoding a transaction from bytes: ",
                e.as_str(),
            ),
            Error::TxRunnerError(e) => join("Transaction runner error: ", e.as_str()),
            Error::VpRunnerError { addr, error } => {
                let place = join("Validity predicate for ", addr.as_str());
                let cause = join(place.as_str(), " runner error: ");
                join(cause.as_str(), error.as_str())
            },
            Error::GasError(e) => join("Gas error: ", e.as_str()),
        }
    }
}

} // verus!

//! What passes between the shell and the rest of the node: the requests of
//! consensus and their replies, the actions that the shell asks for, and the
//! events by which the node answers them.

use vstd::prelude::*;

use crate::error::{Error, ErrorView};
use crate::keys::{changed_views, ChangedKey, ChangedKeyView};
use crate::text::{texts, with_text};

verus! {

/// Why a transaction is checked for the mempool.
#[derive(Clone, Debug, PartialEq, Eq)]
pub enum MempoolTxType {
    /// A transaction that has not been validated by this node before
    NewTransaction,
    /// A transaction that has been validated at some previous level that may
    /// need to be validated again
    RecheckTransaction,
}

/// The root hash of the Merkle tree over the storage.
#[derive(Debug, PartialEq, Eq)]
pub struct MerkleRoot(pub Vec<u8>);

impl View for MerkleRoot {
    type V = Seq<u8>;

    open spec fn view(&self) -> Seq<u8> {
        self.0@
    }
}

/// What is done with a transaction.
#[derive(Clone, Copy, Debug, PartialEq, Eq)]
pub enum Mode {
    /// It runs on the shell's write log, which keeps its writes if it is
    /// accepted.
    Apply,
    /// It runs on a copy of the write log, which is thrown away.
    DryRun,
}

/// A request of consensus.
#[derive(Debug, PartialEq, Eq)]
pub enum Request {
    GetInfo,
    InitChain { chain_id: String },
    MempoolValidate { tx: Vec<u8>, tx_type: MempoolTxType },
    BeginBlock { hash: Vec<u8>, height: u64 },
    ApplyTx { tx: Vec<u8> },
    EndBlock { height: u64 },
    CommitBlock,
    AbciQuery { path: String, data: Vec<u8>, height: u64, prove: bool },
}

/// The model of a [`Request`].
pub enum RequestView {
    GetInfo,
    InitChain { chain_id: Seq<char> },
    MempoolValidate { tx: Seq<u8>, tx_type: MempoolTxType },
    BeginBlock { hash: Seq<u8>, height: u64 },
    ApplyTx { tx: Seq<u8> },
    EndBlock { height: u64 },
    CommitBlock,
    AbciQuery { path: Seq<char>, data: Seq<u8>, height: u64, prove: bool },
}

impl View for Request {
    type V = RequestView;

    open spec fn view(&self) -> RequestView {
        match *self {
            Request::GetInfo => RequestView::GetInfo,
            Request::InitChain { chain_id } => RequestView::InitChain { chain_id: chain_id@ },
            Request::MempoolValidate { tx, tx_type } => RequestView::MempoolValidate {
                tx: tx@,
                tx_type,
            },
            Request::BeginBlock { hash, height } => RequestView::BeginBlock { hash: hash@, height },
            Request::ApplyTx { tx } => RequestView::ApplyTx { tx: tx@ },
            Request::EndBlock { height } => RequestView::EndBlock { height },
            Request::CommitBlock => RequestView::CommitBlock,
            Request::AbciQuery { path, data, height, prove } => RequestView::AbciQuery {
                path: path@,
                data: data@,
                height,
                prove,
            },
        }
    }
}

/// The kinds of request that get a reply.
#[derive(Clone, Copy, Debug, PartialEq, Eq)]
pub enum RequestKind {
    GetInfo,
    InitChain,
    MempoolValidate,
    BeginBlock,
    ApplyTx,
    EndBlock,
    CommitBlock,
    DryRunTx,
}

impl RequestKind {
    /// The name that an error on the way back to consensus carries. A dry run
    /// goes by the name of an application.
    pub open spec fn label_text(self) -> Seq<char> {
        match self {
            RequestKind::GetInfo => "GetInfo "@,
            RequestKind::InitChain => "InitChain "@,
            RequestKind::MempoolValidate => "MempoolValidate "@,
            RequestKind::BeginBlock => "BeginBlock "@,
            RequestKind::ApplyTx => "ApplyTx "@,
            RequestKind::EndBlock => "EndBlock "@,
            RequestKind::CommitBlock => "CommitBlock "@,
            RequestKind::DryRunTx => "ApplyTx "@,
        }
    }

    /// The name that an error on the way back to consensus carries.
    pub fn label(self) -> (text: &'static str)
        ensures
            text@ == self.label_text(),
    {
        match self {
            RequestKind::GetInfo => "GetInfo ",
            RequestKind::InitChain => "InitChain ",
            RequestKind::MempoolValidate => "MempoolValidate ",
            RequestKind::BeginBlock => "BeginBlock ",
            RequestKind::ApplyTx => "ApplyTx ",
            RequestKind::EndBlock => "EndBlock ",
            RequestKind::CommitBlock => "CommitBlock ",
            RequestKind::DryRunTx => "ApplyTx ",
        }
    }
}

/// The reply to a request.
#[derive(Debug, PartialEq, Eq)]
pub enum Reply {
    /// The Merkle root hash and the height of the last committed block, if any.
    GetInfo(Option<(MerkleRoot, u64)>),
    InitChain,
    MempoolValidate(Result<(), String>),
    BeginBlock,
    /// The gas that the transaction used.
    ApplyTx(Result<u64, String>),
    EndBlock,
    CommitBlock(MerkleRoot),
    /// A report on the transaction.
    DryRunTx(Result<String, String>),
}

/// The model of a [`Reply`].
pub enum ReplyView {
    GetInfo(Option<(Seq<u8>, u64)>),
    InitChain,
    MempoolValidate(Result<(), Seq<char>>),
    BeginBlock,
    ApplyTx(Result<u64, Seq<char>>),
    EndBlock,
    CommitBlock(Seq<u8>),
    DryRunTx(Result<Seq<char>, Seq<char>>),
}

/// The last committed state, if any, taken by its model.
pub open spec fn last_view(last: Option<(MerkleRoot, u64)>) -> Option<(Seq<u8>, u64)> {
    match last {
        Some((root, height)) => Some((root@, height)),
        None => None,
    }
}

impl View for Reply {
    type V = ReplyView;

    open spec fn view(&self) -> ReplyView {
        match *self {
            Reply::GetInfo(last) => ReplyView::GetInfo(last_view(last)),
            Reply::InitChain => ReplyView::InitChain,
            Reply::MempoolValidate(result) => ReplyView::MempoolValidate(with_text(result)),
            Reply::BeginBlock => ReplyView::BeginBlock,
            Reply::ApplyTx(result) => ReplyView::ApplyTx(with_text(result)),
            Reply::EndBlock => ReplyView::EndBlock,
            Reply::CommitBlock(root) => ReplyView::CommitBlock(root@),
            Reply::DryRunTx(result) => ReplyView::DryRunTx(
                match result {
                    Ok(report) => Ok(report@),
                    Err(error) => Err(error@),
                },
            ),
        }
    }
}

impl ReplyView {
    /// The kind of request that this replies to.
    pub open spec fn kind(self) -> RequestKind {
        match self {
            ReplyView::GetInfo(_) => RequestKind::GetInfo,
            ReplyView::InitChain => RequestKind::InitChain,
            ReplyView::MempoolValidate(_) => RequestKind::MempoolValidate,
            ReplyView::BeginBlock => RequestKind::BeginBlock,
            ReplyView::ApplyTx(_) => RequestKind::ApplyTx,
            ReplyView::EndBlock => RequestKind::EndBlock,
            ReplyView::CommitBlock(_) => RequestKind::CommitBlock,
            ReplyView::DryRunTx(_) => RequestKind::DryRunTx,
        }
    }
}

impl Reply {
    /// The kind of request that this replies to.
    pub fn kind(&self) -> (kind: RequestKind)
        ensures
            kind == self@.kind(),
    {
        match self {
            Reply::GetInfo(_) => RequestKind::GetInfo,
            Reply::InitChain => RequestKind::InitChain,
            Reply::MempoolValidate(_) => RequestKind::MempoolValidate,
            Reply::BeginBlock => RequestKind::BeginBlock,
            Reply::ApplyTx(_) => RequestKind::ApplyTx,
            Reply::EndBlock => RequestKind::EndBlock,
            Reply::CommitBlock(_) => RequestKind::CommitBlock,
            Reply::DryRunTx(_) => RequestKind::DryRunTx,
        }
    }
}

/// What the shell asks the node to do. Where the node cannot do it and the
/// event that answers it has no place for an error, the node cannot go on.
#[derive(Debug, PartialEq, Eq)]
pub enum Action {
    /// Open the storage under a path. Answered by `Done`.
    OpenStorage { path: String },
    /// Write a value to the storage. Answered by `Done`.
    WriteStorage { key: String, value: Vec<u8> },
    /// Wait for the next request. Answered by `Received` or `Closed`.
    Receive,
    /// Load the root and the height of the last committed block. Answered by
    /// `LastState`.
    LoadLastState,
    /// Set the identifier of the chain. Answered by `ChainIdSet`.
    SetChainId { chain_id: String },
    /// Reset the gas meter for a new block. Answered by `Done`.
    ResetGas,
    /// Begin a block in the storage. Answered by `Done`.
    BeginBlock { hash: Vec<u8>, height: u64 },
    /// Charge the base fee of a transaction of `size` bytes. Answered by
    /// `FeeCharged`.
    ChargeBaseFee { size: usize },
    /// Run the code of a transaction, and find the keys that it has changed.
    /// Answered by `TxRan`.
    RunTx { mode: Mode, code: Vec<u8>, data: Vec<u8> },
    /// Load the validity predicate of an account. Answered by
    /// `PredicateLoaded`.
    LoadPredicate { addr: String },
    /// Run the validity predicate of an account on the keys changed in its
    /// storage. Answered by `VpRan`.
    RunVp { mode: Mode, predicate: Vec<u8>, data: Vec<u8>, addr: String, keys: Vec<String> },
    /// Keep the writes of the transaction in the write log. Answered by `Done`.
    CommitTx,
    /// Drop the writes of the transaction from the write log. Answered by
    /// `Done`.
    DropTx,
    /// Close the gas account of the transaction. Answered by `GasFinalized`.
    FinalizeGas,
    /// Move the writes of the block from the write log to the storage. Answered
    /// by `Done`.
    CommitWrites,
    /// Persist the block. Answered by `Persisted`.
    PersistBlock,
    /// Read the root hash of the storage. Answered by `Root`.
    ReadRoot,
    /// Send a reply. Answered by `Sent`.
    Reply(Reply),
    /// The shell has ended.
    Stop(Error),
}

/// The model of an [`Action`].
pub enum ActionView {
    OpenStorage { path: Seq<char> },
    WriteStorage { key: Seq<char>, value: Seq<u8> },
    Receive,
    LoadLastState,
    SetChainId { chain_id: Seq<char> },
    ResetGas,
    BeginBlock { hash: Seq<u8>, height: u64 },
    ChargeBaseFee { size: nat },
    RunTx { mode: Mode, code: Seq<u8>, data: Seq<u8> },
    LoadPredicate { addr: Seq<char> },
    RunVp {
        mode: Mode,
        predicate: Seq<u8>,
        data: Seq<u8>,
        addr: Seq<char>,
        keys: Seq<Seq<char>>,
    },
    CommitTx,
    DropTx,
    FinalizeGas,
    CommitWrites,
    PersistBlock,
    ReadRoot,
    Reply(ReplyView),
    Stop(ErrorView),
}

impl View for Action {
    type V = ActionView;

    open spec fn view(&self) -> ActionView {
        match *self {
            Action::OpenStorage { path } => ActionView::OpenStorage { path: path@ },
            Action::WriteStorage { key, value } => ActionView::WriteStorage {
                key: key@,
                value: value@,
            },
            Action::Receive => ActionView::Receive,
            Action::LoadLastState => ActionView::LoadLastState,
            Action::SetChainId { chain_id } => ActionView::SetChainId { chain_id: chain_id@ },
            Action::ResetGas => ActionView::ResetGas,
            Action::BeginBlock { hash, height } => ActionView::BeginBlock { hash: hash@, height },
            Action::ChargeBaseFee { size } => ActionView::ChargeBaseFee { size: size as nat },
            Action::RunTx { mode, code, data } => ActionView::RunTx {
                mode,
                code: code@,
                data: data@,
            },
            Action::LoadPredicate { addr } => ActionView::LoadPredicate { addr: addr@ },
            Action::RunVp { mode, predicate, data, addr, keys } => ActionView::RunVp {
                mode,
                predicate: predicate@,
                data: data@,
                addr: addr@,
                keys: texts(keys@),
            },
            Action::CommitTx => ActionView::CommitTx,
            Action::DropTx => ActionView::DropTx,
            Action::FinalizeGas => ActionView::FinalizeGas,
            Action::CommitWrites => ActionView::CommitWrites,
            Action::PersistBlock => ActionView::PersistBlock,
            Action::ReadRoot => ActionView::ReadRoot,
            Action::Reply(reply) => ActionView::Reply(reply@),
            Action::Stop(error) => ActionView::Stop(error@),
        }
    }
}

/// What the node has done. An error is the text that the node reports.
#[derive(Debug, PartialEq, Eq)]
pub enum Event {
    Done,
    Received(Request),
    Closed(String),
    LastState(Result<Option<(MerkleRoot, u64)>, String>),
    ChainIdSet(Result<(), String>),
    FeeCharged(Result<(), String>),
    TxRan(Result<Vec<ChangedKey>, String>),
    PredicateLoaded(Result<Vec<u8>, String>),
    VpRan(Result<bool, String>),
    GasFinalized(Result<u64, String>),
    Persisted(Result<(), String>),
    Root(Vec<u8>),
    Sent(Result<(), String>),
}

/// The model of an [`Event`].
pub enum EventView {
    Done,
    Received(RequestView),
    Closed(Seq<char>),
    LastState(Result<Option<(Seq<u8>, u64)>, Seq<char>>),
    ChainIdSet(Result<(), Seq<char>>),
    FeeCharged(Result<(), Seq<char>>),
    TxRan(Result<Seq<ChangedKeyView>, Seq<char>>),
    PredicateLoaded(Result<Seq<u8>, Seq<char>>),
    VpRan(Result<bool, Seq<char>>),
    GasFinalized(Result<u64, Seq<char>>),
    Persisted(Result<(), Seq<char>>),
    Root(Seq<u8>),
    Sent(Result<(), Seq<char>>),
}

impl View for Event {
    type V = EventView;

    open spec fn view(&self) -> EventView {
        match *self {
            Event::Done => EventView::Done,
            Event::Received(request) => EventView::Received(request@),
            Event::Closed(error) => EventView::Closed(error@),
            Event::LastState(result) => EventView::LastState(
                match result {
                    Ok(last) => Ok(last_view(last)),
                    Err(error) => Err(error@),
                },
            ),
            Event::ChainIdSet(result) => EventView::ChainIdSet(with_text(result)),
            Event::FeeCharged(result) => EventView::FeeCharged(with_text(result)),
            Event::TxRan(result) => EventView::TxRan(
                match result {
                    Ok(changed) => Ok(changed_views(changed@)),
                    Err(error) => Err(error@),
                },
            ),
            Event::PredicateLoaded(result) => EventView::PredicateLoaded(
                match result {
                    Ok(predicate) => Ok(predicate@),
                    Err(error) => Err(error@),
                },
            ),
            Event::VpRan(result) => EventView::VpRan(with_text(result)),
            Event::GasFinalized(result) => EventView::GasFinalized(with_text(result)),
            Event::Persisted(result) => EventView::Persisted(with_text(result)),
            Event::Root(root) => EventView::Root(root@),
            Event::Sent(result) => EventView::Sent(with_text(result)),
        }
    }
}

} // verus!

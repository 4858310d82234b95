//! The shell as a mathematical machine: its states, and for each state and
//! event the next state and the next action.

use vstd::prelude::*;

use crate::error::ErrorView;
use crate::keys::{groups, GroupView};
use crate::protocol::{ActionView, EventView, Mode, ReplyView, RequestKind, RequestView};
use crate::text::decimal_text;
use crate::tx::TxView;

verus! {

/// What the shell waits for.
#[verifier::ext_equal]
pub enum State {
    /// The storage to be open.
    Opening,
    /// The last of the first `written` initial balances to be written.
    Genesis { written: nat },
    /// A request.
    Idle,
    /// The last committed state to be loaded.
    LoadingState,
    /// The identifier of the chain to be set.
    SettingChainId,
    /// The gas meter to be reset, before a block begins.
    ResettingGas { hash: Seq<u8>, height: u64 },
    /// The block to begin.
    BeginningBlock,
    /// The base fee of a transaction to be charged.
    Charging { mode: Mode, tx: Seq<u8> },
    /// A transaction to run.
    Running { mode: Mode, data: Seq<u8> },
    /// The validity predicate of `current` to be loaded, with `rest` still to
    /// come.
    Loading { mode: Mode, data: Seq<u8>, current: GroupView, rest: Seq<GroupView> },
    /// The validity predicate of `current` to run, with `rest` still to come.
    Checking { mode: Mode, data: Seq<u8>, current: GroupView, rest: Seq<GroupView> },
    /// The writes of a transaction to be kept or dropped.
    Settling { accepted: bool },
    /// The gas account of a transaction to be closed.
    Finalizing { mode: Mode, accepted: bool },
    /// The writes of the block to be moved to the storage.
    CommittingWrites,
    /// The block to be persisted.
    Persisting,
    /// The root hash to be read.
    ReadingRoot,
    /// A reply to be sent.
    Sending { kind: RequestKind },
    /// Nothing: the shell has ended.
    Stopped,
}

/// A state together with the action that the shell asks for on entering it.
pub type Turn = (State, ActionView);

/// The balances that accounts start with, in the order in which they are
/// written: storage keys, and amounts of eight bytes, the lowest first.
pub open spec fn genesis() -> Seq<(Seq<char>, Seq<u8>)> {
    seq![
        ("@va/balance/eth"@, seq![0x10u8, 0x27, 0, 0, 0, 0, 0, 0]),
        ("@va/balance/xtz"@, seq![0x10u8, 0x27, 0, 0, 0, 0, 0, 0]),
        ("@ba/balance/eth"@, seq![0x64u8, 0, 0, 0, 0, 0, 0, 0]),
        ("@ba/balance/xtz"@, seq![0x64u8, 0, 0, 0, 0, 0, 0, 0]),
    ]
}

/// The initial balances from the one at `index` on are written.
pub open spec fn write_genesis(index: nat) -> Turn {
    if index < genesis().len() {
        (
            State::Genesis { written: index + 1 },
            ActionView::WriteStorage {
                key: genesis()[index as int].0,
                value: genesis()[index as int].1,
            },
        )
    } else {
        receive()
    }
}

/// The next request is awaited.
pub open spec fn receive() -> Turn {
    (State::Idle, ActionView::Receive)
}

/// A reply is sent.
pub open spec fn reply(reply: ReplyView) -> Turn {
    (State::Sending { kind: reply.kind() }, ActionView::Reply(reply))
}

/// The shell ends.
pub open spec fn stop(error: ErrorView) -> Turn {
    (State::Stopped, ActionView::Stop(error))
}

/// What is told of the last committed state. An error counts as no state.
pub open spec fn known_state(loaded: Result<Option<(Seq<u8>, u64)>, Seq<char>>) -> Option<
    (Seq<u8>, u64),
> {
    match loaded {
        Ok(last) => last,
        Err(_) => None,
    }
}

/// Whether a transaction may enter the mempool: it decodes.
pub open spec fn mempool_result(tx: Seq<u8>) -> Result<(), ErrorView> {
    match TxView::decode(tx) {
        Ok(_) => Ok(()),
        Err(error) => Err(ErrorView::TxDecodingError(error)),
    }
}

/// A result, its error put in words.
pub open spec fn in_words<T>(result: Result<T, ErrorView>) -> Result<T, Seq<char>> {
    match result {
        Ok(value) => Ok(value),
        Err(error) => Err(error.message()),
    }
}

/// A transaction is taken in.
pub open spec fn begin_tx(mode: Mode, tx: Seq<u8>) -> Turn {
    (State::Charging { mode, tx }, ActionView::ChargeBaseFee { size: tx.len() })
}

/// A transaction fails with an error. Its writes and its gas account are left
/// as they are.
pub open spec fn fail(mode: Mode, error: ErrorView) -> Turn {
    match mode {
        Mode::Apply => reply(ReplyView::ApplyTx(Err(error.message()))),
        Mode::DryRun => reply(ReplyView::DryRunTx(Err(error.message()))),
    }
}

/// A transaction has been decoded, or not.
pub open spec fn decoded(mode: Mode, result: Result<TxView, Seq<char>>) -> Turn {
    match result {
        Err(error) => fail(mode, ErrorView::TxDecodingError(error)),
        Ok(tx) => (
            State::Running { mode, data: tx.input() },
            ActionView::RunTx { mode, code: tx.code, data: tx.input() },
        ),
    }
}

/// The validity predicates of `left` are still to be run. All earlier ones
/// have accepted.
pub open spec fn check(mode: Mode, data: Seq<u8>, left: Seq<GroupView>) -> Turn {
    if left.len() == 0 {
        conclude(mode, true)
    } else {
        (
            State::Loading { mode, data, current: left[0], rest: left.skip(1) },
            ActionView::LoadPredicate { addr: left[0].addr },
        )
    }
}

/// The validity predicates have accepted or rejected the transaction.
pub open spec fn conclude(mode: Mode, accepted: bool) -> Turn {
    match mode {
        Mode::Apply => (
            State::Settling { accepted },
            if accepted {
                ActionView::CommitTx
            } else {
                ActionView::DropTx
            },
        ),
        Mode::DryRun => finalize(mode, accepted),
    }
}

/// The gas account of the transaction is closed.
pub open spec fn finalize(mode: Mode, accepted: bool) -> Turn {
    (State::Finalizing { mode, accepted }, ActionView::FinalizeGas)
}

/// What is reported of a dry run.
pub open spec fn report(accepted: bool, gas: Result<u64, Seq<char>>) -> Seq<char> {
    match gas {
        Err(_) => "Transaction failed: gas overflow."@,
        Ok(used) => if accepted {
            "Transaction success, gas cost: "@ + decimal_text(used as nat)
        } else {
            "Transaction failed: VPs are not satisfied."@
        },
    }
}

/// A transaction has ended.
pub open spec fn end_tx(mode: Mode, accepted: bool, gas: Result<u64, Seq<char>>) -> Turn {
    match mode {
        Mode::Apply => reply(
            ReplyView::ApplyTx(
                match gas {
                    Ok(used) => Ok(used),
                    Err(error) => Err(ErrorView::GasError(error).message()),
                },
            ),
        ),
        Mode::DryRun => reply(ReplyView::DryRunTx(Ok(report(accepted, gas)))),
    }
}

/// A request has come in.
pub open spec fn serve(request: RequestView) -> Turn {
    match request {
        RequestView::GetInfo => (State::LoadingState, ActionView::LoadLastState),
        RequestView::InitChain { chain_id } => (
            State::SettingChainId,
            ActionView::SetChainId { chain_id },
        ),
        RequestView::MempoolValidate { tx, tx_type: _ } => reply(
            ReplyView::MempoolValidate(in_words(mempool_result(tx))),
        ),
        RequestView::BeginBlock { hash, height } => (
            State::ResettingGas { hash, height },
            ActionView::ResetGas,
        ),
        RequestView::ApplyTx { tx } => begin_tx(Mode::Apply, tx),
        RequestView::EndBlock { height: _ } => reply(ReplyView::EndBlock),
        RequestView::CommitBlock => (State::CommittingWrites, ActionView::CommitWrites),
        RequestView::AbciQuery { path, data, height: _, prove: _ } => if path == "dry_run_tx"@ {
            begin_tx(Mode::DryRun, data)
        } else {
            receive()
        },
    }
}

impl State {
    /// Whether `event` answers what the shell waits for.
    pub open spec fn awaits(self, event: EventView) -> bool {
        match self {
            State::Opening => event is Done,
            State::Genesis { .. } => event is Done,
            State::Idle => event is Received || event is Closed,
            State::LoadingState => event is LastState,
            State::SettingChainId => event is ChainIdSet,
            State::ResettingGas { .. } => event is Done,
            State::BeginningBlock => event is Done,
            State::Charging { .. } => event is FeeCharged,
            State::Running { .. } => event is TxRan,
            State::Loading { .. } => event is PredicateLoaded,
            State::Checking { .. } => event is VpRan,
            State::Settling { .. } => event is Done,
            State::Finalizing { .. } => event is GasFinalized,
            State::CommittingWrites => event is Done,
            State::Persisting => event is Persisted,
            State::ReadingRoot => event is Root,
            State::Sending { .. } => event is Sent,
            State::Stopped => false,
        }
    }

    /// The next state and action, for an event that the shell waits for.
    pub open spec fn next(self, event: EventView) -> Turn
        recommends
            self.awaits(event),
    {
        match (self, event) {
            (State::Opening, EventView::Done) => write_genesis(0),
            (State::Genesis { written }, EventView::Done) => write_genesis(written),
            (State::Idle, EventView::Received(request)) => serve(request),
            (State::Idle, EventView::Closed(error)) => stop(
                ErrorView::AbciChannelRecvError(error),
            ),
            (State::LoadingState, EventView::LastState(loaded)) => reply(
                ReplyView::GetInfo(known_state(loaded)),
            ),
            (State::SettingChainId, EventView::ChainIdSet(result)) => match result {
                Ok(()) => reply(ReplyView::InitChain),
                Err(error) => stop(ErrorView::StorageError(error)),
            },
            (State::ResettingGas { hash, height }, EventView::Done) => (
                State::BeginningBlock,
                ActionView::BeginBlock { hash, height },
            ),
            (State::BeginningBlock, EventView::Done) => reply(ReplyView::BeginBlock),
            (State::Charging { mode, tx }, EventView::FeeCharged(result)) => match result {
                Ok(()) => decoded(mode, TxView::decode(tx)),
                Err(error) => fail(mode, ErrorView::GasError(error)),
            },
            (State::Running { mode, data }, EventView::TxRan(result)) => match result {
                Ok(changed) => check(mode, data, groups(changed)),
                Err(error) => fail(mode, ErrorView::TxRunnerError(error)),
            },
            (
                State::Loading { mode, data, current, rest },
                EventView::PredicateLoaded(result),
            ) => match result {
                Ok(predicate) => (
                    State::Checking { mode, data, current, rest },
                    ActionView::RunVp {
                        mode,
                        predicate,
                        data,
                        addr: current.addr,
                        keys: current.keys,
                    },
                ),
                Err(error) => fail(mode, ErrorView::StorageError(error)),
            },
            (State::Checking { mode, data, current, rest }, EventView::VpRan(result)) => match result {
                Ok(accept) => if accept {
                    check(mode, data, rest)
                } else {
                    conclude(mode, false)
                },
                Err(error) => fail(mode, ErrorView::VpRunnerError { addr: current.addr, error }),
            },
            (State::Settling { accepted }, EventView::Done) => finalize(Mode::Apply, accepted),
            (State::Finalizing { mode, accepted }, EventView::GasFinalized(gas)) => end_tx(
                mode,
                accepted,
                gas,
            ),
            (State::CommittingWrites, EventView::Done) => (
                State::Persisting,
                ActionView::PersistBlock,
            ),
            (State::Persisting, EventView::Persisted(_)) => (
                State::ReadingRoot,
                ActionView::ReadRoot,
            ),
            (State::ReadingRoot, EventView::Root(root)) => reply(ReplyView::CommitBlock(root)),
            (State::Sending { kind }, EventView::Sent(result)) => match result {
                Ok(()) => receive(),
                Err(error) => stop(ErrorView::AbciChannelSendError(kind.label_text() + error)),
            },
            _ => arbitrary(),
        }
    }
}

} // verus!

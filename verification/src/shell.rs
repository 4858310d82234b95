//! The shell.

use vstd::pervasive::unreached;
use vstd::prelude::*;

use crate::error::{Error, ErrorView};
use crate::keys::{group_by_address, group_views, KeyGroup};
use crate::machine::{
    begin_tx, check, conclude, decoded, end_tx, fail, finalize, genesis, mempool_result, receive, reply, report, serve, stop, write_genesis, State,
};
use crate::protocol::{
    Action, ActionView, Event, MempoolTxType, MerkleRoot, Mode, Reply, ReplyView, Request,
    RequestKind,
};
use crate::text::{decimal, decimal_text, join, texts, with_text};
use crate::tx::{decoded_view, Tx, TxView};

verus! {

/// What the shell waits for, with what it needs to go on.
#[derive(Debug)]
enum Phase {
    Opening,
    Genesis { written: usize },
    Idle,
    LoadingState,
    SettingChainId,
    ResettingGas { hash: Vec<u8>, height: u64 },
    BeginningBlock,
    Charging { mode: Mode, tx: Vec<u8> },
    Running { mode: Mode, data: Vec<u8> },
    Loading { mode: Mode, data: Vec<u8>, current: KeyGroup, rest: Vec<KeyGroup> },
    Checking { mode: Mode, data: Vec<u8>, current: KeyGroup, rest: Vec<KeyGroup> },
    Settling { accepted: bool },
    Finalizing { mode: Mode, accepted: bool },
    CommittingWrites,
    Persisting,
    ReadingRoot,
    Sending { kind: RequestKind },
    Stopped,
}

impl View for Phase {
    type V = State;

    closed spec fn view(&self) -> State {
        match *self {
            Phase::Opening => State::Opening,
            Phase::Genesis { written } => State::Genesis { written: written as nat },
            Phase::Idle => State::Idle,
            Phase::LoadingState => State::LoadingState,
            Phase::SettingChainId => State::SettingChainId,
            Phase::ResettingGas { hash, height } => State::ResettingGas { hash: hash@, height },
            Phase::BeginningBlock => State::BeginningBlock,
            Phase::Charging { mode, tx } => State::Charging { mode, tx: tx@ },
            Phase::Running { mode, data } => State::Running { mode, data: data@ },
            Phase::Loading { mode, data, current, rest } => State::Loading {
                mode,
                data: data@,
                current: current@,
                rest: group_views(rest@),
            },
            Phase::Checking { mode, data, current, rest } => State::Checking {
                mode,
                data: data@,
                current: current@,
                rest: group_views(rest@),
            },
            Phase::Settling { accepted } => State::Settling { accepted },
            Phase::Finalizing { mode, accepted } => State::Finalizing { mode, accepted },
            Phase::CommittingWrites => State::CommittingWrites,
            Phase::Persisting => State::Persisting,
            Phase::ReadingRoot => State::ReadingRoot,
            Phase::Sending { kind } => State::Sending { kind },
            Phase::Stopped => State::Stopped,
        }
    }
}

/// The shell: what it waits for at the moment.
#[derive(Debug)]
pub struct Shell {
    phase: Phase,
}

impl View for Shell {
    type V = State;

    closed spec fn view(&self) -> State {
        self.phase@
    }
}

/// The storage key and the value of an initial balance.
fn initial_balance(index: usize) -> (entry: (String, Vec<u8>))
    requires
        index < genesis().len(),
    ensures
        entry.0@ == genesis()[index as int].0,
        entry.1@ == genesis()[index as int].1,
{
    if index == 0 {
        ("@va/balance/eth".to_owned(), vec![0x10u8, 0x27u8, 0u8, 0u8, 0u8, 0u8, 0u8, 0u8])
    } else if index == 1 {
        ("@va/balance/xtz".to_owned(), vec![0x10u8, 0x27u8, 0u8, 0u8, 0u8, 0u8, 0u8, 0u8])
    } else if index == 2 {
        ("@ba/balance/eth".to_owned(), vec![0x64u8, 0u8, 0u8, 0u8, 0u8, 0u8, 0u8, 0u8])
    } else {
        ("@ba/balance/xtz".to_owned(), vec![0x64u8, 0u8, 0u8, 0u8, 0u8, 0u8, 0u8, 0u8])
    }
}

/// What is reported of a dry run.
pub fn dry_run_report(accepted: bool, gas: Result<u64, String>) -> (text: String)
    ensures
        text@ == report(accepted, with_text(gas)),
        text@ == (match gas {
            Err(_) => "Transaction failed: gas overflow."@,
            Ok(used) => if accepted {
                "Transaction success, gas cost: "@ + decimal_text(used as nat)
            } else {
                "Transaction failed: VPs are not satisfied."@
            },
        }),
{
    match gas {
        Err(_) => "Transaction failed: gas overflow.".to_owned(),
        Ok(used) => if accepted {
            join("Transaction success, gas cost: ", decimal(used).as_str())
        } else {
            "Transaction failed: VPs are not satisfied.".to_owned()
        },
    }
}

/// A copy of some bytes.
fn copy_bytes(bytes: &Vec<u8>) -> (copy: Vec<u8>)
    ensures
        copy@ == bytes@,
{
    let copy = bytes.clone();
    assert(copy@ =~= bytes@);
    copy
}

/// A copy of some strings.
fn copy_strings(strings: &Vec<String>) -> (copy: Vec<String>)
    ensures
        texts(copy@) == texts(strings@),
{
    let copy = strings.clone();
    assert(copy@ =~= strings@);
    copy
}

impl Shell {
    /// A shell over the storage under `db_path`. Once the storage is open, the
    /// initial balances are written to it.
    pub fn new(db_path: String) -> (started: (Shell, Action))
        ensures
            started.0@ == State::Opening,
            started.1@ == (ActionView::OpenStorage { path: db_path@ }),
    {
        (Shell { phase: Phase::Opening }, Action::OpenStorage { path: db_path })
    }

    /// Whether `event` answers what the shell waits for.
    pub fn awaits(&self, event: &Event) -> (answer: bool)
        ensures
            answer == self@.awaits(event@),
    {
        match (&self.phase, event) {
            (Phase::Opening, Event::Done) => true,
            (Phase::Genesis { .. }, Event::Done) => true,
            (Phase::Idle, Event::Received(_)) => true,
            (Phase::Idle, Event::Closed(_)) => true,
            (Phase::LoadingState, Event::LastState(_)) => true,
            (Phase::SettingChainId, Event::ChainIdSet(_)) => true,
            (Phase::ResettingGas { .. }, Event::Done) => true,
            (Phase::BeginningBlock, Event::Done) => true,
            (Phase::Charging { .. }, Event::FeeCharged(_)) => true,
            (Phase::Running { .. }, Event::TxRan(_)) => true,
            (Phase::Loading { .. }, Event::PredicateLoaded(_)) => true,
            (Phase::Checking { .. }, Event::VpRan(_)) => true,
            (Phase::Settling { .. }, Event::Done) => true,
            (Phase::Finalizing { .. }, Event::GasFinalized(_)) => true,
            (Phase::CommittingWrites, Event::Done) => true,
            (Phase::Persisting, Event::Persisted(_)) => true,
            (Phase::ReadingRoot, Event::Root(_)) => true,
            (Phase::Sending { .. }, Event::Sent(_)) => true,
            _ => false,
        }
    }

    /// Runs the shell for one turn: takes the answer to the last action, and
    /// hands out the next one. The shell goes on until it hands out a stop.
    pub fn run(&mut self, event: Event) -> (action: Action)
        requires
            old(self)@.awaits(event@),
        ensures
            (final(self)@, action@) == old(self)@.next(event@),
    {
        let mut phase = Phase::Idle;
        std::mem::swap(&mut phase, &mut self.phase);
        match (phase, event) {
            (Phase::Opening, Event::Done) => self.write_balance(0),
            (Phase::Genesis { written }, Event::Done) => self.write_balance(written),
            (Phase::Idle, Event::Received(request)) => self.dispatch(request),
            (Phase::Idle, Event::Closed(error)) => self.stop(Error::AbciChannelRecvError(error)),
            (Phase::LoadingState, Event::LastState(loaded)) => self.reply(
                Reply::GetInfo(Shell::loaded_state(loaded)),
            ),
            (Phase::SettingChainId, Event::ChainIdSet(result)) => match result {
                Ok(()) => self.reply(Reply::InitChain),
                Err(error) => self.stop(Error::StorageError(error)),
            },
            (Phase::ResettingGas { hash, height }, Event::Done) => {
                self.phase = Phase::BeginningBlock;
                Action::BeginBlock { hash, height }
            },
            (Phase::BeginningBlock, Event::Done) => self.reply(Reply::BeginBlock),
            (Phase::Charging { mode, tx }, Event::FeeCharged(result)) => match result {
                Ok(()) => self.tx_decoded(mode, Tx::decode(tx.as_slice())),
                Err(error) => self.fail_tx(mode, Error::GasError(error)),
            },
            (Phase::Running { mode, data }, Event::TxRan(result)) => match result {
                Ok(changed) => self.check_next(mode, data, group_by_address(&changed)),
                Err(error) => self.fail_tx(mode, Error::TxRunnerError(error)),
            },
            (
                Phase::Loading { mode, data, current, rest },
                Event::PredicateLoaded(result),
            ) => match result {
                Ok(predicate) => self.run_predicate(mode, data, current, rest, predicate),
                Err(error) => self.fail_tx(mode, Error::StorageError(error)),
            },
            (Phase::Checking { mode, data, current, rest }, Event::VpRan(result)) => match result {
                Ok(accept) => if accept {
                    self.check_next(mode, data, rest)
                } else {
                    self.conclude_tx(mode, false)
                },
                Err(error) => self.fail_tx(
                    mode,
                    Error::VpRunnerError { addr: current.addr, error },
                ),
            },
            (Phase::Settling { accepted }, Event::Done) => self.finalize_tx(Mode::Apply, accepted),
            (Phase::Finalizing { mode, accepted }, Event::GasFinalized(gas)) => self.tx_finalized(
                mode,
                accepted,
                gas,
            ),
            (Phase::CommittingWrites, Event::Done) => {
                self.phase = Phase::Persisting;
                Action::PersistBlock
            },
            (Phase::Persisting, Event::Persisted(_)) => {
                self.phase = Phase::ReadingRoot;
                Action::ReadRoot
            },
            (Phase::ReadingRoot, Event::Root(root)) => self.reply(
                Reply::CommitBlock(MerkleRoot(root)),
            ),
            (Phase::Sending { kind }, Event::Sent(result)) => match result {
                Ok(()) => self.receive(),
                Err(error) => self.stop(
                    Error::AbciChannelSendError(join(kind.label(), error.as_str())),
                ),
            },
            _ => unreached(),
        }
    }

    /// Takes in a request.
    fn dispatch(&mut self, request: Request) -> (action: Action)
        requires
            old(self)@ is Idle,
        ensures
            (final(self)@, action@) == serve(request@),
    {
        match request {
            Request::GetInfo => self.last_state(),
            Request::InitChain { chain_id } => self.init_chain(chain_id),
            Request::MempoolValidate { tx, tx_type } => {
                let result = match self.mempool_validate(tx.as_slice(), tx_type) {
                    Ok(()) => Ok(()),
                    Err(error) => Err(error.message()),
                };
                self.reply(Reply::MempoolValidate(result))
            },
            Request::BeginBlock { hash, height } => self.begin_block(hash, height),
            Request::ApplyTx { tx } => self.apply_tx(tx),
            Request::EndBlock { height } => {
                self.end_block(height);
                self.reply(Reply::EndBlock)
            },
            Request::CommitBlock => self.commit(),
            Request::AbciQuery { path, data, height: _, prove: _ } => {
                if path == "dry_run_tx".to_owned() {
                    self.dry_run_tx(data)
                } else {
                    self.receive()
                }
            },
        }
    }

    /// Sets the identifier of the chain.
    pub fn init_chain(&mut self, chain_id: String) -> (action: Action)
        requires
            old(self)@ is Idle,
        ensures
            final(self)@ == State::SettingChainId,
            action@ == (ActionView::SetChainId { chain_id: chain_id@ }),
    {
        self.phase = Phase::SettingChainId;
        Action::SetChainId { chain_id }
    }

    /// Validate a transaction request. On success, the transaction will be
    /// included in the mempool and propagated to peers, otherwise it will be
    /// rejected.
    pub fn mempool_validate(&self, tx_bytes: &[u8], tx_type: MempoolTxType) -> (result: Result<
        (),
        Error,
    >)
        ensures
            match result {
                Ok(()) => mempool_result(tx_bytes@) is Ok,
                Err(error) => mempool_result(tx_bytes@) == Err::<(), _>(error@),
            },
            match TxView::decode(tx_bytes@) {
                Ok(_) => result is Ok,
                Err(text) => result matches Err(error) && error@ == ErrorView::TxDecodingError(
                    text,
                ),
            },
    {
        match Tx::decode(tx_bytes) {
            Ok(_) => Ok(()),
            Err(error) => Err(Error::TxDecodingError(error)),
        }
    }

    /// Validate a transaction and report what applying it would come to.
    /// Nothing that it writes is kept.
    pub fn dry_run_tx(&mut self, tx_bytes: Vec<u8>) -> (action: Action)
        requires
            old(self)@ is Idle,
        ensures
            (final(self)@, action@) == begin_tx(Mode::DryRun, tx_bytes@),
            final(self)@ == (State::Charging { mode: Mode::DryRun, tx: tx_bytes@ }),
            action@ == (ActionView::ChargeBaseFee { size: tx_bytes@.len() }),
    {
        let size = tx_bytes.len();
        self.phase = Phase::Charging { mode: Mode::DryRun, tx: tx_bytes };
        Action::ChargeBaseFee { size }
    }

    /// Validate and apply a transaction.
    pub fn apply_tx(&mut self, tx_bytes: Vec<u8>) -> (action: Action)
        requires
            old(self)@ is Idle,
        ensures
            (final(self)@, action@) == begin_tx(Mode::Apply, tx_bytes@),
            final(self)@ == (State::Charging { mode: Mode::Apply, tx: tx_bytes@ }),
            action@ == (ActionView::ChargeBaseFee { size: tx_bytes@.len() }),
    {
        let size = tx_bytes.len();
        self.phase = Phase::Charging { mode: Mode::Apply, tx: tx_bytes };
        Action::ChargeBaseFee { size }
    }

    /// Begin a new block.
    pub fn begin_block(&mut self, hash: Vec<u8>, height: u64) -> (action: Action)
        requires
            old(self)@ is Idle,
        ensures
            final(self)@ == (State::ResettingGas { hash: hash@, height }),
            action@ == ActionView::ResetGas,
    {
        self.phase = Phase::ResettingGas { hash, height };
        Action::ResetGas
    }

    /// End a block.
    pub fn end_block(&mut self, height: u64)
        ensures
            final(self)@ == old(self)@,
    {
    }

    /// Commit a block. Persist the application state and return the Merkle root
    /// hash.
    pub fn commit(&mut self) -> (action: Action)
        requires
            old(self)@ is Idle,
        ensures
            final(self)@ == State::CommittingWrites,
            action@ == ActionView::CommitWrites,
    {
        self.phase = Phase::CommittingWrites;
        Action::CommitWrites
    }

    /// Load the Merkle root hash and the height of the last committed block, if
    /// any.
    pub fn last_state(&mut self) -> (action: Action)
        requires
            old(self)@ is Idle,
        ensures
            final(self)@ == State::LoadingState,
            action@ == ActionView::LoadLastState,
    {
        self.phase = Phase::LoadingState;
        Action::LoadLastState
    }

    /// What is told of the last committed state. An error counts as no state.
    pub fn loaded_state(loaded: Result<Option<(MerkleRoot, u64)>, String>) -> (last: Option<
        (MerkleRoot, u64),
    >)
        ensures
            last == (match loaded {
                Ok(found) => found,
                Err(_) => None,
            }),
    {
        match loaded {
            Ok(found) => found,
            Err(_) => None,
        }
    }

    /// Goes on with a transaction that has been decoded, or not.
    pub fn tx_decoded(&mut self, mode: Mode, result: Result<Tx, String>) -> (action: Action)
        ensures
            (final(self)@, action@) == decoded(mode, decoded_view(result)),
            match result {
                Ok(tx) => action@ == (ActionView::RunTx {
                    mode,
                    code: tx.code@,
                    data: match tx.data {
                        Some(data) => data@,
                        None => Seq::empty(),
                    },
                }),
                Err(error) => match mode {
                    Mode::Apply => action@ == ActionView::Reply(
                        ReplyView::ApplyTx(
                            Err("Error decoding a transaction from bytes: "@ + error@),
                        ),
                    ),
                    Mode::DryRun => action@ == ActionView::Reply(
                        ReplyView::DryRunTx(
                            Err("Error decoding a transaction from bytes: "@ + error@),
                        ),
                    ),
                },
            },
    {
        match result {
            Ok(tx) => {
                let (code, data) = tx.split();
                self.phase = Phase::Running { mode, data: copy_bytes(&data) };
                Action::RunTx { mode, code, data }
            },
            Err(error) => self.fail_tx(mode, Error::TxDecodingError(error)),
        }
    }

    fn write_balance(&mut self, index: usize) -> (action: Action)
        ensures
            (final(self)@, action@) == write_genesis(index as nat),
    {
        if index < 4 {
            let (key, value) = initial_balance(index);
            self.phase = Phase::Genesis { written: index + 1 };
            Action::WriteStorage { key, value }
        } else {
            self.receive()
        }
    }

    fn receive(&mut self) -> (action: Action)
        ensures
            (final(self)@, action@) == receive(),
    {
        self.phase = Phase::Idle;
        Action::Receive
    }

    fn reply(&mut self, answer: Reply) -> (action: Action)
        ensures
            (final(self)@, action@) == reply(answer@),
    {
        self.phase = Phase::Sending { kind: answer.kind() };
        Action::Reply(answer)
    }

    fn stop(&mut self, error: Error) -> (action: Action)
        ensures
            (final(self)@, action@) == stop(error@),
    {
        self.phase = Phase::Stopped;
        Action::Stop(error)
    }

    fn fail_tx(&mut self, mode: Mode, error: Error) -> (action: Action)
        ensures
            (final(self)@, action@) == fail(mode, error@),
    {
        match mode {
            Mode::Apply => self.reply(Reply::ApplyTx(Err(error.message()))),
            Mode::DryRun => self.reply(Reply::DryRunTx(Err(error.message()))),
        }
    }

    fn check_next(&mut self, mode: Mode, data: Vec<u8>, left: Vec<KeyGroup>) -> (action: Action)
        ensures
            (final(self)@, action@) == check(mode, data@, group_views(left@)),
    {
        if left.len() == 0 {
            self.conclude_tx(mode, true)
        } else {
            let mut rest = left;
            let current = rest.remove(0);
            assert(group_views(rest@) =~= group_views(left@).skip(1));
            let addr = current.addr.clone();
            self.phase = Phase::Loading { mode, data, current, rest };
            Action::LoadPredicate { addr }
        }
    }

    fn run_predicate(
        &mut self,
        mode: Mode,
        data: Vec<u8>,
        current: KeyGroup,
        rest: Vec<KeyGroup>,
        predicate: Vec<u8>,
    ) -> (action: Action)
        ensures
            final(self)@ == (State::Checking {
                mode,
                data: data@,
                current: current@,
                rest: group_views(rest@),
            }),
            action@ == (ActionView::RunVp {
                mode,
                predicate: predicate@,
                data: data@,
                addr: current@.addr,
                keys: current@.keys,
            }),
    {
        let action = Action::RunVp {
            mode,
            predicate,
            data: copy_bytes(&data),
            addr: current.addr.clone(),
            keys: copy_strings(&current.keys),
        };
        self.phase = Phase::Checking { mode, data, current, rest };
        action
    }

    fn conclude_tx(&mut self, mode: Mode, accepted: bool) -> (action: Action)
        ensures
            (final(self)@, action@) == conclude(mode, accepted),
    {
        match mode {
            Mode::Apply => {
                self.phase = Phase::Settling { accepted };
                if accepted {
                    Action::CommitTx
                } else {
                    Action::DropTx
                }
            },
            Mode::DryRun => self.finalize_tx(mode, accepted),
        }
    }

    fn finalize_tx(&mut self, mode: Mode, accepted: bool) -> (action: Action)
        ensures
            (final(self)@, action@) == finalize(mode, accepted),
    {
        self.phase = Phase::Finalizing { mode, accepted };
        Action::FinalizeGas
    }

    fn tx_finalized(&mut self, mode: Mode, accepted: bool, gas: Result<u64, String>) -> (action:
        Action)
        ensures
            (final(self)@, action@) == end_tx(mode, accepted, with_text(gas)),
            mode == Mode::Apply ==> action@ == ActionView::Reply(
                ReplyView::ApplyTx(
                    match gas {
                        Ok(used) => Ok(used),
                        Err(error) => Err("Gas error: "@ + error@),
                    },
                ),
            ),
            mode == Mode::DryRun && accepted && gas is Ok ==> action@ == ActionView::Reply(
                ReplyView::DryRunTx(
                    Ok("Transaction success, gas cost: "@ + decimal_text(gas->Ok_0 as nat)),
                ),
            ),
    {
        match mode {
            Mode::Apply => {
                let result = match gas {
                    Ok(used) => Ok(used),
                    Err(error) => Err(Error::GasError(error).message()),
                };
                self.reply(Reply::ApplyTx(result))
            },
            Mode::DryRun => self.reply(Reply::DryRunTx(Ok(dry_run_report(accepted, gas)))),
        }
    }
}

} // verus!

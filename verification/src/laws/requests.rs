//! Laws on requests and their replies.

use vstd::bytes::{spec_u64_to_le_bytes, spec_u64_to_le_bytes_open, spec_u64_to_le_bytes_to_open};
use vstd::prelude::*;

use crate::error::ErrorView;
use crate::keys::{groups, GroupView};
use crate::laws::play::lemma_play_one;
use crate::laws::transaction::law_transaction;
use crate::machine::{
    check, decoded, genesis, in_words, known_state, mempool_result, receive, reply, serve, stop, write_genesis,
    State, Turn,
};
use crate::node::{answers, ending, judged, play, script, sound, Node};
use crate::protocol::{
    ActionView, EventView, MempoolTxType, Mode, ReplyView, RequestKind, RequestView,
};
use crate::tx::TxView;

verus! {

/// The turn that the shell starts with.
pub open spec fn start(path: Seq<char>) -> Turn {
    (State::Opening, ActionView::OpenStorage { path })
}

/// In this turn, the events that the shell waits for are the answers to its
/// action.
pub open spec fn matched(turn: Turn) -> bool {
    forall|event: EventView| #[trigger] turn.0.awaits(event) <==> answers(turn.1, event)
}

/// A node that answers the actions of the shell never hands it an event that
/// it does not wait for: this holds of the first turn, and of every turn that
/// follows one.
pub proof fn law_answers_are_awaited(path: Seq<char>, state: State, event: EventView)
    requires
        state.awaits(event),
    ensures
        matched(start(path)),
        matched(state.next(event)),
{
    match state {
        State::Opening => {
            lemma_genesis_matched(0);
        },
        State::Genesis { written } => {
            lemma_genesis_matched(written);
        },
        State::Idle => {
            if event is Received {
                lemma_serve_matched(event->Received_0);
            }
        },
        State::Charging { mode, tx } => {
            lemma_decoded_matched(mode, TxView::decode(tx));
        },
        State::Running { mode, data } => {
            if event->TxRan_0 is Ok {
                lemma_check_matched(mode, data, groups(event->TxRan_0->Ok_0));
            }
        },
        State::Checking { mode, data, current, rest } => {
            lemma_check_matched(mode, data, rest);
        },
        _ => {},
    }
}

proof fn lemma_genesis_matched(index: nat)
    ensures
        matched(write_genesis(index)),
{
}

proof fn lemma_serve_matched(request: RequestView)
    ensures
        matched(serve(request)),
{
}

proof fn lemma_decoded_matched(mode: Mode, result: Result<TxView, Seq<char>>)
    ensures
        matched(decoded(mode, result)),
{
}

proof fn lemma_check_matched(mode: Mode, data: Seq<u8>, left: Seq<GroupView>)
    ensures
        matched(check(mode, data, left)),
{
}

/// A shell that has been started opens its storage, writes the initial
/// balances to it in order, and then waits for requests.
pub proof fn law_start(node: Node, path: Seq<char>)
    requires
        sound(node),
    ensures
        play(start(path), node, 5) == (
            seq![
                ActionView::OpenStorage { path },
                ActionView::WriteStorage { key: genesis()[0].0, value: genesis()[0].1 },
                ActionView::WriteStorage { key: genesis()[1].0, value: genesis()[1].1 },
                ActionView::WriteStorage { key: genesis()[2].0, value: genesis()[2].1 },
                ActionView::WriteStorage { key: genesis()[3].0, value: genesis()[3].1 },
            ],
            receive(),
        ),
{
    reveal_with_fuel(play, 6);
    let open = ActionView::OpenStorage { path };
    assert(answers(open, node(open)));
    assert forall|i: int| 0 <= i < 4 implies node(
        #[trigger] write_genesis(i as nat).1,
    ) is Done by {
        let write = write_genesis(i as nat).1;
        assert(answers(write, node(write)));
    }
    assert(node(write_genesis(0).1) is Done);
    assert(node(write_genesis(1).1) is Done);
    assert(node(write_genesis(2).1) is Done);
    assert(node(write_genesis(3).1) is Done);
    assert(play(start(path), node, 5).0 =~= seq![
        open,
        write_genesis(0).1,
        write_genesis(1).1,
        write_genesis(2).1,
        write_genesis(3).1,
    ]);
}

/// The initial balances are numbers of 64 bits, the lowest byte first: the
/// validator account starts with 10000 of each token, the basic account with
/// 100.
pub proof fn law_initial_balances()
    ensures
        genesis().len() == 4,
        genesis()[0] == ("@va/balance/eth"@, spec_u64_to_le_bytes(10000)),
        genesis()[1] == ("@va/balance/xtz"@, spec_u64_to_le_bytes(10000)),
        genesis()[2] == ("@ba/balance/eth"@, spec_u64_to_le_bytes(100)),
        genesis()[3] == ("@ba/balance/xtz"@, spec_u64_to_le_bytes(100)),
{
    spec_u64_to_le_bytes_to_open(10000);
    spec_u64_to_le_bytes_to_open(100);
    assert(10000u64 & 0xff == 0x10 && (10000u64 >> 8) & 0xff == 0x27 && (10000u64 >> 16) & 0xff == 0
        && (10000u64 >> 24) & 0xff == 0 && (10000u64 >> 32) & 0xff == 0 && (10000u64 >> 40) & 0xff
        == 0 && (10000u64 >> 48) & 0xff == 0 && (10000u64 >> 56) & 0xff == 0) by (bit_vector);
    assert(100u64 & 0xff == 0x64 && (100u64 >> 8) & 0xff == 0 && (100u64 >> 16) & 0xff == 0 && (
    100u64 >> 24) & 0xff == 0 && (100u64 >> 32) & 0xff == 0 && (100u64 >> 40) & 0xff == 0 && (
    100u64 >> 48) & 0xff == 0 && (100u64 >> 56) & 0xff == 0) by (bit_vector);
    assert(genesis()[0].1 =~= spec_u64_to_le_bytes_open(10000));
    assert(genesis()[2].1 =~= spec_u64_to_le_bytes_open(100));
}

/// The kind of reply that a request is to get. A query on an unknown path gets
/// none.
pub open spec fn wanted(request: RequestView) -> Option<RequestKind> {
    match request {
        RequestView::GetInfo => Some(RequestKind::GetInfo),
        RequestView::InitChain { .. } => Some(RequestKind::InitChain),
        RequestView::MempoolValidate { .. } => Some(RequestKind::MempoolValidate),
        RequestView::BeginBlock { .. } => Some(RequestKind::BeginBlock),
        RequestView::ApplyTx { .. } => Some(RequestKind::ApplyTx),
        RequestView::EndBlock { .. } => Some(RequestKind::EndBlock),
        RequestView::CommitBlock => Some(RequestKind::CommitBlock),
        RequestView::AbciQuery { path, .. } => if path == "dry_run_tx"@ {
            Some(RequestKind::DryRunTx)
        } else {
            None
        },
    }
}

/// The kind of reply that a transaction gets.
pub open spec fn tx_kind(mode: Mode) -> RequestKind {
    match mode {
        Mode::Apply => RequestKind::ApplyTx,
        Mode::DryRun => RequestKind::DryRunTx,
    }
}

/// The kind of reply that the shell owes in a state, if it serves a request.
pub open spec fn owed(state: State) -> Option<RequestKind> {
    match state {
        State::Opening | State::Genesis { .. } | State::Idle | State::Stopped => None,
        State::LoadingState => Some(RequestKind::GetInfo),
        State::SettingChainId => Some(RequestKind::InitChain),
        State::ResettingGas { .. } | State::BeginningBlock => Some(RequestKind::BeginBlock),
        State::Charging { mode, .. } => Some(tx_kind(mode)),
        State::Running { mode, .. } => Some(tx_kind(mode)),
        State::Loading { mode, .. } => Some(tx_kind(mode)),
        State::Checking { mode, .. } => Some(tx_kind(mode)),
        State::Settling { .. } => Some(RequestKind::ApplyTx),
        State::Finalizing { mode, .. } => Some(tx_kind(mode)),
        State::CommittingWrites | State::Persisting | State::ReadingRoot => Some(
            RequestKind::CommitBlock,
        ),
        State::Sending { .. } => None,
    }
}

/// A turn is in keeping with the reply that is due. Where one is due, it is
/// still owed, or it is sent now and is of its kind, or the shell ends. Where
/// none is due, none is owed or sent.
pub open spec fn in_keeping(due: Option<RequestKind>, turn: Turn) -> bool {
    match due {
        Some(kind) => {
            ||| turn.0 is Stopped
            ||| owed(turn.0) == Some(kind) && !(turn.1 is Reply)
            ||| turn.0 == (State::Sending { kind }) && (turn.1 matches ActionView::Reply(answer)
                && answer.kind() == kind)
        },
        None => owed(turn.0) is None && !(turn.0 is Sending) && !(turn.1 is Reply),
    }
}

/// Every request gets at most one reply, and one of its own kind. A request
/// makes the shell owe the reply that it is to get, or is replied to at once.
/// A reply that is owed stays owed until it is sent or the shell ends. Where
/// none is owed, no other event makes the shell reply.
pub proof fn law_one_reply(state: State, event: EventView)
    requires
        state.awaits(event),
    ensures
        in_keeping(
            match event {
                EventView::Received(request) => wanted(request),
                _ => owed(state),
            },
            state.next(event),
        ),
{
    match state {
        State::Idle => {
            if event is Received {
                lemma_serve_keeps(event->Received_0);
            }
        },
        State::Charging { mode, tx } => {
            lemma_decoded_keeps(mode, TxView::decode(tx));
        },
        State::Running { mode, data } => {
            if event->TxRan_0 is Ok {
                lemma_check_keeps(mode, data, groups(event->TxRan_0->Ok_0));
            }
        },
        State::Checking { mode, data, current, rest } => {
            lemma_check_keeps(mode, data, rest);
        },
        _ => {},
    }
}

proof fn lemma_serve_keeps(request: RequestView)
    ensures
        in_keeping(wanted(request), serve(request)),
{
}

proof fn lemma_decoded_keeps(mode: Mode, result: Result<TxView, Seq<char>>)
    ensures
        in_keeping(Some(tx_kind(mode)), decoded(mode, result)),
{
}

proof fn lemma_check_keeps(mode: Mode, data: Seq<u8>, left: Seq<GroupView>)
    ensures
        in_keeping(Some(tx_kind(mode)), check(mode, data, left)),
{
}

/// The shell ends in three cases only: requests can no longer be received, the
/// identifier of the chain cannot be set, or a reply cannot be sent. It never
/// ends without an error.
pub proof fn law_ends_only_on_errors(state: State, event: EventView)
    requires
        state.awaits(event),
    ensures
        state.next(event).0 is Stopped <==> {
            ||| event is Closed
            ||| event matches EventView::ChainIdSet(result) && result is Err
            ||| event matches EventView::Sent(result) && result is Err
        },
        state.next(event).0 is Stopped <==> state.next(event).1 is Stop,
        event matches EventView::Closed(text) ==> state.next(event) == stop(
            ErrorView::AbciChannelRecvError(text),
        ),
        event matches EventView::ChainIdSet(Err(text)) ==> state.next(event) == stop(
            ErrorView::StorageError(text),
        ),
        event matches EventView::Sent(Err(text)) ==> (state matches State::Sending { kind }
            && state.next(event) == stop(
            ErrorView::AbciChannelSendError(kind.label_text() + text),
        )),
        event matches EventView::Sent(Ok(())) ==> state.next(event) == receive(),
{
}

/// A block begins with a fresh gas meter: the meter is reset before the
/// storage begins the block.
pub proof fn law_begin_block(node: Node, hash: Seq<u8>, height: u64)
    requires
        sound(node),
    ensures
        play(serve(RequestView::BeginBlock { hash, height }), node, 2) == (
            seq![ActionView::ResetGas, ActionView::BeginBlock { hash, height }],
            reply(ReplyView::BeginBlock),
        ),
{
    reveal_with_fuel(play, 3);
    let begin = ActionView::BeginBlock { hash, height };
    assert(answers(ActionView::ResetGas, node(ActionView::ResetGas)));
    assert(answers(begin, node(begin)));
    assert(play(serve(RequestView::BeginBlock { hash, height }), node, 2).0 =~= seq![
        ActionView::ResetGas,
        begin,
    ]);
}

/// A commit moves the writes of the block to the storage, then persists the
/// block, then reads the root hash, and replies with that root hash whether or
/// not the block could be persisted.
pub proof fn law_commit_block(node: Node)
    requires
        sound(node),
    ensures
        play(serve(RequestView::CommitBlock), node, 3) == (
            seq![ActionView::CommitWrites, ActionView::PersistBlock, ActionView::ReadRoot],
            reply(ReplyView::CommitBlock(node(ActionView::ReadRoot)->Root_0)),
        ),
{
    reveal_with_fuel(play, 4);
    assert(answers(ActionView::CommitWrites, node(ActionView::CommitWrites)));
    assert(answers(ActionView::PersistBlock, node(ActionView::PersistBlock)));
    assert(answers(ActionView::ReadRoot, node(ActionView::ReadRoot)));
    assert(play(serve(RequestView::CommitBlock), node, 3).0 =~= seq![
        ActionView::CommitWrites,
        ActionView::PersistBlock,
        ActionView::ReadRoot,
    ]);
}

/// A request for information is answered with the last committed state, and
/// with none where it cannot be loaded.
pub proof fn law_get_info(node: Node)
    requires
        sound(node),
    ensures
        play(serve(RequestView::GetInfo), node, 1) == (
            seq![ActionView::LoadLastState],
            reply(
                ReplyView::GetInfo(
                    known_state(node(ActionView::LoadLastState)->LastState_0),
                ),
            ),
        ),
{
    assert(answers(ActionView::LoadLastState, node(ActionView::LoadLastState)));
    lemma_play_one(serve(RequestView::GetInfo), node);
}

/// A chain is initialised by setting its identifier. Where that fails, there
/// is no reply, and the shell ends.
pub proof fn law_init_chain(node: Node, chain_id: Seq<char>)
    requires
        sound(node),
    ensures
        play(serve(RequestView::InitChain { chain_id }), node, 1) == (
            seq![ActionView::SetChainId { chain_id }],
            match node(ActionView::SetChainId { chain_id })->ChainIdSet_0 {
                Ok(()) => reply(ReplyView::InitChain),
                Err(error) => stop(ErrorView::StorageError(error)),
            },
        ),
{
    let set = ActionView::SetChainId { chain_id };
    assert(answers(set, node(set)));
    lemma_play_one(serve(RequestView::InitChain { chain_id }), node);
}

/// A request to check a transaction for the mempool is answered at once, the
/// same whether the transaction is new or checked again.
pub proof fn law_mempool_reply(
    tx: Seq<u8>,
    tx_type: MempoolTxType,
    other: MempoolTxType,
)
    ensures
        serve(RequestView::MempoolValidate { tx, tx_type }) == reply(
            ReplyView::MempoolValidate(in_words(mempool_result(tx))),
        ),
        serve(RequestView::MempoolValidate { tx, tx_type }) == serve(
            RequestView::MempoolValidate { tx, tx_type: other },
        ),
{
}

/// A request to apply a transaction, and a query for a dry run, get the reply
/// that the transaction comes to. A query on any other path gets no reply, and
/// nothing is done for it.
pub proof fn law_tx_requests(
    node: Node,
    tx: Seq<u8>,
    path: Seq<char>,
    height: u64,
    prove: bool,
)
    requires
        sound(node),
    ensures
        play(
            serve(RequestView::ApplyTx { tx }),
            node,
            script(node, Mode::Apply, tx).len(),
        ) == (
            script(node, Mode::Apply, tx),
            ending(node, Mode::Apply, judged(node, Mode::Apply, tx)),
        ),
        path == "dry_run_tx"@ ==> play(
            serve(RequestView::AbciQuery { path, data: tx, height, prove }),
            node,
            script(node, Mode::DryRun, tx).len(),
        ) == (
            script(node, Mode::DryRun, tx),
            ending(node, Mode::DryRun, judged(node, Mode::DryRun, tx)),
        ),
        path != "dry_run_tx"@ ==> serve(RequestView::AbciQuery { path, data: tx, height, prove })
            == receive(),
{
    law_transaction(node, Mode::Apply, tx);
    law_transaction(node, Mode::DryRun, tx);
}

} // verus!

//! The shell and a node at work together: what a node may answer, the actions
//! that a transaction takes, and what comes of it.

use vstd::prelude::*;

use crate::error::ErrorView;
use crate::keys::{groups, ChangedKeyView, GroupView};
use crate::machine::{end_tx, fail, Turn};
use crate::protocol::{ActionView, EventView, Mode};
use crate::tx::TxView;

verus! {

/// A node: the event by which it answers each action. A transaction asks for no
/// action twice, so this leaves a node free to answer each of its actions in any
/// way.
pub type Node = spec_fn(ActionView) -> EventView;

/// Whether `event` is an answer to `action`.
pub open spec fn answers(action: ActionView, event: EventView) -> bool {
    match action {
        ActionView::OpenStorage { .. } => event is Done,
        ActionView::WriteStorage { .. } => event is Done,
        ActionView::Receive => event is Received || event is Closed,
        ActionView::LoadLastState => event is LastState,
        ActionView::SetChainId { .. } => event is ChainIdSet,
        ActionView::ResetGas => event is Done,
        ActionView::BeginBlock { .. } => event is Done,
        ActionView::ChargeBaseFee { .. } => event is FeeCharged,
        ActionView::RunTx { .. } => event is TxRan,
        ActionView::LoadPredicate { .. } => event is PredicateLoaded,
        ActionView::RunVp { .. } => event is VpRan,
        ActionView::CommitTx => event is Done,
        ActionView::DropTx => event is Done,
        ActionView::FinalizeGas => event is GasFinalized,
        ActionView::CommitWrites => event is Done,
        ActionView::PersistBlock => event is Persisted,
        ActionView::ReadRoot => event is Root,
        ActionView::Reply(_) => event is Sent,
        ActionView::Stop(_) => false,
    }
}

/// Whether the node answers every action but a stop.
pub open spec fn sound(node: Node) -> bool {
    forall|action: ActionView| !(action is Stop) ==> answers(action, #[trigger] node(action))
}

/// Lets the shell and the node go on for `n` turns: the actions that the node
/// has answered, and the turn reached.
pub open spec fn play(turn: Turn, node: Node, n: nat) -> (Seq<ActionView>, Turn)
    decreases n,
{
    if n == 0 {
        (Seq::empty(), turn)
    } else {
        let (later, end) = play(turn.0.next(node(turn.1)), node, (n - 1) as nat);
        (seq![turn.1] + later, end)
    }
}

/// What comes of checking a transaction.
pub enum Verdict {
    Accepted,
    Rejected,
    Failed(ErrorView),
}

/// The answer to the charging of the base fee.
pub open spec fn fee(node: Node, tx: Seq<u8>) -> Result<(), Seq<char>> {
    node(ActionView::ChargeBaseFee { size: tx.len() })->FeeCharged_0
}

/// The run of the code of a transaction.
pub open spec fn run_tx(mode: Mode, code: Seq<u8>, data: Seq<u8>) -> ActionView {
    ActionView::RunTx { mode, code, data }
}

/// The answer to the run of a transaction.
pub open spec fn ran(node: Node, mode: Mode, tx: TxView) -> Result<
    Seq<ChangedKeyView>,
    Seq<char>,
> {
    node(run_tx(mode, tx.code, tx.input()))->TxRan_0
}

/// The answer to the loading of the validity predicate of an account.
pub open spec fn predicate(node: Node, group: GroupView) -> Result<Seq<u8>, Seq<char>> {
    node(ActionView::LoadPredicate { addr: group.addr })->PredicateLoaded_0
}

/// The run of the validity predicate of an account.
pub open spec fn vp_run(mode: Mode, data: Seq<u8>, group: GroupView, code: Seq<u8>) -> ActionView {
    ActionView::RunVp { mode, predicate: code, data, addr: group.addr, keys: group.keys }
}

/// What comes of the validity predicate of one account.
pub open spec fn vp_verdict(node: Node, mode: Mode, data: Seq<u8>, group: GroupView) -> Verdict {
    match predicate(node, group) {
        Err(error) => Verdict::Failed(ErrorView::StorageError(error)),
        Ok(code) => match node(vp_run(mode, data, group, code))->VpRan_0 {
            Err(error) => Verdict::Failed(ErrorView::VpRunnerError { addr: group.addr, error }),
            Ok(accept) => if accept {
                Verdict::Accepted
            } else {
                Verdict::Rejected
            },
        },
    }
}

/// What comes of the validity predicates of all accounts: what comes of the
/// first that does not accept, if there is one.
pub open spec fn verdict(node: Node, mode: Mode, data: Seq<u8>, left: Seq<GroupView>) -> Verdict
    decreases left.len(),
{
    if left.len() == 0 {
        Verdict::Accepted
    } else {
        match vp_verdict(node, mode, data, left[0]) {
            Verdict::Accepted => verdict(node, mode, data, left.skip(1)),
            other => other,
        }
    }
}

/// What comes of a transaction.
pub open spec fn judged(node: Node, mode: Mode, bytes: Seq<u8>) -> Verdict {
    match fee(node, bytes) {
        Err(error) => Verdict::Failed(ErrorView::GasError(error)),
        Ok(()) => match TxView::decode(bytes) {
            Err(error) => Verdict::Failed(ErrorView::TxDecodingError(error)),
            Ok(tx) => match ran(node, mode, tx) {
                Err(error) => Verdict::Failed(ErrorView::TxRunnerError(error)),
                Ok(changed) => verdict(node, mode, tx.input(), groups(changed)),
            },
        },
    }
}

/// The actions by which the validity predicates of `left` are run: up to the
/// first that does not accept.
pub open spec fn vp_script(
    node: Node,
    mode: Mode,
    data: Seq<u8>,
    left: Seq<GroupView>,
) -> Seq<ActionView>
    decreases left.len(),
{
    if left.len() == 0 {
        Seq::empty()
    } else {
        let load = ActionView::LoadPredicate { addr: left[0].addr };
        match predicate(node, left[0]) {
            Err(_) => seq![load],
            Ok(code) => {
                let run = vp_run(mode, data, left[0], code);
                if vp_verdict(node, mode, data, left[0]) is Accepted {
                    seq![load, run] + vp_script(node, mode, data, left.skip(1))
                } else {
                    seq![load, run]
                }
            },
        }
    }
}

/// The actions that follow the validity predicates.
pub open spec fn end_script(mode: Mode, result: Verdict) -> Seq<ActionView> {
    match (mode, result) {
        (_, Verdict::Failed(_)) => Seq::empty(),
        (Mode::Apply, Verdict::Accepted) => seq![ActionView::CommitTx, ActionView::FinalizeGas],
        (Mode::Apply, Verdict::Rejected) => seq![ActionView::DropTx, ActionView::FinalizeGas],
        (Mode::DryRun, _) => seq![ActionView::FinalizeGas],
    }
}

/// The actions that a transaction takes, in order.
pub open spec fn script(node: Node, mode: Mode, bytes: Seq<u8>) -> Seq<ActionView> {
    let charge = seq![ActionView::ChargeBaseFee { size: bytes.len() }];
    match fee(node, bytes) {
        Err(_) => charge,
        Ok(()) => match TxView::decode(bytes) {
            Err(_) => charge,
            Ok(tx) => {
                let run = charge.push(run_tx(mode, tx.code, tx.input()));
                match ran(node, mode, tx) {
                    Err(_) => run,
                    Ok(changed) => run + vp_script(node, mode, tx.input(), groups(changed))
                        + end_script(mode, verdict(node, mode, tx.input(), groups(changed))),
                }
            },
        },
    }
}

/// The turn that a transaction ends in: its reply.
pub open spec fn ending(node: Node, mode: Mode, result: Verdict) -> Turn {
    let gas = node(ActionView::FinalizeGas)->GasFinalized_0;
    match result {
        Verdict::Failed(error) => fail(mode, error),
        Verdict::Accepted => end_tx(mode, true, gas),
        Verdict::Rejected => end_tx(mode, false, gas),
    }
}

} // verus!

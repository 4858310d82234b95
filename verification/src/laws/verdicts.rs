//! Laws on what a node's answers come to: which transactions are kept and which
//! are dropped, what they are run on, and what is told of them.

use vstd::prelude::*;
use vstd::seq_lib::lemma_seq_concat_contains_all_elements;

use crate::keys::{groups, keys_of, mentions, ChangedKeyView};
use crate::laws::checks::law_run_inputs;
use crate::laws::keys::{found, has_group, law_groups};
use crate::laws::traces::{asks, told};
use crate::laws::transaction::{
    accepted_before, law_all_must_accept, law_first_refusal_decides, law_transaction,
    law_writes_settled, lemma_vp_script,
};
use crate::laws::wire::{law_tx_round_trip, tx_bytes};
use crate::machine::State;
use crate::node::{
    end_script, fee, judged, play, ran, script, sound, verdict, vp_script, vp_verdict, Node,
    Verdict,
};
use crate::protocol::{ActionView, EventView, Mode, ReplyView, RequestView};
use crate::text::decimal_text;
use crate::tx::TxView;

verus! {

/// What a transaction is run on.
pub open spec fn data_of(tx: TxView) -> Seq<u8> {
    match tx.data {
        Some(data) => data,
        None => Seq::empty(),
    }
}

/// The node charges the base fee of a transaction that decodes, and runs its
/// code on its data, which changes keys.
pub open spec fn runs(
    node: Node,
    mode: Mode,
    bytes: Seq<u8>,
    tx: TxView,
    changed: Seq<ChangedKeyView>,
) -> bool {
    &&& node(ActionView::ChargeBaseFee { size: bytes.len() }) == EventView::FeeCharged(Ok(()))
    &&& TxView::decode(bytes) == Ok::<_, Seq<char>>(tx)
    &&& node(ActionView::RunTx { mode, code: tx.code, data: data_of(tx) }) == EventView::TxRan(
        Ok(changed),
    )
}

/// The node loads the validity predicate of an account, and answers the run of
/// it on the data of the transaction and the changed keys of the account with
/// `accept`.
pub open spec fn account_says(
    node: Node,
    mode: Mode,
    tx: TxView,
    changed: Seq<ChangedKeyView>,
    addr: Seq<char>,
    accept: bool,
) -> bool {
    &&& node(ActionView::LoadPredicate { addr }) matches EventView::PredicateLoaded(Ok(predicate))
    &&& node(
        ActionView::RunVp {
            mode,
            predicate,
            data: data_of(tx),
            addr,
            keys: keys_of(mentions(changed), addr),
        },
    ) == EventView::VpRan(Ok(accept))
}

/// The verdict of an account is what the node answers.
proof fn lemma_account_says(
    node: Node,
    mode: Mode,
    tx: TxView,
    changed: Seq<ChangedKeyView>,
    i: int,
    accept: bool,
)
    requires
        0 <= i < groups(changed).len(),
        account_says(node, mode, tx, changed, groups(changed)[i].addr, accept),
    ensures
        vp_verdict(node, mode, tx.input(), groups(changed)[i]) == if accept {
            Verdict::Accepted
        } else {
            Verdict::Rejected
        },
{
}

/// A transaction that every account accepts is accepted: where its base fee is
/// charged, it decodes and runs, and the node answers for every account that it
/// has changed a key of that its validity predicate accepts, its writes are kept
/// and not dropped if it is applied. The reply is the gas that the node says it
/// used. In a dry run, which neither keeps nor drops anything, success is
/// reported with that gas.
pub proof fn law_kept_if_all_accept(
    node: Node,
    request: RequestView,
    mode: Mode,
    bytes: Seq<u8>,
    tx: TxView,
    changed: Seq<ChangedKeyView>,
    gas: Result<u64, Seq<char>>,
)
    requires
        sound(node),
        asks(request, mode, bytes),
        runs(node, mode, bytes, tx, changed),
        forall|addr: Seq<char>| #[trigger]
            found(changed, addr) ==> account_says(node, mode, tx, changed, addr, true),
        node(ActionView::FinalizeGas) == EventView::GasFinalized(gas),
    ensures
        ({
            let (actions, end) = play(
                State::Idle.next(EventView::Received(request)),
                node,
                script(node, mode, bytes).len(),
            );
            &&& judged(node, mode, bytes) is Accepted
            &&& actions == script(node, mode, bytes)
            &&& actions.contains(ActionView::CommitTx) <==> mode == Mode::Apply
            &&& !actions.contains(ActionView::DropTx)
            &&& end.1 == ActionView::Reply(
                match (mode, gas) {
                    (Mode::Apply, Ok(used)) => ReplyView::ApplyTx(Ok(used)),
                    (Mode::Apply, Err(reason)) => ReplyView::ApplyTx(
                        Err("Gas error: "@ + reason),
                    ),
                    (Mode::DryRun, Ok(used)) => ReplyView::DryRunTx(
                        Ok("Transaction success, gas cost: "@ + decimal_text(used as nat)),
                    ),
                    (Mode::DryRun, Err(_)) => ReplyView::DryRunTx(
                        Ok("Transaction failed: gas overflow."@),
                    ),
                },
            )
        }),
{
    let left = groups(changed);
    law_groups(changed);
    assert(accepted_before(node, mode, tx.input(), left, left.len() as int)) by {
        assert forall|i: int| 0 <= i < left.len() implies vp_verdict(
            node,
            mode,
            tx.input(),
            #[trigger] left[i],
        ) is Accepted by {
            assert(has_group(left, left[i].addr));
            assert(found(changed, left[i].addr));
            lemma_account_says(node, mode, tx, changed, i, true);
        }
    }
    law_all_must_accept(node, mode, tx.input(), left);
    law_writes_settled(node, mode, bytes);
    law_transaction(node, mode, bytes);
}

/// A transaction that an account refuses is not accepted: where it runs, and one
/// account answers that it does not accept, with all that are asked before it
/// accepting, its writes are dropped and not kept if it is applied. The reply is
/// the gas that the node says it used all the same. A dry run reports that the
/// transaction was not accepted.
pub proof fn law_dropped_if_one_refuses(
    node: Node,
    request: RequestView,
    mode: Mode,
    bytes: Seq<u8>,
    tx: TxView,
    changed: Seq<ChangedKeyView>,
    i: int,
    gas: Result<u64, Seq<char>>,
)
    requires
        sound(node),
        asks(request, mode, bytes),
        runs(node, mode, bytes, tx, changed),
        0 <= i < groups(changed).len(),
        forall|j: int|
            0 <= j < i ==> account_says(
                node,
                mode,
                tx,
                changed,
                (#[trigger] groups(changed)[j]).addr,
                true,
            ),
        account_says(node, mode, tx, changed, groups(changed)[i].addr, false),
        node(ActionView::FinalizeGas) == EventView::GasFinalized(gas),
    ensures
        ({
            let (actions, end) = play(
                State::Idle.next(EventView::Received(request)),
                node,
                script(node, mode, bytes).len(),
            );
            &&& judged(node, mode, bytes) is Rejected
            &&& actions == script(node, mode, bytes)
            &&& actions.contains(ActionView::DropTx) <==> mode == Mode::Apply
            &&& !actions.contains(ActionView::CommitTx)
            &&& end.1 == ActionView::Reply(
                match (mode, gas) {
                    (Mode::Apply, Ok(used)) => ReplyView::ApplyTx(Ok(used)),
                    (Mode::Apply, Err(reason)) => ReplyView::ApplyTx(
                        Err("Gas error: "@ + reason),
                    ),
                    (Mode::DryRun, Ok(_)) => ReplyView::DryRunTx(
                        Ok("Transaction failed: VPs are not satisfied."@),
                    ),
                    (Mode::DryRun, Err(_)) => ReplyView::DryRunTx(
                        Ok("Transaction failed: gas overflow."@),
                    ),
                },
            )
        }),
{
    let left = groups(changed);
    assert(accepted_before(node, mode, tx.input(), left, i)) by {
        assert forall|j: int| 0 <= j < i implies vp_verdict(
            node,
            mode,
            tx.input(),
            #[trigger] left[j],
        ) is Accepted by {
            lemma_account_says(node, mode, tx, changed, j, true);
        }
    }
    lemma_account_says(node, mode, tx, changed, i, false);
    law_first_refusal_decides(node, mode, tx.input(), left, i);
    law_writes_settled(node, mode, bytes);
    law_transaction(node, mode, bytes);
}

/// The node cannot load the validity predicate of an account, or cannot run it,
/// for the reason given in words.
pub open spec fn account_fails(
    node: Node,
    mode: Mode,
    tx: TxView,
    changed: Seq<ChangedKeyView>,
    addr: Seq<char>,
    text: Seq<char>,
) -> bool {
    match node(ActionView::LoadPredicate { addr }) {
        EventView::PredicateLoaded(Err(reason)) => text == "Storage error: "@ + reason,
        EventView::PredicateLoaded(Ok(predicate)) => {
            &&& node(
                ActionView::RunVp {
                    mode,
                    predicate,
                    data: data_of(tx),
                    addr,
                    keys: keys_of(mentions(changed), addr),
                },
            ) matches EventView::VpRan(Err(reason))
            &&& text == "Validity predicate for "@ + addr + " runner error: "@ + reason
        },
        _ => false,
    }
}

/// A transaction that the node cannot check has failed: where the validity
/// predicate of an account cannot be loaded or run, with all that are asked
/// before it accepting, the writes of the transaction are neither kept nor
/// dropped, its gas account is left open, and the reply says why.
pub proof fn law_failed_if_one_fails(
    node: Node,
    request: RequestView,
    mode: Mode,
    bytes: Seq<u8>,
    tx: TxView,
    changed: Seq<ChangedKeyView>,
    i: int,
    text: Seq<char>,
)
    requires
        sound(node),
        asks(request, mode, bytes),
        runs(node, mode, bytes, tx, changed),
        0 <= i < groups(changed).len(),
        forall|j: int|
            0 <= j < i ==> account_says(
                node,
                mode,
                tx,
                changed,
                (#[trigger] groups(changed)[j]).addr,
                true,
            ),
        account_fails(node, mode, tx, changed, groups(changed)[i].addr, text),
    ensures
        ({
            let (actions, end) = play(
                State::Idle.next(EventView::Received(request)),
                node,
                script(node, mode, bytes).len(),
            );
            &&& actions == script(node, mode, bytes)
            &&& !actions.contains(ActionView::CommitTx)
            &&& !actions.contains(ActionView::DropTx)
            &&& !actions.contains(ActionView::FinalizeGas)
            &&& end.1 == told(mode, text)
        }),
{
    let left = groups(changed);
    assert(accepted_before(node, mode, tx.input(), left, i)) by {
        assert forall|j: int| 0 <= j < i implies vp_verdict(
            node,
            mode,
            tx.input(),
            #[trigger] left[j],
        ) is Accepted by {
            lemma_account_says(node, mode, tx, changed, j, true);
        }
    }
    law_first_refusal_decides(node, mode, tx.input(), left, i);
    law_writes_settled(node, mode, bytes);
    law_transaction(node, mode, bytes);
}

/// All that is run for a transaction is run on its own data, byte for byte: its
/// code, which is its own, and the validity predicate of every account.
pub proof fn law_everything_runs_on_its_data(
    node: Node,
    mode: Mode,
    bytes: Seq<u8>,
    tx: TxView,
    action: ActionView,
)
    requires
        TxView::decode(bytes) == Ok::<_, Seq<char>>(tx),
        script(node, mode, bytes).contains(action),
    ensures
        action matches ActionView::RunTx { mode: m, code, data } ==> m == mode && code == tx.code
            && data == data_of(tx),
        action matches ActionView::RunVp { mode: m, data, .. } ==> m == mode && data == data_of(tx),
{
    if action is RunVp {
        law_run_inputs(node, mode, bytes, action);
    }
    if action is RunTx && fee(node, bytes) is Ok && ran(node, mode, tx) is Ok {
        let left = groups(ran(node, mode, tx)->Ok_0);
        let run = seq![ActionView::ChargeBaseFee { size: bytes.len() }].push(
            ActionView::RunTx { mode, code: tx.code, data: tx.input() },
        );
        let vps = vp_script(node, mode, tx.input(), left);
        let tail = end_script(mode, verdict(node, mode, tx.input(), left));
        lemma_seq_concat_contains_all_elements(run + vps, tail, action);
        lemma_seq_concat_contains_all_elements(run, vps, action);
        lemma_vp_script(node, mode, tx.input(), left);
    }
}

/// A transaction that is sent with some code and data has this code run on this
/// data, and its accounts are asked about this data.
pub proof fn law_sent_data_is_used(
    node: Node,
    mode: Mode,
    code: Seq<u8>,
    data: Seq<u8>,
    action: ActionView,
)
    requires
        code.len() <= u64::MAX,
        data.len() <= u64::MAX,
        script(node, mode, tx_bytes(TxView { code, data: Some(data) })).contains(action),
    ensures
        action matches ActionView::RunTx { code: c, data: d, .. } ==> c == code && d == data,
        action matches ActionView::RunVp { data: d, .. } ==> d == data,
{
    let tx = TxView { code, data: Some(data) };
    law_tx_round_trip(tx);
    law_everything_runs_on_its_data(node, mode, tx_bytes(tx), tx, action);
}

} // verus!

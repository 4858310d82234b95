//! Laws on transactions.

use vstd::prelude::*;
use vstd::seq_lib::lemma_seq_concat_contains_all_elements;

use crate::keys::{groups, keys_of, mentions, ChangedKeyView, GroupView};
use crate::laws::keys::{found, has_group, law_groups};
use crate::laws::play::{lemma_play_on, lemma_play_one};
use crate::machine::{begin_tx, check, conclude, mempool_result, reply, Turn};
use crate::node::{
    answers, end_script, ending, fee, judged, play, predicate, ran, run_tx, script, sound, verdict,
    vp_run, vp_script, vp_verdict, Node, Verdict,
};
use crate::protocol::{ActionView, Mode, ReplyView};
use crate::text::{decimal_text, lemma_decimal_injective};
use crate::tx::TxView;

verus! {

/// A transaction that the validity predicates have accepted or rejected is
/// brought to its end.
proof fn lemma_conclude(node: Node, mode: Mode, accepted: bool)
    requires
        sound(node),
    ensures
        ({
            let result = if accepted {
                Verdict::Accepted
            } else {
                Verdict::Rejected
            };
            let actions = end_script(mode, result);
            play(conclude(mode, accepted), node, actions.len()) == (
                actions,
                ending(node, mode, result),
            )
        }),
{
    let start = conclude(mode, accepted);
    assert(answers(start.1, node(start.1)));
    assert(answers(ActionView::FinalizeGas, node(ActionView::FinalizeGas)));
    lemma_play_one(start, node);
    match mode {
        Mode::Apply => {
            let second = start.0.next(node(start.1));
            lemma_play_one(second, node);
            lemma_play_on(start, node, 1, 1);
            assert(seq![start.1] + seq![second.1] =~= seq![start.1, second.1]);
        },
        Mode::DryRun => {},
    }
}

/// The validity predicates of `left` are run, and the transaction is brought
/// to its end.
proof fn lemma_check(node: Node, mode: Mode, data: Seq<u8>, left: Seq<GroupView>)
    requires
        sound(node),
    ensures
        ({
            let result = verdict(node, mode, data, left);
            let actions = vp_script(node, mode, data, left) + end_script(mode, result);
            play(check(mode, data, left), node, actions.len()) == (
                actions,
                ending(node, mode, result),
            )
        }),
    decreases left.len(),
{
    let start = check(mode, data, left);
    let result = verdict(node, mode, data, left);
    let actions = vp_script(node, mode, data, left) + end_script(mode, result);
    if left.len() == 0 {
        lemma_conclude(node, mode, true);
        assert(actions =~= end_script(mode, Verdict::Accepted));
    } else {
        let load = ActionView::LoadPredicate { addr: left[0].addr };
        assert(answers(load, node(load)));
        lemma_play_one(start, node);
        let second = start.0.next(node(load));
        match predicate(node, left[0]) {
            Err(error) => {
                assert(actions =~= seq![load]);
            },
            Ok(code) => {
                let run = vp_run(mode, data, left[0], code);
                assert(answers(run, node(run)));
                assert(second.1 == run);
                lemma_play_one(second, node);
                lemma_play_on(start, node, 1, 1);
                assert(seq![load] + seq![run] =~= seq![load, run]);
                let third = second.0.next(node(run));
                assert(play(start, node, 2) == (seq![load, run], third));
                match vp_verdict(node, mode, data, left[0]) {
                    Verdict::Failed(error) => {
                        assert(actions =~= seq![load, run]);
                    },
                    Verdict::Rejected => {
                        lemma_conclude(node, mode, false);
                        let tail = end_script(mode, Verdict::Rejected);
                        lemma_play_on(start, node, 2, tail.len());
                    },
                    Verdict::Accepted => {
                        lemma_check(node, mode, data, left.skip(1));
                        let tail = vp_script(node, mode, data, left.skip(1)) + end_script(
                            mode,
                            result,
                        );
                        assert(actions =~= seq![load, run] + tail);
                        lemma_play_on(start, node, 2, tail.len());
                    },
                }
            },
        }
    }
}

/// A transaction takes exactly the actions of its script, in that order, and
/// then gets the reply that its verdict and its gas account come to.
pub proof fn law_transaction(node: Node, mode: Mode, bytes: Seq<u8>)
    requires
        sound(node),
    ensures
        play(begin_tx(mode, bytes), node, script(node, mode, bytes).len()) == (
            script(node, mode, bytes),
            ending(node, mode, judged(node, mode, bytes)),
        ),
{
    let start = begin_tx(mode, bytes);
    let actions = script(node, mode, bytes);
    assert(answers(start.1, node(start.1)));
    lemma_play_one(start, node);
    if fee(node, bytes) is Ok {
        match TxView::decode(bytes) {
            Err(_) => {},
            Ok(tx) => {
                let second = start.0.next(node(start.1));
                assert(answers(second.1, node(second.1)));
                lemma_play_one(second, node);
                lemma_play_on(start, node, 1, 1);
                let run = seq![start.1].push(second.1);
                assert(seq![start.1] + seq![second.1] =~= run);
                match ran(node, mode, tx) {
                    Err(_) => {},
                    Ok(changed) => {
                        let data = tx.input();
                        let left = groups(changed);
                        lemma_check(node, mode, data, left);
                        let tail = vp_script(node, mode, data, left) + end_script(
                            mode,
                            verdict(node, mode, data, left),
                        );
                        lemma_play_on(start, node, 2, tail.len());
                        assert(actions =~= run + tail);
                    },
                }
            },
        }
    }
}

/// The validity predicates of the first `i` accounts accept.
pub open spec fn accepted_before(
    node: Node,
    mode: Mode,
    data: Seq<u8>,
    left: Seq<GroupView>,
    i: int,
) -> bool {
    forall|j: int| 0 <= j < i ==> vp_verdict(node, mode, data, #[trigger] left[j]) is Accepted
}

/// The validity predicates accept a transaction if and only if each of them
/// does.
pub proof fn law_all_must_accept(node: Node, mode: Mode, data: Seq<u8>, left: Seq<GroupView>)
    ensures
        verdict(node, mode, data, left) is Accepted <==> accepted_before(
            node,
            mode,
            data,
            left,
            left.len() as int,
        ),
    decreases left.len(),
{
    if left.len() > 0 {
        law_all_must_accept(node, mode, data, left.skip(1));
        lemma_accepted_shift(node, mode, data, left, left.len() as int);
    }
}

/// The first validity predicate that does not accept decides what comes of
/// all.
pub proof fn law_first_refusal_decides(
    node: Node,
    mode: Mode,
    data: Seq<u8>,
    left: Seq<GroupView>,
    i: int,
)
    requires
        0 <= i < left.len(),
        accepted_before(node, mode, data, left, i),
        !(vp_verdict(node, mode, data, left[i]) is Accepted),
    ensures
        verdict(node, mode, data, left) == vp_verdict(node, mode, data, left[i]),
    decreases left.len(),
{
    if i > 0 {
        assert(left[i] == left.skip(1)[i - 1]);
        lemma_accepted_shift(node, mode, data, left, i);
        law_first_refusal_decides(node, mode, data, left.skip(1), i - 1);
    }
}

/// The first `i` accounts accept if the first does, and the first `i - 1` of
/// the others.
pub proof fn lemma_accepted_shift(
    node: Node,
    mode: Mode,
    data: Seq<u8>,
    left: Seq<GroupView>,
    i: int,
)
    requires
        0 < i <= left.len(),
    ensures
        accepted_before(node, mode, data, left, i) <==> vp_verdict(
            node,
            mode,
            data,
            left[0],
        ) is Accepted && accepted_before(node, mode, data, left.skip(1), i - 1),
{
    let rest = left.skip(1);
    if accepted_before(node, mode, data, left, i) {
        assert forall|j: int| 0 <= j < i - 1 implies vp_verdict(
            node,
            mode,
            data,
            #[trigger] rest[j],
        ) is Accepted by {
            assert(left[j + 1] == rest[j]);
        }
    }
    if vp_verdict(node, mode, data, left[0]) is Accepted && accepted_before(
        node,
        mode,
        data,
        rest,
        i - 1,
    ) {
        assert forall|j: int| 0 <= j < i implies vp_verdict(
            node,
            mode,
            data,
            #[trigger] left[j],
        ) is Accepted by {
            if j > 0 {
                assert(left[j] == rest[j - 1]);
            }
        }
    }
}

/// The group of an account among the changed keys.
pub open spec fn group_of(changed: Seq<ChangedKeyView>, addr: Seq<char>) -> GroupView {
    GroupView { addr, keys: keys_of(mentions(changed), addr) }
}

/// A transaction is accepted if and only if its base fee is paid, it decodes,
/// it runs, and the validity predicate of every account that it has changed a
/// key of accepts it.
pub proof fn law_accepted(node: Node, mode: Mode, bytes: Seq<u8>)
    ensures
        judged(node, mode, bytes) is Accepted <==> {
            &&& fee(node, bytes) is Ok
            &&& TxView::decode(bytes) matches Ok(tx)
            &&& ran(node, mode, tx) matches Ok(changed)
            &&& forall|addr: Seq<char>|
                found(changed, addr) ==> vp_verdict(
                    node,
                    mode,
                    tx.input(),
                    #[trigger] group_of(changed, addr),
                ) is Accepted
        },
{
    if fee(node, bytes) is Ok && TxView::decode(bytes) is Ok {
        let tx = TxView::decode(bytes)->Ok_0;
        if ran(node, mode, tx) is Ok {
            let changed = ran(node, mode, tx)->Ok_0;
            let data = tx.input();
            let left = groups(changed);
            law_groups(changed);
            law_all_must_accept(node, mode, data, left);
            assert forall|i: int| 0 <= i < left.len() implies #[trigger] left[i] == group_of(
                changed,
                left[i].addr,
            ) && found(changed, left[i].addr) by {
                assert(has_group(left, left[i].addr));
            }
            if judged(node, mode, bytes) is Accepted {
                assert forall|addr: Seq<char>| found(changed, addr) implies vp_verdict(
                    node,
                    mode,
                    data,
                    #[trigger] group_of(changed, addr),
                ) is Accepted by {
                    assert(has_group(left, addr));
                    let i = choose|i: int| 0 <= i < left.len() && (#[trigger] left[i]).addr == addr;
                    assert(left[i] == group_of(changed, addr));
                }
            }
        }
    }
}

/// The order in which accounts are asked does not decide whether all accept.
/// Where no validity predicate fails, it decides nothing.
pub proof fn law_order_does_not_matter(
    node: Node,
    mode: Mode,
    data: Seq<u8>,
    left: Seq<GroupView>,
    other: Seq<GroupView>,
)
    requires
        forall|group: GroupView| left.contains(group) <==> other.contains(group),
    ensures
        verdict(node, mode, data, left) is Accepted <==> verdict(node, mode, data, other) is Accepted,
        (forall|i: int|
            0 <= i < left.len() ==> !(vp_verdict(node, mode, data, #[trigger] left[i]) is Failed))
            ==> verdict(node, mode, data, left) == verdict(node, mode, data, other),
{
    law_all_must_accept(node, mode, data, left);
    law_all_must_accept(node, mode, data, other);
    lemma_accepts_subset(node, mode, data, left, other);
    lemma_accepts_subset(node, mode, data, other, left);
    lemma_verdict_found(node, mode, data, left);
    lemma_verdict_found(node, mode, data, other);
    if forall|i: int|
        0 <= i < left.len() ==> !(vp_verdict(node, mode, data, #[trigger] left[i]) is Failed) {
        if !(verdict(node, mode, data, other) is Accepted) {
            let j = choose|j: int|
                0 <= j < other.len() && verdict(node, mode, data, other) == vp_verdict(
                    node,
                    mode,
                    data,
                    #[trigger] other[j],
                );
            assert(other.contains(other[j]));
            assert(left.contains(other[j]));
            let i = choose|i: int| 0 <= i < left.len() && left[i] == other[j];
            assert(!(vp_verdict(node, mode, data, left[i]) is Failed));
        }
    }
}

/// Where all accounts of `left` accept, so do those of `other`, if they are
/// among them.
proof fn lemma_accepts_subset(
    node: Node,
    mode: Mode,
    data: Seq<u8>,
    left: Seq<GroupView>,
    other: Seq<GroupView>,
)
    requires
        forall|group: GroupView| other.contains(group) ==> left.contains(group),
    ensures
        accepted_before(node, mode, data, left, left.len() as int) ==> accepted_before(
            node,
            mode,
            data,
            other,
            other.len() as int,
        ),
{
    if accepted_before(node, mode, data, left, left.len() as int) {
        assert forall|j: int| 0 <= j < other.len() implies vp_verdict(
            node,
            mode,
            data,
            #[trigger] other[j],
        ) is Accepted by {
            assert(other.contains(other[j]));
            assert(left.contains(other[j]));
            let i = choose|i: int| 0 <= i < left.len() && left[i] == other[j];
            assert(vp_verdict(node, mode, data, left[i]) is Accepted);
        }
    }
}

/// What comes of all validity predicates, if they do not accept, is what comes
/// of one of them.
proof fn lemma_verdict_found(node: Node, mode: Mode, data: Seq<u8>, left: Seq<GroupView>)
    ensures
        !(verdict(node, mode, data, left) is Accepted) ==> exists|i: int|
            0 <= i < left.len() && verdict(node, mode, data, left) == vp_verdict(
                node,
                mode,
                data,
                #[trigger] left[i],
            ),
    decreases left.len(),
{
    if left.len() > 0 {
        let rest = left.skip(1);
        lemma_verdict_found(node, mode, data, rest);
        if vp_verdict(node, mode, data, left[0]) is Accepted {
            if !(verdict(node, mode, data, rest) is Accepted) {
                let i = choose|i: int|
                    0 <= i < rest.len() && verdict(node, mode, data, rest) == vp_verdict(
                        node,
                        mode,
                        data,
                        #[trigger] rest[i],
                    );
                assert(left[i + 1] == rest[i]);
            }
        } else {
            assert(verdict(node, mode, data, left) == vp_verdict(node, mode, data, left[0]));
        }
    }
}

/// What stands in the script of the validity predicates: nothing but loads and
/// runs of them, in the mode of the transaction.
pub proof fn lemma_vp_script(node: Node, mode: Mode, data: Seq<u8>, left: Seq<GroupView>)
    ensures
        forall|a: ActionView|
            #![trigger vp_script(node, mode, data, left).contains(a)]
            vp_script(node, mode, data, left).contains(a) ==> (a is LoadPredicate || (a matches ActionView::RunVp {
                mode: m,
                ..
            } && m == mode)),
    decreases left.len(),
{
    let whole = vp_script(node, mode, data, left);
    if left.len() > 0 {
        lemma_vp_script(node, mode, data, left.skip(1));
        let tail = vp_script(node, mode, data, left.skip(1));
        assert forall|a: ActionView| #[trigger] whole.contains(a) implies (a is LoadPredicate || (
        a matches ActionView::RunVp { mode: m, .. } && m == mode)) by {
            let i = choose|i: int| 0 <= i < whole.len() && whole[i] == a;
            if i >= 2 {
                assert(whole[i] == tail[i - 2]);
                assert(tail.contains(a));
            }
        }
    }
}

/// What stands in a script: what follows the validity predicates, and charges
/// and runs in the mode of the transaction.
proof fn lemma_script(node: Node, mode: Mode, bytes: Seq<u8>)
    ensures
        forall|a: ActionView|
            #![trigger script(node, mode, bytes).contains(a)]
            script(node, mode, bytes).contains(a) ==> end_script(
                mode,
                judged(node, mode, bytes),
            ).contains(a) || a == (ActionView::ChargeBaseFee { size: bytes.len() })
                || a is LoadPredicate || (
            a matches ActionView::RunTx { mode: m, .. } && m == mode) || (
            a matches ActionView::RunVp { mode: m, .. } && m == mode),
        forall|a: ActionView|
            end_script(mode, judged(node, mode, bytes)).contains(a) ==> #[trigger] script(
                node,
                mode,
                bytes,
            ).contains(a),
{
    let whole = script(node, mode, bytes);
    let result = judged(node, mode, bytes);
    let tail = end_script(mode, result);
    if fee(node, bytes) is Ok && TxView::decode(bytes) is Ok {
        let tx = TxView::decode(bytes)->Ok_0;
        if ran(node, mode, tx) is Ok {
            let left = groups(ran(node, mode, tx)->Ok_0);
            let data = tx.input();
            let vps = vp_script(node, mode, data, left);
            let run = seq![ActionView::ChargeBaseFee { size: bytes.len() }].push(
                ActionView::RunTx { mode, code: tx.code, data },
            );
            lemma_vp_script(node, mode, data, left);
            assert(whole == run + vps + tail);
            assert forall|a: ActionView|
                whole.contains(a) <==> run.contains(a) || vps.contains(a) || tail.contains(a) by {
                lemma_seq_concat_contains_all_elements(run + vps, tail, a);
                lemma_seq_concat_contains_all_elements(run, vps, a);
            }
        }
    }
}

/// The writes of a transaction are kept if and only if it is applied and
/// accepted, and dropped if and only if it is applied and rejected. The gas
/// account is closed if and only if the transaction has not failed.
pub proof fn law_writes_settled(node: Node, mode: Mode, bytes: Seq<u8>)
    ensures
        script(node, mode, bytes).contains(ActionView::CommitTx) <==> mode == Mode::Apply
            && judged(node, mode, bytes) is Accepted,
        script(node, mode, bytes).contains(ActionView::DropTx) <==> mode == Mode::Apply && judged(
            node,
            mode,
            bytes,
        ) is Rejected,
        script(node, mode, bytes).contains(ActionView::FinalizeGas) <==> !(judged(
            node,
            mode,
            bytes,
        ) is Failed),
{
    lemma_script(node, mode, bytes);
    let result = judged(node, mode, bytes);
    let tail = end_script(mode, result);
    assert(tail.contains(ActionView::CommitTx) <==> mode == Mode::Apply && result is Accepted) by {
        if mode == Mode::Apply && result is Accepted {
            assert(tail[0] == ActionView::CommitTx);
        }
    }
    assert(tail.contains(ActionView::DropTx) <==> mode == Mode::Apply && result is Rejected) by {
        if mode == Mode::Apply && result is Rejected {
            assert(tail[0] == ActionView::DropTx);
        }
    }
    assert(tail.contains(ActionView::FinalizeGas) <==> !(result is Failed)) by {
        if !(result is Failed) {
            assert(tail[tail.len() - 1] == ActionView::FinalizeGas);
        }
    }
}

/// The actions that a transaction may ask for. None of them touches the
/// storage, the block or consensus, and in a dry run none settles any writes.
pub open spec fn tx_action(mode: Mode, size: nat, action: ActionView) -> bool {
    match action {
        ActionView::ChargeBaseFee { size: charged } => charged == size,
        ActionView::RunTx { mode: m, .. } => m == mode,
        ActionView::LoadPredicate { .. } => true,
        ActionView::RunVp { mode: m, .. } => m == mode,
        ActionView::CommitTx => mode == Mode::Apply,
        ActionView::DropTx => mode == Mode::Apply,
        ActionView::FinalizeGas => true,
        _ => false,
    }
}

/// A transaction asks for nothing but charging its base fee, running its code
/// and validity predicates in its own mode, loading the predicates, closing its
/// gas account, and, if it is applied, keeping or dropping its writes.
pub proof fn law_actions_of_a_transaction(
    node: Node,
    mode: Mode,
    bytes: Seq<u8>,
    action: ActionView,
)
    requires
        script(node, mode, bytes).contains(action),
    ensures
        tx_action(mode, bytes.len(), action),
{
    lemma_script(node, mode, bytes);
}

/// A dry run keeps nothing: it neither keeps nor drops any writes, writes
/// nothing to the storage, and all of it runs on a copy of the write log.
pub proof fn law_dry_run_keeps_nothing(node: Node, bytes: Seq<u8>, action: ActionView)
    requires
        script(node, Mode::DryRun, bytes).contains(action),
    ensures
        !(action is CommitTx),
        !(action is DropTx),
        !(action is WriteStorage),
        !(action is CommitWrites),
        !(action is PersistBlock),
        action matches ActionView::RunTx { mode, .. } ==> mode == Mode::DryRun,
        action matches ActionView::RunVp { mode, .. } ==> mode == Mode::DryRun,
{
    law_actions_of_a_transaction(node, Mode::DryRun, bytes, action);
}

/// A transaction that may not enter the mempool fails with the same error when
/// it is applied or dry run, if its base fee is paid: it is not even run.
pub proof fn law_mempool_agrees(node: Node, mode: Mode, bytes: Seq<u8>)
    requires
        fee(node, bytes) is Ok,
    ensures
        match mempool_result(bytes) {
            Err(error) => judged(node, mode, bytes) == Verdict::Failed(error) && script(
                node,
                mode,
                bytes,
            ) == seq![ActionView::ChargeBaseFee { size: bytes.len() }],
            Ok(()) => !(judged(node, mode, bytes) matches Verdict::Failed(e)
                && e is TxDecodingError),
        },
{
    if mempool_result(bytes) is Ok {
        let tx = TxView::decode(bytes)->Ok_0;
        if ran(node, mode, tx) is Ok {
            lemma_vp_error(node, mode, tx.input(), groups(ran(node, mode, tx)->Ok_0));
        }
    }
}

/// The errors that the validity predicates can end in.
proof fn lemma_vp_error(node: Node, mode: Mode, data: Seq<u8>, left: Seq<GroupView>)
    ensures
        verdict(node, mode, data, left) matches Verdict::Failed(error) ==> error is StorageError
            || error is VpRunnerError,
    decreases left.len(),
{
    if left.len() > 0 {
        lemma_vp_error(node, mode, data, left.skip(1));
    }
}

/// The node answers the runs of a dry run as it answers those of an
/// application.
pub open spec fn alike(node: Node) -> bool {
    &&& forall|code: Seq<u8>, data: Seq<u8>|
        node(#[trigger] run_tx(Mode::DryRun, code, data)) == node(run_tx(Mode::Apply, code, data))
    &&& forall|data: Seq<u8>, group: GroupView, code: Seq<u8>|
        node(#[trigger] vp_run(Mode::DryRun, data, group, code)) == node(
            vp_run(Mode::Apply, data, group, code),
        )
}

/// The reply to an application that used `gas`.
pub open spec fn applied(gas: u64) -> Turn {
    reply(ReplyView::ApplyTx(Ok(gas)))
}

/// The reply to a dry run that used `gas`, and was successful.
pub open spec fn foretold(gas: u64) -> Turn {
    reply(
        ReplyView::DryRunTx(Ok("Transaction success, gas cost: "@ + decimal_text(gas as nat))),
    )
}

/// A dry run foretells the application, as long as the node answers both
/// alike. The verdict is the same. A transaction that is not rejected is
/// applied with some gas used if and only if its dry run reports success with
/// the same gas.
pub proof fn law_dry_run_foretells(node: Node, bytes: Seq<u8>, gas: u64)
    requires
        alike(node),
    ensures
        judged(node, Mode::DryRun, bytes) == judged(node, Mode::Apply, bytes),
        !(judged(node, Mode::Apply, bytes) is Rejected) ==> (ending(
            node,
            Mode::Apply,
            judged(node, Mode::Apply, bytes),
        ) == applied(gas) <==> ending(
            node,
            Mode::DryRun,
            judged(node, Mode::DryRun, bytes),
        ) == foretold(gas)),
        judged(node, Mode::DryRun, bytes) is Rejected ==> ending(
            node,
            Mode::DryRun,
            judged(node, Mode::DryRun, bytes),
        ) != foretold(gas),
{
    if TxView::decode(bytes) is Ok {
        let tx = TxView::decode(bytes)->Ok_0;
        assert(node(run_tx(Mode::DryRun, tx.code, tx.input())) == node(
            run_tx(Mode::Apply, tx.code, tx.input()),
        ));
        if ran(node, Mode::Apply, tx) is Ok {
            lemma_same_verdict(node, tx.input(), groups(ran(node, Mode::Apply, tx)->Ok_0));
        }
    }
    let success = "Transaction success, gas cost: "@;
    let promised = success + decimal_text(gas as nat);
    reveal_strlit("Transaction success, gas cost: ");
    reveal_strlit("Transaction failed: gas overflow.");
    reveal_strlit("Transaction failed: VPs are not satisfied.");
    assert(promised[12] == 's');
    assert("Transaction failed: gas overflow."@[12] == 'f');
    assert("Transaction failed: VPs are not satisfied."@[12] == 'f');
    match node(ActionView::FinalizeGas)->GasFinalized_0 {
        Ok(used) => {
            if success + decimal_text(used as nat) == promised {
                assert((success + decimal_text(used as nat)).skip(success.len() as int)
                    =~= decimal_text(used as nat));
                assert(promised.skip(success.len() as int) =~= decimal_text(gas as nat));
                lemma_decimal_injective(used as nat, gas as nat);
            }
        },
        Err(_) => {},
    }
}

/// The validity predicates come to the same in both modes.
proof fn lemma_same_verdict(node: Node, data: Seq<u8>, left: Seq<GroupView>)
    requires
        forall|d: Seq<u8>, group: GroupView, code: Seq<u8>|
            node(#[trigger] vp_run(Mode::DryRun, d, group, code)) == node(
                vp_run(Mode::Apply, d, group, code),
            ),
    ensures
        verdict(node, Mode::DryRun, data, left) == verdict(node, Mode::Apply, data, left),
    decreases left.len(),
{
    if left.len() > 0 {
        lemma_same_verdict(node, data, left.skip(1));
        if predicate(node, left[0]) is Ok {
            let code = predicate(node, left[0])->Ok_0;
            assert(node(vp_run(Mode::DryRun, data, left[0], code)) == node(
                vp_run(Mode::Apply, data, left[0], code),
            ));
        }
    }
}

} // verus!

//! Laws on the validity predicates that a transaction has run.

use vstd::prelude::*;
use vstd::seq_lib::lemma_seq_concat_contains_all_elements;

use crate::keys::{groups, keys_of, mentions, GroupView};
use crate::laws::keys::{distinct, found, has_group, law_groups};
use crate::laws::transaction::{
    accepted_before, group_of, law_accepted, law_all_must_accept, law_writes_settled,
    lemma_accepted_shift, lemma_vp_script,
};
use crate::node::{
    answers, end_script, fee, predicate, ran, script, sound, verdict, vp_run, vp_script,
    vp_verdict, Node,
};
use crate::protocol::{ActionView, EventView, Mode};
use crate::tx::TxView;

verus! {

/// The account that an action on a validity predicate is about.
pub open spec fn account(action: ActionView) -> Option<Seq<char>> {
    match action {
        ActionView::LoadPredicate { addr } => Some(addr),
        ActionView::RunVp { addr, .. } => Some(addr),
        _ => None,
    }
}

/// The actions on the account at the head of `left`.
pub open spec fn vp_head(node: Node, mode: Mode, data: Seq<u8>, group: GroupView) -> Seq<ActionView> {
    let load = ActionView::LoadPredicate { addr: group.addr };
    match predicate(node, group) {
        Err(_) => seq![load],
        Ok(code) => seq![load, vp_run(mode, data, group, code)],
    }
}

/// The script of the validity predicates is that of the first account,
/// followed by that of the others if the first accepts.
proof fn lemma_vp_split(node: Node, mode: Mode, data: Seq<u8>, left: Seq<GroupView>)
    requires
        left.len() > 0,
    ensures
        vp_script(node, mode, data, left) == vp_head(node, mode, data, left[0]) + (if vp_verdict(
            node,
            mode,
            data,
            left[0],
        ) is Accepted {
            vp_script(node, mode, data, left.skip(1))
        } else {
            Seq::empty()
        }),
{
    let head = vp_head(node, mode, data, left[0]);
    assert(head + Seq::<ActionView>::empty() =~= head);
}

/// The validity predicates are asked about listed accounts only.
proof fn lemma_accounts(
    node: Node,
    mode: Mode,
    data: Seq<u8>,
    left: Seq<GroupView>,
    action: ActionView,
)
    requires
        vp_script(node, mode, data, left).contains(action),
    ensures
        account(action) matches Some(addr) && has_group(left, addr),
    decreases left.len(),
{
    if left.len() > 0 {
        let rest = left.skip(1);
        let head = vp_head(node, mode, data, left[0]);
        let tail = vp_script(node, mode, data, rest);
        lemma_vp_split(node, mode, data, left);
        if head.contains(action) {
            assert(account(action) == Some(left[0].addr));
        } else {
            lemma_seq_concat_contains_all_elements(head, tail, action);
            lemma_seq_concat_contains_all_elements(head, Seq::empty(), action);
            lemma_accounts(node, mode, data, rest, action);
            let i = choose|i: int|
                0 <= i < rest.len() && (#[trigger] rest[i]).addr == account(action)->0;
            assert(left[i + 1] == rest[i]);
        }
    }
}

/// Nothing in the script of the other accounts is about the first.
proof fn lemma_head_apart(node: Node, mode: Mode, data: Seq<u8>, left: Seq<GroupView>)
    requires
        distinct(left),
        left.len() > 0,
    ensures
        distinct(left.skip(1)),
        forall|a: ActionView| #[trigger]
            vp_script(node, mode, data, left.skip(1)).contains(a) ==> account(a) != Some(
                left[0].addr,
            ),
{
    let rest = left.skip(1);
    assert forall|i: int, j: int| 0 <= i < j < rest.len() implies (#[trigger] rest[i]).addr != (
    #[trigger] rest[j]).addr by {
        assert(rest[i] == left[i + 1] && rest[j] == left[j + 1]);
    }
    assert forall|a: ActionView| #[trigger]
        vp_script(node, mode, data, rest).contains(a) implies account(a) != Some(left[0].addr) by {
        lemma_accounts(node, mode, data, rest, a);
        let i = choose|i: int| 0 <= i < rest.len() && (#[trigger] rest[i]).addr == account(a)->0;
        assert(left[i + 1] == rest[i]);
    }
}

/// No account is asked about twice.
proof fn lemma_vp_once(node: Node, mode: Mode, data: Seq<u8>, left: Seq<GroupView>)
    requires
        distinct(left),
    ensures
        vp_script(node, mode, data, left).no_duplicates(),
    decreases left.len(),
{
    if left.len() > 0 {
        let head = vp_head(node, mode, data, left[0]);
        let tail = if vp_verdict(node, mode, data, left[0]) is Accepted {
            vp_script(node, mode, data, left.skip(1))
        } else {
            Seq::empty()
        };
        lemma_vp_split(node, mode, data, left);
        lemma_head_apart(node, mode, data, left);
        lemma_vp_once(node, mode, data, left.skip(1));
        lemma_joined_once(head, tail);
    }
}

/// Two sequences without duplicates and with nothing in common make one
/// without duplicates.
proof fn lemma_joined_once(first: Seq<ActionView>, second: Seq<ActionView>)
    requires
        first.no_duplicates(),
        second.no_duplicates(),
        forall|a: ActionView| #[trigger] first.contains(a) ==> !second.contains(a),
    ensures
        (first + second).no_duplicates(),
{
    let whole = first + second;
    assert forall|m: int, n: int| 0 <= m < n < whole.len() implies whole[m] != whole[n] by {
        if m < first.len() && n >= first.len() {
            assert(first.contains(first[m]));
            assert(second[n - first.len()] == whole[n]);
            assert(second.contains(whole[n]));
        } else if m >= first.len() {
            assert(second[n - first.len()] == whole[n]);
            assert(second[m - first.len()] == whole[m]);
        }
    }
}

/// The validity predicate of an account is loaded if and only if all accounts
/// before it accept.
proof fn lemma_vp_reached(node: Node, mode: Mode, data: Seq<u8>, left: Seq<GroupView>, i: int)
    requires
        distinct(left),
        0 <= i < left.len(),
    ensures
        vp_script(node, mode, data, left).contains(
            ActionView::LoadPredicate { addr: left[i].addr },
        ) <==> accepted_before(node, mode, data, left, i),
    decreases left.len(),
{
    let rest = left.skip(1);
    let a = ActionView::LoadPredicate { addr: left[i].addr };
    let head = vp_head(node, mode, data, left[0]);
    let tail = vp_script(node, mode, data, rest);
    lemma_vp_split(node, mode, data, left);
    lemma_head_apart(node, mode, data, left);
    lemma_seq_concat_contains_all_elements(head, tail, a);
    lemma_seq_concat_contains_all_elements(head, Seq::empty(), a);
    if i == 0 {
        assert(head[0] == a);
    } else {
        assert(left[0].addr != left[i].addr);
        assert(!head.contains(a));
        assert(rest[i - 1] == left[i]);
        lemma_vp_reached(node, mode, data, rest, i - 1);
        lemma_accepted_shift(node, mode, data, left, i);
    }
}

/// A transaction asks for no action twice.
pub proof fn law_no_action_twice(node: Node, mode: Mode, bytes: Seq<u8>)
    ensures
        script(node, mode, bytes).no_duplicates(),
{
    if fee(node, bytes) is Ok && TxView::decode(bytes) is Ok {
        let tx = TxView::decode(bytes)->Ok_0;
        if ran(node, mode, tx) is Ok {
            let changed = ran(node, mode, tx)->Ok_0;
            let left = groups(changed);
            let data = tx.input();
            let run = seq![ActionView::ChargeBaseFee { size: bytes.len() }].push(
                ActionView::RunTx { mode, code: tx.code, data },
            );
            let vps = vp_script(node, mode, data, left);
            let tail = end_script(mode, verdict(node, mode, data, left));
            law_groups(changed);
            lemma_vp_once(node, mode, data, left);
            lemma_vp_script(node, mode, data, left);
            lemma_joined_once(run, vps);
            assert forall|a: ActionView| #[trigger] (run + vps).contains(a) implies !tail.contains(
                a,
            ) by {
                lemma_seq_concat_contains_all_elements(run, vps, a);
            }
            lemma_joined_once(run + vps, tail);
        }
    }
}

/// The validity predicate of an account is loaded if and only if the
/// transaction has run, has changed a key of the account, and the accounts
/// before it accept: once one does not, no other is asked.
pub proof fn law_no_check_after_refusal(node: Node, mode: Mode, bytes: Seq<u8>, addr: Seq<char>)
    ensures
        script(node, mode, bytes).contains(ActionView::LoadPredicate { addr }) <==> {
            &&& fee(node, bytes) is Ok
            &&& TxView::decode(bytes) matches Ok(tx)
            &&& ran(node, mode, tx) matches Ok(changed)
            &&& exists|i: int|
                0 <= i < groups(changed).len() && (#[trigger] groups(changed)[i]).addr == addr
                    && accepted_before(node, mode, tx.input(), groups(changed), i)
        },
{
    let a = ActionView::LoadPredicate { addr };
    if fee(node, bytes) is Ok && TxView::decode(bytes) is Ok {
        let tx = TxView::decode(bytes)->Ok_0;
        if ran(node, mode, tx) is Ok {
            let changed = ran(node, mode, tx)->Ok_0;
            let left = groups(changed);
            let data = tx.input();
            let run = seq![ActionView::ChargeBaseFee { size: bytes.len() }].push(
                ActionView::RunTx { mode, code: tx.code, data },
            );
            let vps = vp_script(node, mode, data, left);
            let tail = end_script(mode, verdict(node, mode, data, left));
            law_groups(changed);
            lemma_seq_concat_contains_all_elements(run + vps, tail, a);
            lemma_seq_concat_contains_all_elements(run, vps, a);
            if vps.contains(a) {
                lemma_accounts(node, mode, data, left, a);
                let i = choose|i: int| 0 <= i < left.len() && (#[trigger] left[i]).addr == addr;
                lemma_vp_reached(node, mode, data, left, i);
            }
            assert forall|i: int|
                0 <= i < left.len() && (#[trigger] left[i]).addr == addr && accepted_before(
                    node,
                    mode,
                    data,
                    left,
                    i,
                ) implies vps.contains(a) by {
                lemma_vp_reached(node, mode, data, left, i);
            }
        }
    }
}

/// Whether `action` is the run of the validity predicate of the account at `i`,
/// and all accounts before it accept.
pub open spec fn is_run(
    node: Node,
    mode: Mode,
    data: Seq<u8>,
    left: Seq<GroupView>,
    i: int,
    action: ActionView,
) -> bool {
    &&& 0 <= i < left.len()
    &&& accepted_before(node, mode, data, left, i)
    &&& predicate(node, left[i]) matches Ok(code)
    &&& action == vp_run(mode, data, left[i], code)
}

/// The runs in the script of the validity predicates.
proof fn lemma_runs(
    node: Node,
    mode: Mode,
    data: Seq<u8>,
    left: Seq<GroupView>,
    action: ActionView,
)
    requires
        action is RunVp,
    ensures
        vp_script(node, mode, data, left).contains(action) <==> exists|i: int|
            is_run(node, mode, data, left, i, action),
    decreases left.len(),
{
    if left.len() > 0 {
        let rest = left.skip(1);
        let head = vp_head(node, mode, data, left[0]);
        let tail = vp_script(node, mode, data, rest);
        let whole = vp_script(node, mode, data, left);
        lemma_vp_split(node, mode, data, left);
        lemma_seq_concat_contains_all_elements(head, tail, action);
        lemma_seq_concat_contains_all_elements(head, Seq::empty(), action);
        lemma_runs(node, mode, data, rest, action);
        if head.contains(action) {
            assert(is_run(node, mode, data, left, 0, action));
        } else if whole.contains(action) {
            let i = choose|i: int| is_run(node, mode, data, rest, i, action);
            assert(left[i + 1] == rest[i]);
            lemma_accepted_shift(node, mode, data, left, i + 1);
            assert(is_run(node, mode, data, left, i + 1, action));
        }
        if exists|i: int| is_run(node, mode, data, left, i, action) {
            let i = choose|i: int| is_run(node, mode, data, left, i, action);
            if i == 0 {
                assert(head[1] == action);
            } else {
                assert(left[i] == rest[i - 1]);
                lemma_accepted_shift(node, mode, data, left, i);
                assert(is_run(node, mode, data, rest, i - 1, action));
            }
        }
    }
}

/// A validity predicate is run if and only if the transaction has run, has
/// changed a key of its account, its code could be loaded, and the accounts
/// before it accept. It is run on the data of the transaction and on the keys of
/// its account. Once an account does not accept, no other is asked.
pub proof fn law_no_run_after_refusal(
    node: Node,
    mode: Mode,
    bytes: Seq<u8>,
    action: ActionView,
)
    requires
        action is RunVp,
    ensures
        script(node, mode, bytes).contains(action) <==> {
            &&& fee(node, bytes) is Ok
            &&& TxView::decode(bytes) matches Ok(tx)
            &&& ran(node, mode, tx) matches Ok(changed)
            &&& exists|i: int| is_run(node, mode, tx.input(), groups(changed), i, action)
        },
{
    if fee(node, bytes) is Ok && TxView::decode(bytes) is Ok {
        let tx = TxView::decode(bytes)->Ok_0;
        if ran(node, mode, tx) is Ok {
            let left = groups(ran(node, mode, tx)->Ok_0);
            let data = tx.input();
            let run = seq![ActionView::ChargeBaseFee { size: bytes.len() }].push(
                ActionView::RunTx { mode, code: tx.code, data },
            );
            let vps = vp_script(node, mode, data, left);
            let tail = end_script(mode, verdict(node, mode, data, left));
            lemma_seq_concat_contains_all_elements(run + vps, tail, action);
            lemma_seq_concat_contains_all_elements(run, vps, action);
            lemma_runs(node, mode, data, left, action);
        }
    }
}

/// A validity predicate is run on what it is to judge: its own code, the data
/// of the transaction, and exactly the changed keys of its account, of which
/// there is one at least.
pub proof fn law_run_inputs(node: Node, mode: Mode, bytes: Seq<u8>, action: ActionView)
    requires
        script(node, mode, bytes).contains(action),
        action is RunVp,
    ensures
        TxView::decode(bytes) matches Ok(tx) && ran(node, mode, tx) matches Ok(changed) && {
            &&& action->RunVp_mode == mode
            &&& action->RunVp_data == tx.input()
            &&& found(changed, action->RunVp_addr)
            &&& action->RunVp_keys == keys_of(mentions(changed), action->RunVp_addr)
            &&& predicate(node, group_of(changed, action->RunVp_addr)) == Ok::<_, Seq<char>>(
                action->RunVp_predicate,
            )
        },
{
    law_no_run_after_refusal(node, mode, bytes, action);
    let tx = TxView::decode(bytes)->Ok_0;
    let changed = ran(node, mode, tx)->Ok_0;
    let left = groups(changed);
    let i = choose|i: int| is_run(node, mode, tx.input(), left, i, action);
    law_groups(changed);
    assert(left[i] == group_of(changed, left[i].addr));
    assert(has_group(left, left[i].addr));
}

/// The validity predicate of an account is run at most once.
pub proof fn law_one_run_per_account(
    node: Node,
    mode: Mode,
    bytes: Seq<u8>,
    first: int,
    second: int,
)
    requires
        0 <= first < second < script(node, mode, bytes).len(),
        script(node, mode, bytes)[first] is RunVp,
        script(node, mode, bytes)[second] is RunVp,
    ensures
        script(node, mode, bytes)[first]->RunVp_addr != script(
            node,
            mode,
            bytes,
        )[second]->RunVp_addr,
{
    let whole = script(node, mode, bytes);
    assert(whole.contains(whole[first]));
    assert(whole.contains(whole[second]));
    law_no_action_twice(node, mode, bytes);
    law_run_inputs(node, mode, bytes, whole[first]);
    law_run_inputs(node, mode, bytes, whole[second]);
}

/// The validity predicate of the account in `group` has been run on it in the
/// transaction, and has answered that it accepts.
pub open spec fn ran_and_accepted(
    node: Node,
    mode: Mode,
    bytes: Seq<u8>,
    data: Seq<u8>,
    group: GroupView,
) -> bool {
    &&& predicate(node, group) matches Ok(code)
    &&& script(node, mode, bytes).contains(vp_run(mode, data, group, code))
    &&& node(vp_run(mode, data, group, code)) == EventView::VpRan(Ok(true))
}

/// Where the writes of a transaction are kept, the validity predicate of every
/// account that it has changed a key of has been run, and has accepted.
pub proof fn law_kept_only_if_all_accepted(node: Node, mode: Mode, bytes: Seq<u8>)
    requires
        sound(node),
        script(node, mode, bytes).contains(ActionView::CommitTx),
    ensures
        mode == Mode::Apply,
        TxView::decode(bytes) matches Ok(tx) && ran(node, mode, tx) matches Ok(changed) && forall|
            addr: Seq<char>,
        |
            found(changed, addr) ==> ran_and_accepted(
                node,
                mode,
                bytes,
                tx.input(),
                #[trigger] group_of(changed, addr),
            ),
{
    law_writes_settled(node, mode, bytes);
    let tx = TxView::decode(bytes)->Ok_0;
    let changed = ran(node, mode, tx)->Ok_0;
    let data = tx.input();
    let left = groups(changed);
    law_accepted(node, mode, bytes);
    law_all_must_accept(node, mode, data, left);
    law_groups(changed);
    assert forall|addr: Seq<char>| found(changed, addr) implies ran_and_accepted(
        node,
        mode,
        bytes,
        data,
        #[trigger] group_of(changed, addr),
    ) by {
        let group = group_of(changed, addr);
        assert(has_group(left, addr));
        let i = choose|i: int| 0 <= i < left.len() && (#[trigger] left[i]).addr == addr;
        assert(left[i] == group);
        assert(vp_verdict(node, mode, data, left[i]) is Accepted);
        let code = predicate(node, group)->Ok_0;
        let run = vp_run(mode, data, group, code);
        assert(answers(run, node(run)));
        assert(is_run(node, mode, data, left, i, run));
        law_no_run_after_refusal(node, mode, bytes, run);
    }
}

} // verus!

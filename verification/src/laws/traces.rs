//! Laws on what the shell asks for after what has happened.
//!
//! Each of them speaks of events alone, since the shell last waited for a
//! request or since it was started, and of the action that they lead to.

use vstd::prelude::*;

use crate::error::ErrorView;
use crate::keys::{groups, ChangedKeyView};
use crate::laws::requests::{law_answers_are_awaited, matched};
use crate::laws::session::{lemma_one_turn, orderly};
use crate::laws::wire::{law_tx_round_trip, tx_bytes};
use crate::machine::{check, State, Turn};
use crate::protocol::{
    ActionView, EventView, MempoolTxType, Mode, ReplyView, RequestView,
};
use crate::text::decimal_text;
use crate::tx::TxView;

verus! {

/// The turn that a shell has come to by events, since it waited for a request.
pub open spec fn after(events: Seq<EventView>) -> Turn
    decreases events.len(),
{
    if events.len() == 0 {
        (State::Idle, ActionView::Receive)
    } else {
        after(events.drop_last()).0.next(events.last())
    }
}

/// Whether the shell has awaited each of the events when it came.
pub open spec fn awaited(events: Seq<EventView>) -> bool
    decreases events.len(),
{
    events.len() > 0 ==> awaited(events.drop_last()) && after(events.drop_last()).0.awaits(
        events.last(),
    )
}

/// Whether a request is for a transaction to be applied or dry run.
pub open spec fn asks(request: RequestView, mode: Mode, bytes: Seq<u8>) -> bool {
    match mode {
        Mode::Apply => request == (RequestView::ApplyTx { tx: bytes }),
        Mode::DryRun => {
            &&& request matches RequestView::AbciQuery { path, data, .. }
            &&& path == "dry_run_tx"@
            &&& data == bytes
        },
    }
}

/// The reply that a transaction has failed, with the reason in words.
pub open spec fn told(mode: Mode, reason: Seq<char>) -> ActionView {
    match mode {
        Mode::Apply => ActionView::Reply(ReplyView::ApplyTx(Err(reason))),
        Mode::DryRun => ActionView::Reply(ReplyView::DryRunTx(Err(reason))),
    }
}

/// A transaction has been asked for, and its base fee has been charged.
pub open spec fn charged(request: RequestView) -> Seq<EventView> {
    seq![EventView::Received(request), EventView::FeeCharged(Ok(()))]
}

/// A transaction has been asked for and charged, and has run.
pub open spec fn has_run(request: RequestView, changed: Seq<ChangedKeyView>) -> Seq<EventView> {
    charged(request).push(EventView::TxRan(Ok(changed)))
}

/// One validity predicate after the other has been loaded, and has accepted.
pub open spec fn accepts(codes: Seq<Seq<u8>>) -> Seq<EventView>
    decreases codes.len(),
{
    if codes.len() == 0 {
        Seq::empty()
    } else {
        accepts(codes.drop_last()).push(EventView::PredicateLoaded(Ok(codes.last()))).push(
            EventView::VpRan(Ok(true)),
        )
    }
}

/// A transaction has run, and as many validity predicates as there are `codes`
/// have accepted it.
pub open spec fn accepted_by(
    request: RequestView,
    changed: Seq<ChangedKeyView>,
    codes: Seq<Seq<u8>>,
) -> Seq<EventView> {
    has_run(request, changed) + accepts(codes)
}

/// One more event is one more turn.
proof fn lemma_after(events: Seq<EventView>, event: EventView)
    ensures
        after(events.push(event)) == after(events).0.next(event),
{
    assert(events.push(event).drop_last() =~= events);
}

proof fn lemma_after_one(a: EventView)
    ensures
        after(seq![a]) == State::Idle.next(a),
{
    lemma_after(Seq::empty(), a);
}

proof fn lemma_after_two(a: EventView, b: EventView)
    ensures
        after(seq![a, b]) == State::Idle.next(a).0.next(b),
{
    lemma_after_one(a);
    lemma_after(seq![a], b);
    assert(seq![a, b] =~= seq![a].push(b));
}

proof fn lemma_after_three(a: EventView, b: EventView, c: EventView)
    ensures
        after(seq![a, b, c]) == State::Idle.next(a).0.next(b).0.next(c),
{
    lemma_after_two(a, b);
    lemma_after(seq![a, b], c);
    assert(seq![a, b, c] =~= seq![a, b].push(c));
}

/// In every turn that events have led to, the shell waits for the answers to
/// its action, and replies if and only if it waits for a reply to be sent.
proof fn lemma_awaited(events: Seq<EventView>)
    requires
        awaited(events),
    ensures
        matched(after(events)),
        orderly(after(events)),
    decreases events.len(),
{
    if events.len() > 0 {
        let before = events.drop_last();
        lemma_awaited(before);
        law_answers_are_awaited(Seq::empty(), after(before).0, events.last());
        lemma_one_turn(after(before), events.last());
    }
}

/// A node that has been asked to do something may answer that it has done so,
/// and with what result, and in no other way. To a shell that has ended there
/// is no answer.
pub proof fn law_each_action_has_its_answer(events: Seq<EventView>, event: EventView)
    requires
        awaited(events),
    ensures
        awaited(events.push(event)) <==> match (after(events).1, event) {
            (ActionView::OpenStorage { .. }, EventView::Done) => true,
            (ActionView::WriteStorage { .. }, EventView::Done) => true,
            (ActionView::Receive, EventView::Received(_)) => true,
            (ActionView::Receive, EventView::Closed(_)) => true,
            (ActionView::LoadLastState, EventView::LastState(_)) => true,
            (ActionView::SetChainId { .. }, EventView::ChainIdSet(_)) => true,
            (ActionView::ResetGas, EventView::Done) => true,
            (ActionView::BeginBlock { .. }, EventView::Done) => true,
            (ActionView::ChargeBaseFee { .. }, EventView::FeeCharged(_)) => true,
            (ActionView::RunTx { .. }, EventView::TxRan(_)) => true,
            (ActionView::LoadPredicate { .. }, EventView::PredicateLoaded(_)) => true,
            (ActionView::RunVp { .. }, EventView::VpRan(_)) => true,
            (ActionView::CommitTx, EventView::Done) => true,
            (ActionView::DropTx, EventView::Done) => true,
            (ActionView::FinalizeGas, EventView::GasFinalized(_)) => true,
            (ActionView::CommitWrites, EventView::Done) => true,
            (ActionView::PersistBlock, EventView::Persisted(_)) => true,
            (ActionView::ReadRoot, EventView::Root(_)) => true,
            (ActionView::Reply(_), EventView::Sent(_)) => true,
            _ => false,
        },
{
    lemma_awaited(events);
    assert(events.push(event).drop_last() =~= events);
    assert(after(events).0.awaits(event) || !after(events).0.awaits(event));
}

/// A reply that has been sent ends the request: the shell waits for the next
/// one. One that cannot be sent ends the shell, with an error that names the
/// request and gives the reason. A dry run goes by the name of an application.
pub proof fn law_sent(events: Seq<EventView>, answer: ReplyView, reason: Seq<char>)
    requires
        awaited(events),
        after(events).1 == ActionView::Reply(answer),
    ensures
        after(events.push(EventView::Sent(Ok(())))) == (State::Idle, ActionView::Receive),
        after(events.push(EventView::Sent(Err(reason)))).1 == ActionView::Stop(
            ErrorView::AbciChannelSendError(
                match answer {
                    ReplyView::GetInfo(_) => "GetInfo "@,
                    ReplyView::InitChain => "InitChain "@,
                    ReplyView::MempoolValidate(_) => "MempoolValidate "@,
                    ReplyView::BeginBlock => "BeginBlock "@,
                    ReplyView::ApplyTx(_) => "ApplyTx "@,
                    ReplyView::EndBlock => "EndBlock "@,
                    ReplyView::CommitBlock(_) => "CommitBlock "@,
                    ReplyView::DryRunTx(_) => "ApplyTx "@,
                } + reason,
            ),
        ),
{
    lemma_awaited(events);
    lemma_after(events, EventView::Sent(Ok(())));
    lemma_after(events, EventView::Sent(Err(reason)));
}

/// A request leaves nothing behind in the shell: what follows goes as if it had
/// been the first.
pub proof fn law_each_request_starts_afresh(earlier: Seq<EventView>, later: Seq<EventView>)
    requires
        after(earlier) == (State::Idle, ActionView::Receive),
    ensures
        after(earlier + later) == after(later),
    decreases later.len(),
{
    if later.len() == 0 {
        assert(earlier + later =~= earlier);
    } else {
        law_each_request_starts_afresh(earlier, later.drop_last());
        assert((earlier + later).drop_last() =~= earlier + later.drop_last());
    }
}

/// Where no more requests can come, the shell ends with the reason.
pub proof fn law_closed(reason: Seq<char>)
    ensures
        after(seq![EventView::Closed(reason)]).1 == ActionView::Stop(
            ErrorView::AbciChannelRecvError(reason),
        ),
{
    lemma_after_one(EventView::Closed(reason));
}

/// A request for information is answered with exactly what the storage has
/// loaded, root and height, and with nothing where it could not load anything.
pub proof fn law_last_state_is_told(last: Option<(Seq<u8>, u64)>, reason: Seq<char>)
    ensures
        ({
            let asked = EventView::Received(RequestView::GetInfo);
            &&& after(seq![asked]).1 == ActionView::LoadLastState
            &&& after(seq![asked, EventView::LastState(Ok(last))]).1 == ActionView::Reply(
                ReplyView::GetInfo(last),
            )
            &&& after(seq![asked, EventView::LastState(Err(reason))]).1 == ActionView::Reply(
                ReplyView::GetInfo(None),
            )
        }),
{
    let asked = EventView::Received(RequestView::GetInfo);
    lemma_after_one(asked);
    lemma_after_two(asked, EventView::LastState(Ok(last)));
    lemma_after_two(asked, EventView::LastState(Err(reason)));
}

/// A chain is initialised with the identifier that consensus gives it. Where
/// that fails there is no reply, and the shell ends with the reason.
pub proof fn law_chain_id_is_set(chain_id: Seq<char>, reason: Seq<char>)
    ensures
        ({
            let asked = EventView::Received(RequestView::InitChain { chain_id });
            &&& after(seq![asked]).1 == (ActionView::SetChainId { chain_id })
            &&& after(seq![asked, EventView::ChainIdSet(Ok(()))]).1 == ActionView::Reply(
                ReplyView::InitChain,
            )
            &&& after(seq![asked, EventView::ChainIdSet(Err(reason))]).1 == ActionView::Stop(
                ErrorView::StorageError(reason),
            )
        }),
{
    let asked = EventView::Received(RequestView::InitChain { chain_id });
    lemma_after_one(asked);
    lemma_after_two(asked, EventView::ChainIdSet(Ok(())));
    lemma_after_two(asked, EventView::ChainIdSet(Err(reason)));
}

/// A transaction may enter the mempool if and only if it decodes, whether it is
/// new or checked again. Otherwise the reply says why it does not.
pub proof fn law_mempool_takes_what_decodes(tx: Seq<u8>, tx_type: MempoolTxType)
    ensures
        after(seq![EventView::Received(RequestView::MempoolValidate { tx, tx_type })]).1
            == ActionView::Reply(
            ReplyView::MempoolValidate(
                match TxView::decode(tx) {
                    Ok(_) => Ok(()),
                    Err(text) => Err("Error decoding a transaction from bytes: "@ + text),
                },
            ),
        ),
{
    lemma_after_one(EventView::Received(RequestView::MempoolValidate { tx, tx_type }));
}

/// A block begins, in the storage too, with the hash and the height that
/// consensus gives it, after the gas meter has been reset.
pub proof fn law_block_begins(hash: Seq<u8>, height: u64)
    ensures
        ({
            let asked = EventView::Received(RequestView::BeginBlock { hash, height });
            &&& after(seq![asked]).1 == ActionView::ResetGas
            &&& after(seq![asked, EventView::Done]).1 == (ActionView::BeginBlock { hash, height })
            &&& after(seq![asked, EventView::Done, EventView::Done]).1 == ActionView::Reply(
                ReplyView::BeginBlock,
            )
        }),
{
    let asked = EventView::Received(RequestView::BeginBlock { hash, height });
    lemma_after_one(asked);
    lemma_after_two(asked, EventView::Done);
    lemma_after_three(asked, EventView::Done, EventView::Done);
}

/// The end of a block is acknowledged at once.
pub proof fn law_block_ends(height: u64)
    ensures
        after(seq![EventView::Received(RequestView::EndBlock { height })]).1 == ActionView::Reply(
            ReplyView::EndBlock,
        ),
{
    lemma_after_one(EventView::Received(RequestView::EndBlock { height }));
}

/// A block is committed by moving its writes to the storage, then persisting
/// it. The reply is exactly the root hash that is read then, whatever came of
/// persisting.
pub proof fn law_root_is_told(persisted: Result<(), Seq<char>>, root: Seq<u8>)
    ensures
        ({
            let asked = EventView::Received(RequestView::CommitBlock);
            let kept = EventView::Persisted(persisted);
            &&& after(seq![asked]).1 == ActionView::CommitWrites
            &&& after(seq![asked, EventView::Done]).1 == ActionView::PersistBlock
            &&& after(seq![asked, EventView::Done, kept]).1 == ActionView::ReadRoot
            &&& after(seq![asked, EventView::Done, kept, EventView::Root(root)]).1
                == ActionView::Reply(ReplyView::CommitBlock(root))
        }),
{
    let asked = EventView::Received(RequestView::CommitBlock);
    let kept = EventView::Persisted(persisted);
    lemma_after_one(asked);
    lemma_after_two(asked, EventView::Done);
    lemma_after_three(asked, EventView::Done, kept);
    let persisting = seq![asked, EventView::Done, kept];
    lemma_after(persisting, EventView::Root(root));
    assert(seq![asked, EventView::Done, kept, EventView::Root(root)] =~= persisting.push(
        EventView::Root(root),
    ));
}

/// A query on any path but that of dry runs is passed over.
pub proof fn law_other_queries(path: Seq<char>, data: Seq<u8>, height: u64, prove: bool)
    requires
        path != "dry_run_tx"@,
    ensures
        after(seq![EventView::Received(RequestView::AbciQuery { path, data, height, prove })]) == (
            State::Idle,
            ActionView::Receive,
        ),
{
    lemma_after_one(EventView::Received(RequestView::AbciQuery { path, data, height, prove }));
}

/// Every transaction that is to be applied is taken in, and so is every query
/// for a dry run, of whatever height and with or without a proof.
pub proof fn law_transactions_are_taken_in(tx: Seq<u8>, height: u64, prove: bool)
    ensures
        after(seq![EventView::Received(RequestView::ApplyTx { tx })]).1 == (
        ActionView::ChargeBaseFee { size: tx.len() }),
        after(
            seq![
                EventView::Received(
                    RequestView::AbciQuery { path: "dry_run_tx"@, data: tx, height, prove },
                ),
            ],
        ).1 == (ActionView::ChargeBaseFee { size: tx.len() }),
{
    lemma_after_one(EventView::Received(RequestView::ApplyTx { tx }));
    lemma_after_one(
        EventView::Received(
            RequestView::AbciQuery { path: "dry_run_tx"@, data: tx, height, prove },
        ),
    );
}

/// A transaction is charged for all of its bytes first. Where that fails, the
/// reply says so, and nothing else is done.
pub proof fn law_fee_comes_first(
    request: RequestView,
    mode: Mode,
    bytes: Seq<u8>,
    reason: Seq<char>,
)
    requires
        asks(request, mode, bytes),
    ensures
        after(seq![EventView::Received(request)]).1 == (ActionView::ChargeBaseFee {
            size: bytes.len(),
        }),
        after(seq![EventView::Received(request), EventView::FeeCharged(Err(reason))]).1 == told(
            mode,
            "Gas error: "@ + reason,
        ),
{
    lemma_after_one(EventView::Received(request));
    lemma_after_two(EventView::Received(request), EventView::FeeCharged(Err(reason)));
}

/// A transaction that is charged and decodes is run: its own code, on its own
/// data, and on no data if it has none. One that does not decode is not run, and
/// the reply says why.
pub proof fn law_code_is_run_on_its_data(request: RequestView, mode: Mode, bytes: Seq<u8>)
    requires
        asks(request, mode, bytes),
    ensures
        after(charged(request)).1 == match TxView::decode(bytes) {
            Err(text) => told(mode, "Error decoding a transaction from bytes: "@ + text),
            Ok(tx) => ActionView::RunTx {
                mode,
                code: tx.code,
                data: match tx.data {
                    Some(data) => data,
                    None => Seq::empty(),
                },
            },
        },
{
    lemma_after_two(EventView::Received(request), EventView::FeeCharged(Ok(())));
}

/// Whatever code and data a transaction is sent with are the code that is run
/// and the data that it is run on, byte for byte.
pub proof fn law_what_is_sent_is_run(
    request: RequestView,
    mode: Mode,
    code: Seq<u8>,
    data: Seq<u8>,
)
    requires
        code.len() <= u64::MAX,
        data.len() <= u64::MAX,
    ensures
        asks(request, mode, tx_bytes(TxView { code, data: Some(data) })) ==> after(
            charged(request),
        ).1 == (ActionView::RunTx { mode, code, data }),
        asks(request, mode, tx_bytes(TxView { code, data: None })) ==> after(charged(request)).1
            == (ActionView::RunTx { mode, code, data: Seq::empty() }),
{
    law_tx_round_trip(TxView { code, data: Some(data) });
    law_tx_round_trip(TxView { code, data: None });
    if asks(request, mode, tx_bytes(TxView { code, data: Some(data) })) {
        law_code_is_run_on_its_data(request, mode, tx_bytes(TxView { code, data: Some(data) }));
    }
    if asks(request, mode, tx_bytes(TxView { code, data: None })) {
        law_code_is_run_on_its_data(request, mode, tx_bytes(TxView { code, data: None }));
    }
}

/// Where the run of a transaction fails, the reply says why, and no validity
/// predicate is asked.
pub proof fn law_run_fails(
    request: RequestView,
    mode: Mode,
    bytes: Seq<u8>,
    tx: TxView,
    reason: Seq<char>,
)
    requires
        asks(request, mode, bytes),
        TxView::decode(bytes) == Ok::<_, Seq<char>>(tx),
    ensures
        after(charged(request).push(EventView::TxRan(Err(reason)))).1 == told(
            mode,
            "Transaction runner error: "@ + reason,
        ),
{
    lemma_after_two(EventView::Received(request), EventView::FeeCharged(Ok(())));
    lemma_after(charged(request), EventView::TxRan(Err(reason)));
}

/// The accounts that have accepted are done with, and the others are left.
proof fn lemma_accepted_by(
    request: RequestView,
    mode: Mode,
    bytes: Seq<u8>,
    tx: TxView,
    changed: Seq<ChangedKeyView>,
    codes: Seq<Seq<u8>>,
)
    requires
        asks(request, mode, bytes),
        TxView::decode(bytes) == Ok::<_, Seq<char>>(tx),
        codes.len() <= groups(changed).len(),
    ensures
        after(accepted_by(request, changed, codes)) == check(
            mode,
            tx.input(),
            groups(changed).skip(codes.len() as int),
        ),
    decreases codes.len(),
{
    let all = groups(changed);
    if codes.len() == 0 {
        lemma_after_two(EventView::Received(request), EventView::FeeCharged(Ok(())));
        lemma_after(charged(request), EventView::TxRan(Ok(changed)));
        assert(accepted_by(request, changed, codes) =~= has_run(request, changed));
        assert(all.skip(0) =~= all);
    } else {
        let fewer = codes.drop_last();
        let before = accepted_by(request, changed, fewer);
        let loaded = EventView::PredicateLoaded(Ok(codes.last()));
        lemma_accepted_by(request, mode, bytes, tx, changed, fewer);
        lemma_after(before, loaded);
        lemma_after(before.push(loaded), EventView::VpRan(Ok(true)));
        assert(accepted_by(request, changed, codes) =~= before.push(loaded).push(
            EventView::VpRan(Ok(true)),
        ));
        assert(all.skip(fewer.len() as int).skip(1) =~= all.skip(codes.len() as int));
    }
}

/// The accounts that a transaction has changed keys of are asked one after the
/// other, as long as they accept. The next one is asked by loading its validity
/// predicate, and by running that on the data of the transaction and on the keys
/// of the account. Where the one or the other fails, so does the transaction.
/// Where the account does not accept, no other is asked, and the writes are
/// dropped. In a dry run there is nothing to drop.
pub proof fn law_next_account_is_asked(
    request: RequestView,
    mode: Mode,
    bytes: Seq<u8>,
    tx: TxView,
    changed: Seq<ChangedKeyView>,
    codes: Seq<Seq<u8>>,
    predicate: Seq<u8>,
    reason: Seq<char>,
)
    requires
        asks(request, mode, bytes),
        TxView::decode(bytes) == Ok::<_, Seq<char>>(tx),
        codes.len() < groups(changed).len(),
    ensures
        ({
            let before = accepted_by(request, changed, codes);
            let addr = groups(changed)[codes.len() as int].addr;
            let loaded = before.push(EventView::PredicateLoaded(Ok(predicate)));
            &&& after(before).1 == (ActionView::LoadPredicate { addr })
            &&& after(before.push(EventView::PredicateLoaded(Err(reason)))).1 == told(
                mode,
                "Storage error: "@ + reason,
            )
            &&& after(loaded).1 == (ActionView::RunVp {
                mode,
                predicate,
                data: match tx.data {
                    Some(data) => data,
                    None => Seq::empty(),
                },
                addr,
                keys: groups(changed)[codes.len() as int].keys,
            })
            &&& after(loaded.push(EventView::VpRan(Err(reason)))).1 == told(
                mode,
                "Validity predicate for "@ + addr + " runner error: "@ + reason,
            )
            &&& after(loaded.push(EventView::VpRan(Ok(false)))).1 == match mode {
                Mode::Apply => ActionView::DropTx,
                Mode::DryRun => ActionView::FinalizeGas,
            }
        }),
{
    let before = accepted_by(request, changed, codes);
    let loaded = before.push(EventView::PredicateLoaded(Ok(predicate)));
    lemma_accepted_by(request, mode, bytes, tx, changed, codes);
    lemma_after(before, EventView::PredicateLoaded(Err(reason)));
    lemma_after(before, EventView::PredicateLoaded(Ok(predicate)));
    lemma_after(loaded, EventView::VpRan(Err(reason)));
    lemma_after(loaded, EventView::VpRan(Ok(false)));
}

/// Once all accounts that a transaction has changed keys of have accepted it,
/// and at once if there are none, its writes are kept. The gas account is closed
/// then, and the reply to an application is exactly the gas used. A dry run
/// keeps nothing, and reports success with exactly the gas used. Where the gas
/// account cannot be closed, an application fails with the reason, and a dry run
/// reports an overflow.
pub proof fn law_accepted_by_all(
    request: RequestView,
    mode: Mode,
    bytes: Seq<u8>,
    tx: TxView,
    changed: Seq<ChangedKeyView>,
    codes: Seq<Seq<u8>>,
    used: u64,
    reason: Seq<char>,
)
    requires
        asks(request, mode, bytes),
        TxView::decode(bytes) == Ok::<_, Seq<char>>(tx),
        codes.len() == groups(changed).len(),
    ensures
        ({
            let accepted = accepted_by(request, changed, codes);
            match mode {
                Mode::Apply => {
                    let kept = accepted.push(EventView::Done);
                    &&& after(accepted).1 == ActionView::CommitTx
                    &&& after(kept).1 == ActionView::FinalizeGas
                    &&& after(kept.push(EventView::GasFinalized(Ok(used)))).1 == ActionView::Reply(
                        ReplyView::ApplyTx(Ok(used)),
                    )
                    &&& after(kept.push(EventView::GasFinalized(Err(reason)))).1
                        == ActionView::Reply(ReplyView::ApplyTx(Err("Gas error: "@ + reason)))
                },
                Mode::DryRun => {
                    &&& after(accepted).1 == ActionView::FinalizeGas
                    &&& after(accepted.push(EventView::GasFinalized(Ok(used)))).1
                        == ActionView::Reply(
                        ReplyView::DryRunTx(
                            Ok("Transaction success, gas cost: "@ + decimal_text(used as nat)),
                        ),
                    )
                    &&& after(accepted.push(EventView::GasFinalized(Err(reason)))).1
                        == ActionView::Reply(
                        ReplyView::DryRunTx(Ok("Transaction failed: gas overflow."@)),
                    )
                },
            }
        }),
{
    let accepted = accepted_by(request, changed, codes);
    let kept = accepted.push(EventView::Done);
    lemma_accepted_by(request, mode, bytes, tx, changed, codes);
    lemma_after(accepted, EventView::Done);
    lemma_after(kept, EventView::GasFinalized(Ok(used)));
    lemma_after(kept, EventView::GasFinalized(Err(reason)));
    lemma_after(accepted, EventView::GasFinalized(Ok(used)));
    lemma_after(accepted, EventView::GasFinalized(Err(reason)));
}

/// Once an account has not accepted a transaction, and its writes have been
/// dropped, the gas account is closed all the same, and the reply to an
/// application is exactly the gas used. A dry run reports that the transaction
/// was not accepted. Where the gas account cannot be closed, it goes as with a
/// transaction that was accepted.
pub proof fn law_not_accepted(
    request: RequestView,
    mode: Mode,
    bytes: Seq<u8>,
    tx: TxView,
    changed: Seq<ChangedKeyView>,
    codes: Seq<Seq<u8>>,
    predicate: Seq<u8>,
    used: u64,
    reason: Seq<char>,
)
    requires
        asks(request, mode, bytes),
        TxView::decode(bytes) == Ok::<_, Seq<char>>(tx),
        codes.len() < groups(changed).len(),
    ensures
        ({
            let refused = accepted_by(request, changed, codes).push(
                EventView::PredicateLoaded(Ok(predicate)),
            ).push(EventView::VpRan(Ok(false)));
            match mode {
                Mode::Apply => {
                    let dropped = refused.push(EventView::Done);
                    &&& after(dropped).1 == ActionView::FinalizeGas
                    &&& after(dropped.push(EventView::GasFinalized(Ok(used)))).1
                        == ActionView::Reply(ReplyView::ApplyTx(Ok(used)))
                    &&& after(dropped.push(EventView::GasFinalized(Err(reason)))).1
                        == ActionView::Reply(ReplyView::ApplyTx(Err("Gas error: "@ + reason)))
                },
                Mode::DryRun => {
                    &&& after(refused.push(EventView::GasFinalized(Ok(used)))).1
                        == ActionView::Reply(
                        ReplyView::DryRunTx(Ok("Transaction failed: VPs are not satisfied."@)),
                    )
                    &&& after(refused.push(EventView::GasFinalized(Err(reason)))).1
                        == ActionView::Reply(
                        ReplyView::DryRunTx(Ok("Transaction failed: gas overflow."@)),
                    )
                },
            }
        }),
{
    let before = accepted_by(request, changed, codes);
    let loaded = before.push(EventView::PredicateLoaded(Ok(predicate)));
    let refused = loaded.push(EventView::VpRan(Ok(false)));
    let dropped = refused.push(EventView::Done);
    lemma_accepted_by(request, mode, bytes, tx, changed, codes);
    lemma_after(before, EventView::PredicateLoaded(Ok(predicate)));
    lemma_after(loaded, EventView::VpRan(Ok(false)));
    lemma_after(refused, EventView::Done);
    lemma_after(dropped, EventView::GasFinalized(Ok(used)));
    lemma_after(dropped, EventView::GasFinalized(Err(reason)));
    lemma_after(refused, EventView::GasFinalized(Ok(used)));
    lemma_after(refused, EventView::GasFinalized(Err(reason)));
}

/// A shell that has been started, and has opened its storage, gives two
/// accounts their balances of two tokens each, numbers of 64 bits with the
/// lowest byte first, and then waits for requests.
pub proof fn law_started()
    ensures
        ({
            let first = State::Opening.next(EventView::Done);
            let second = first.0.next(EventView::Done);
            let third = second.0.next(EventView::Done);
            let fourth = third.0.next(EventView::Done);
            let many = seq![0x10u8, 0x27, 0, 0, 0, 0, 0, 0];
            let few = seq![0x64u8, 0, 0, 0, 0, 0, 0, 0];
            &&& first.1 == (ActionView::WriteStorage { key: "@va/balance/eth"@, value: many })
            &&& second.1 == (ActionView::WriteStorage { key: "@va/balance/xtz"@, value: many })
            &&& third.1 == (ActionView::WriteStorage { key: "@ba/balance/eth"@, value: few })
            &&& fourth.1 == (ActionView::WriteStorage { key: "@ba/balance/xtz"@, value: few })
            &&& fourth.0.next(EventView::Done) == (State::Idle, ActionView::Receive)
            &&& State::Opening.awaits(EventView::Done)
            &&& first.0.awaits(EventView::Done)
            &&& second.0.awaits(EventView::Done)
            &&& third.0.awaits(EventView::Done)
            &&& fourth.0.awaits(EventView::Done)
        }),
{
}

} // verus!

//! Laws on the models that the contracts speak of: they leave out nothing of
//! what passes between the shell and the node.

use vstd::prelude::*;

use crate::error::{Error, ErrorView};
use crate::keys::{changed_views, group_views, ChangedKey, KeyGroup};
use crate::protocol::{
    Action, ActionView, Event, EventView, MempoolTxType, MerkleRoot, Mode, Reply, ReplyView,
    Request, RequestKind, RequestView,
};
use crate::tx::Tx;

verus! {

/// Bytes that a request carries are in its model, one by one, and so is all
/// else that it carries.
pub proof fn law_request_models(
    text: String,
    bytes: Vec<u8>,
    height: u64,
    prove: bool,
    tx_type: MempoolTxType,
)
    ensures
        Request::GetInfo@ == RequestView::GetInfo,
        (Request::InitChain { chain_id: text })@ == (RequestView::InitChain { chain_id: text@ }),
        (Request::MempoolValidate { tx: bytes, tx_type })@ == (RequestView::MempoolValidate {
            tx: bytes@,
            tx_type,
        }),
        (Request::BeginBlock { hash: bytes, height })@ == (RequestView::BeginBlock {
            hash: bytes@,
            height,
        }),
        (Request::ApplyTx { tx: bytes })@ == (RequestView::ApplyTx { tx: bytes@ }),
        (Request::EndBlock { height })@ == (RequestView::EndBlock { height }),
        Request::CommitBlock@ == RequestView::CommitBlock,
        (Request::AbciQuery { path: text, data: bytes, height, prove })@ == (
        RequestView::AbciQuery { path: text@, data: bytes@, height, prove }),
{
}

/// What a reply carries is in its model, and its kind is that of the request
/// that it replies to.
pub proof fn law_reply_models(root: Vec<u8>, height: u64, used: u64, text: String)
    ensures
        Reply::GetInfo(Some((MerkleRoot(root), height)))@ == ReplyView::GetInfo(
            Some((root@, height)),
        ),
        Reply::GetInfo(None)@ == ReplyView::GetInfo(None),
        Reply::InitChain@ == ReplyView::InitChain,
        Reply::MempoolValidate(Ok(()))@ == ReplyView::MempoolValidate(Ok(())),
        Reply::MempoolValidate(Err(text))@ == ReplyView::MempoolValidate(Err(text@)),
        Reply::BeginBlock@ == ReplyView::BeginBlock,
        Reply::ApplyTx(Ok(used))@ == ReplyView::ApplyTx(Ok(used)),
        Reply::ApplyTx(Err(text))@ == ReplyView::ApplyTx(Err(text@)),
        Reply::EndBlock@ == ReplyView::EndBlock,
        Reply::CommitBlock(MerkleRoot(root))@ == ReplyView::CommitBlock(root@),
        Reply::DryRunTx(Ok(text))@ == ReplyView::DryRunTx(Ok(text@)),
        Reply::DryRunTx(Err(text))@ == ReplyView::DryRunTx(Err(text@)),
{
}

/// The kind of a reply is that of the request that it replies to.
pub proof fn law_reply_kinds(reply: ReplyView)
    ensures
        reply.kind() == RequestKind::GetInfo <==> reply is GetInfo,
        reply.kind() == RequestKind::InitChain <==> reply is InitChain,
        reply.kind() == RequestKind::MempoolValidate <==> reply is MempoolValidate,
        reply.kind() == RequestKind::BeginBlock <==> reply is BeginBlock,
        reply.kind() == RequestKind::ApplyTx <==> reply is ApplyTx,
        reply.kind() == RequestKind::EndBlock <==> reply is EndBlock,
        reply.kind() == RequestKind::CommitBlock <==> reply is CommitBlock,
        reply.kind() == RequestKind::DryRunTx <==> reply is DryRunTx,
{
}

/// An error that the shell ends with carries the text that the node reports.
pub proof fn law_error_models(addr: String, text: String)
    ensures
        (Error::Temporary { error: text })@ == (ErrorView::Temporary { error: text@ }),
        Error::RemoveDB(text)@ == ErrorView::RemoveDB(text@),
        Error::StorageError(text)@ == ErrorView::StorageError(text@),
        Error::AbciChannelRecvError(text)@ == ErrorView::AbciChannelRecvError(text@),
        Error::AbciChannelSendError(text)@ == ErrorView::AbciChannelSendError(text@),
        Error::TxDecodingError(text)@ == ErrorView::TxDecodingError(text@),
        Error::TxRunnerError(text)@ == ErrorView::TxRunnerError(text@),
        (Error::VpRunnerError { addr, error: text })@ == (ErrorView::VpRunnerError {
            addr: addr@,
            error: text@,
        }),
        Error::GasError(text)@ == ErrorView::GasError(text@),
{
}

/// What an action is to be done with is in its model.
pub proof fn law_action_models(
    mode: Mode,
    text: String,
    bytes: Vec<u8>,
    data: Vec<u8>,
    size: usize,
    height: u64,
    reply: Reply,
    error: Error,
)
    ensures
        (Action::OpenStorage { path: text })@ == (ActionView::OpenStorage { path: text@ }),
        (Action::WriteStorage { key: text, value: bytes })@ == (ActionView::WriteStorage {
            key: text@,
            value: bytes@,
        }),
        Action::Receive@ == ActionView::Receive,
        Action::LoadLastState@ == ActionView::LoadLastState,
        (Action::SetChainId { chain_id: text })@ == (ActionView::SetChainId { chain_id: text@ }),
        Action::ResetGas@ == ActionView::ResetGas,
        (Action::BeginBlock { hash: bytes, height })@ == (ActionView::BeginBlock {
            hash: bytes@,
            height,
        }),
        (Action::ChargeBaseFee { size })@ == (ActionView::ChargeBaseFee { size: size as nat }),
        (Action::RunTx { mode, code: bytes, data })@ == (ActionView::RunTx {
            mode,
            code: bytes@,
            data: data@,
        }),
        (Action::LoadPredicate { addr: text })@ == (ActionView::LoadPredicate { addr: text@ }),
        Action::CommitTx@ == ActionView::CommitTx,
        Action::DropTx@ == ActionView::DropTx,
        Action::FinalizeGas@ == ActionView::FinalizeGas,
        Action::CommitWrites@ == ActionView::CommitWrites,
        Action::PersistBlock@ == ActionView::PersistBlock,
        Action::ReadRoot@ == ActionView::ReadRoot,
        Action::Reply(reply)@ == ActionView::Reply(reply@),
        Action::Stop(error)@ == ActionView::Stop(error@),
{
}

/// The run of a validity predicate is modelled with its code, the data, the
/// account, and as many keys as it is given, in their order.
pub proof fn law_vp_run_model(
    mode: Mode,
    predicate: Vec<u8>,
    data: Vec<u8>,
    addr: String,
    keys: Vec<String>,
)
    ensures
        (Action::RunVp { mode, predicate, data, addr, keys })@ matches ActionView::RunVp {
            mode: m,
            predicate: p,
            data: d,
            addr: a,
            keys: k,
        } && m == mode && p == predicate@ && d == data@ && a == addr@ && k.len() == keys@.len()
            && forall|i: int| 0 <= i < keys@.len() ==> #[trigger] k[i] == keys@[i]@,
{
}

/// What an event tells is in its model.
pub proof fn law_event_models(
    request: Request,
    text: String,
    root: Vec<u8>,
    height: u64,
    accept: bool,
    used: u64,
)
    ensures
        Event::Done@ == EventView::Done,
        Event::Received(request)@ == EventView::Received(request@),
        Event::Closed(text)@ == EventView::Closed(text@),
        Event::LastState(Ok(Some((MerkleRoot(root), height))))@ == EventView::LastState(
            Ok(Some((root@, height))),
        ),
        Event::LastState(Ok(None))@ == EventView::LastState(Ok(None)),
        Event::LastState(Err(text))@ == EventView::LastState(Err(text@)),
        Event::ChainIdSet(Ok(()))@ == EventView::ChainIdSet(Ok(())),
        Event::ChainIdSet(Err(text))@ == EventView::ChainIdSet(Err(text@)),
        Event::FeeCharged(Ok(()))@ == EventView::FeeCharged(Ok(())),
        Event::FeeCharged(Err(text))@ == EventView::FeeCharged(Err(text@)),
        Event::TxRan(Err(text))@ == EventView::TxRan(Err(text@)),
        Event::PredicateLoaded(Ok(root))@ == EventView::PredicateLoaded(Ok(root@)),
        Event::PredicateLoaded(Err(text))@ == EventView::PredicateLoaded(Err(text@)),
        Event::VpRan(Ok(accept))@ == EventView::VpRan(Ok(accept)),
        Event::VpRan(Err(text))@ == EventView::VpRan(Err(text@)),
        Event::GasFinalized(Ok(used))@ == EventView::GasFinalized(Ok(used)),
        Event::GasFinalized(Err(text))@ == EventView::GasFinalized(Err(text@)),
        Event::Persisted(Ok(()))@ == EventView::Persisted(Ok(())),
        Event::Persisted(Err(text))@ == EventView::Persisted(Err(text@)),
        Event::Root(root)@ == EventView::Root(root@),
        Event::Sent(Ok(()))@ == EventView::Sent(Ok(())),
        Event::Sent(Err(text))@ == EventView::Sent(Err(text@)),
{
}

/// The keys that a transaction has changed are modelled one by one, each with
/// its text and all of its addresses, in their order.
pub proof fn law_changed_keys_model(changed: Vec<ChangedKey>)
    ensures
        Event::TxRan(Ok(changed))@ matches EventView::TxRan(Ok(views)) && views.len()
            == changed@.len() && forall|i: int|
            0 <= i < changed@.len() ==> {
                &&& (#[trigger] views[i]).key == changed@[i].key@
                &&& views[i].addresses.len() == changed@[i].addresses@.len()
                &&& forall|j: int|
                    0 <= j < changed@[i].addresses@.len() ==> #[trigger] views[i].addresses[j]
                        == changed@[i].addresses@[j]@
            },
{
}

/// A group is modelled with its address and all of its keys, in their order.
pub proof fn law_group_model(group: KeyGroup)
    ensures
        group@.addr == group.addr@,
        group@.keys.len() == group.keys@.len(),
        forall|i: int| 0 <= i < group.keys@.len() ==> #[trigger] group@.keys[i] == group.keys@[i]@,
{
}

/// Groups and changed keys are modelled one by one, in their order.
pub proof fn law_list_models(grouped: Seq<KeyGroup>, changed: Seq<ChangedKey>)
    ensures
        group_views(grouped).len() == grouped.len(),
        forall|i: int| 0 <= i < grouped.len() ==> #[trigger] group_views(grouped)[i] == grouped[i]@,
        changed_views(changed).len() == changed.len(),
        forall|i: int|
            0 <= i < changed.len() ==> #[trigger] changed_views(changed)[i] == changed[i]@,
{
}

/// A transaction is modelled with its code and its data, if any.
pub proof fn law_tx_model(code: Vec<u8>, data: Vec<u8>)
    ensures
        (Tx { code, data: Some(data) })@.code == code@,
        (Tx { code, data: Some(data) })@.data == Some(data@),
        (Tx { code, data: None })@.code == code@,
        (Tx { code, data: None })@.data is None,
{
}

} // verus!

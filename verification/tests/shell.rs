//! The shell at work.

use anoma_shell::error::Error;
use anoma_shell::keys::{group_by_address, ChangedKey, KeyGroup};
use anoma_shell::protocol::{
    Action, Event, MempoolTxType, MerkleRoot, Mode, Reply, Request, RequestKind,
};
use anoma_shell::shell::{dry_run_report, Shell};
use anoma_shell::startup::{address_error, listen_address, reset, Removal};
use anoma_shell::text::{decimal, join};

const CODE: u8 = 7;
const DATA: u8 = 9;

fn text(s: &str) -> String {
    s.to_string()
}

/// Bytes of a transaction of one byte of code and one of data.
fn tx_bytes() -> Vec<u8> {
    vec![0x0a, 1, CODE, 0x12, 1, DATA]
}

fn changed(key: &str, addresses: &[&str]) -> ChangedKey {
    ChangedKey { key: text(key), addresses: addresses.iter().map(|a| text(a)).collect() }
}

fn group(addr: &str, keys: &[&str]) -> KeyGroup {
    KeyGroup { addr: text(addr), keys: keys.iter().map(|k| text(k)).collect() }
}

/// A shell that waits for requests.
fn idle() -> Shell {
    let (mut shell, _) = Shell::new(text("db"));
    for _ in 0..5 {
        shell.run(Event::Done);
    }
    shell
}

fn request(mode: Mode, bytes: Vec<u8>) -> Event {
    match mode {
        Mode::Apply => Event::Received(Request::ApplyTx { tx: bytes }),
        Mode::DryRun => Event::Received(Request::AbciQuery {
            path: text("dry_run_tx"),
            data: bytes,
            height: 3,
            prove: true,
        }),
    }
}

/// A shell whose transaction has changed a key of each of two accounts.
fn checking(mode: Mode) -> (Shell, Action) {
    let mut shell = idle();
    assert_eq!(shell.run(request(mode, tx_bytes())), Action::ChargeBaseFee { size: 6 });
    assert_eq!(
        shell.run(Event::FeeCharged(Ok(()))),
        Action::RunTx { mode, code: vec![CODE], data: vec![DATA] }
    );
    let keys = vec![changed("k1", &["va"]), changed("k2", &["ba", "va"])];
    let action = shell.run(Event::TxRan(Ok(keys)));
    (shell, action)
}

fn predicate_loaded(shell: &mut Shell) -> Action {
    shell.run(Event::PredicateLoaded(Ok(vec![5])))
}

fn error_reply(mode: Mode, error: &str) -> Action {
    match mode {
        Mode::Apply => Action::Reply(Reply::ApplyTx(Err(text(error)))),
        Mode::DryRun => Action::Reply(Reply::DryRunTx(Err(text(error)))),
    }
}

#[test]
fn a_new_shell_writes_the_initial_balances() {
    let (mut shell, action) = Shell::new(text("db"));
    assert_eq!(action, Action::OpenStorage { path: text("db") });
    let expected: [(&str, u64); 4] = [
        ("@va/balance/eth", 10_000),
        ("@va/balance/xtz", 10_000),
        ("@ba/balance/eth", 100),
        ("@ba/balance/xtz", 100),
    ];
    for (key, amount) in expected {
        assert_eq!(
            shell.run(Event::Done),
            Action::WriteStorage { key: text(key), value: amount.to_le_bytes().to_vec() }
        );
    }
    assert_eq!(shell.run(Event::Done), Action::Receive);
}

#[test]
fn an_accepted_transaction_is_applied() {
    let (mut shell, action) = checking(Mode::Apply);
    assert_eq!(action, Action::LoadPredicate { addr: text("va") });
    assert_eq!(
        predicate_loaded(&mut shell),
        Action::RunVp {
            mode: Mode::Apply,
            predicate: vec![5],
            data: vec![DATA],
            addr: text("va"),
            keys: vec![text("k1"), text("k2")],
        }
    );
    assert_eq!(shell.run(Event::VpRan(Ok(true))), Action::LoadPredicate { addr: text("ba") });
    assert_eq!(
        predicate_loaded(&mut shell),
        Action::RunVp {
            mode: Mode::Apply,
            predicate: vec![5],
            data: vec![DATA],
            addr: text("ba"),
            keys: vec![text("k2")],
        }
    );
    assert_eq!(shell.run(Event::VpRan(Ok(true))), Action::CommitTx);
    assert_eq!(shell.run(Event::Done), Action::FinalizeGas);
    assert_eq!(
        shell.run(Event::GasFinalized(Ok(1234))),
        Action::Reply(Reply::ApplyTx(Ok(1234)))
    );
    assert_eq!(shell.run(Event::Sent(Ok(()))), Action::Receive);
}

#[test]
fn a_rejected_transaction_is_dropped_and_no_other_account_is_asked() {
    let (mut shell, _) = checking(Mode::Apply);
    predicate_loaded(&mut shell);
    assert_eq!(shell.run(Event::VpRan(Ok(false))), Action::DropTx);
    assert_eq!(shell.run(Event::Done), Action::FinalizeGas);
    assert_eq!(shell.run(Event::GasFinalized(Ok(8))), Action::Reply(Reply::ApplyTx(Ok(8))));
}

#[test]
fn a_transaction_that_changes_nothing_is_accepted() {
    let mut shell = idle();
    shell.run(request(Mode::Apply, vec![]));
    assert_eq!(
        shell.run(Event::FeeCharged(Ok(()))),
        Action::RunTx { mode: Mode::Apply, code: vec![], data: vec![] }
    );
    assert_eq!(shell.run(Event::TxRan(Ok(vec![]))), Action::CommitTx);
}

#[test]
fn a_gas_error_at_the_end_is_told_after_the_writes_are_settled() {
    let (mut shell, _) = checking(Mode::Apply);
    predicate_loaded(&mut shell);
    shell.run(Event::VpRan(Ok(false)));
    shell.run(Event::Done);
    assert_eq!(
        shell.run(Event::GasFinalized(Err(text("full")))),
        error_reply(Mode::Apply, "Gas error: full")
    );
}

#[test]
fn failures_are_replied_to_at_once() {
    for mode in [Mode::Apply, Mode::DryRun] {
        let mut shell = idle();
        shell.run(request(mode, tx_bytes()));
        assert_eq!(
            shell.run(Event::FeeCharged(Err(text("full")))),
            error_reply(mode, "Gas error: full")
        );

        let mut shell = idle();
        assert_eq!(
            shell.run(request(mode, vec![0x0a, 2, 7])),
            Action::ChargeBaseFee { size: 3 }
        );
        assert_eq!(
            shell.run(Event::FeeCharged(Ok(()))),
            error_reply(
                mode,
                "Error decoding a transaction from bytes: failed to decode Protobuf message: Tx.code: buffer underflow"
            )
        );

        let mut shell = idle();
        shell.run(request(mode, tx_bytes()));
        shell.run(Event::FeeCharged(Ok(())));
        assert_eq!(
            shell.run(Event::TxRan(Err(text("trap")))),
            error_reply(mode, "Transaction runner error: trap")
        );

        let (mut shell, _) = checking(mode);
        assert_eq!(
            shell.run(Event::PredicateLoaded(Err(text("lost")))),
            error_reply(mode, "Storage error: lost")
        );

        let (mut shell, _) = checking(mode);
        predicate_loaded(&mut shell);
        assert_eq!(
            shell.run(Event::VpRan(Err(text("trap")))),
            error_reply(mode, "Validity predicate for va runner error: trap")
        );
        assert_eq!(shell.run(Event::Sent(Ok(()))), Action::Receive);
    }
}

#[test]
fn a_dry_run_keeps_no_writes() {
    let (mut shell, action) = checking(Mode::DryRun);
    assert_eq!(action, Action::LoadPredicate { addr: text("va") });
    predicate_loaded(&mut shell);
    shell.run(Event::VpRan(Ok(true)));
    predicate_loaded(&mut shell);
    assert_eq!(shell.run(Event::VpRan(Ok(true))), Action::FinalizeGas);
    assert_eq!(
        shell.run(Event::GasFinalized(Ok(1234))),
        Action::Reply(Reply::DryRunTx(Ok(text("Transaction success, gas cost: 1234"))))
    );
}

#[test]
fn a_rejected_dry_run_is_reported() {
    let (mut shell, _) = checking(Mode::DryRun);
    predicate_loaded(&mut shell);
    assert_eq!(shell.run(Event::VpRan(Ok(false))), Action::FinalizeGas);
    assert_eq!(
        shell.run(Event::GasFinalized(Ok(5))),
        Action::Reply(Reply::DryRunTx(Ok(text("Transaction failed: VPs are not satisfied."))))
    );
}

#[test]
fn dry_run_reports() {
    assert_eq!(dry_run_report(true, Ok(0)), "Transaction success, gas cost: 0");
    assert_eq!(
        dry_run_report(true, Ok(u64::MAX)),
        "Transaction success, gas cost: 18446744073709551615"
    );
    assert_eq!(dry_run_report(false, Ok(0)), "Transaction failed: VPs are not satisfied.");
    assert_eq!(dry_run_report(true, Err(text("x"))), "Transaction failed: gas overflow.");
    assert_eq!(dry_run_report(false, Err(text("x"))), "Transaction failed: gas overflow.");
}

#[test]
fn a_query_on_another_path_gets_no_reply() {
    let mut shell = idle();
    let query = Request::AbciQuery {
        path: text("dry_run"),
        data: tx_bytes(),
        height: 0,
        prove: false,
    };
    assert_eq!(shell.run(Event::Received(query)), Action::Receive);
}

/// Answers an action as a node does on which all goes well. The transaction
/// that it runs has changed a key of two accounts, which both accept.
fn answer(action: &Action) -> Event {
    match action {
        Action::LoadLastState => Event::LastState(Ok(Some((MerkleRoot(vec![1]), 4)))),
        Action::SetChainId { .. } => Event::ChainIdSet(Ok(())),
        Action::ResetGas
        | Action::BeginBlock { .. }
        | Action::CommitTx
        | Action::DropTx
        | Action::CommitWrites => Event::Done,
        Action::ChargeBaseFee { .. } => Event::FeeCharged(Ok(())),
        Action::RunTx { .. } => Event::TxRan(Ok(vec![changed("k", &["va", "ba"])])),
        Action::LoadPredicate { .. } => Event::PredicateLoaded(Ok(vec![5])),
        Action::RunVp { .. } => Event::VpRan(Ok(true)),
        Action::FinalizeGas => Event::GasFinalized(Ok(77)),
        Action::PersistBlock => Event::Persisted(Ok(())),
        Action::ReadRoot => Event::Root(vec![2]),
        Action::Reply(_) => Event::Sent(Ok(())),
        _ => panic!("not an action of a request: {:?}", action),
    }
}

/// Serves a request: the actions that it takes until the shell waits again.
fn serve(shell: &mut Shell, request: Event) -> Vec<Action> {
    let mut actions = Vec::new();
    let mut action = shell.run(request);
    while action != Action::Receive {
        let event = answer(&action);
        assert!(shell.awaits(&event));
        actions.push(action);
        action = shell.run(event);
    }
    actions
}

#[test]
fn a_session_is_replied_to_in_order() {
    let unknown = Request::AbciQuery { path: text(""), data: vec![], height: 0, prove: false };
    let requests = vec![
        Event::Received(Request::GetInfo),
        Event::Received(Request::InitChain { chain_id: text("c") }),
        Event::Received(Request::MempoolValidate {
            tx: tx_bytes(),
            tx_type: MempoolTxType::NewTransaction,
        }),
        Event::Received(unknown),
        request(Mode::DryRun, tx_bytes()),
        Event::Received(Request::BeginBlock { hash: vec![3], height: 5 }),
        request(Mode::Apply, tx_bytes()),
        request(Mode::Apply, vec![0x0a]),
        Event::Received(Request::EndBlock { height: 5 }),
        Event::Received(Request::CommitBlock),
    ];
    let mut shell = idle();
    let mut replies = Vec::new();
    for request in requests {
        for action in serve(&mut shell, request) {
            if let Action::Reply(reply) = action {
                replies.push(reply);
            }
        }
    }
    let undecoded = text(
        "Error decoding a transaction from bytes: failed to decode Protobuf message: \
         Tx.code: invalid varint",
    );
    assert_eq!(
        replies,
        vec![
            Reply::GetInfo(Some((MerkleRoot(vec![1]), 4))),
            Reply::InitChain,
            Reply::MempoolValidate(Ok(())),
            Reply::DryRunTx(Ok(text("Transaction success, gas cost: 77"))),
            Reply::BeginBlock,
            Reply::ApplyTx(Ok(77)),
            Reply::ApplyTx(Err(undecoded)),
            Reply::EndBlock,
            Reply::CommitBlock(MerkleRoot(vec![2])),
        ]
    );
}

#[test]
fn a_dry_run_foretells_the_application() {
    let mut shell = idle();
    let dry = serve(&mut shell, request(Mode::DryRun, tx_bytes()));
    let applied = serve(&mut shell, request(Mode::Apply, tx_bytes()));
    assert_eq!(
        dry.last(),
        Some(&Action::Reply(Reply::DryRunTx(Ok(text("Transaction success, gas cost: 77")))))
    );
    assert_eq!(applied.last(), Some(&Action::Reply(Reply::ApplyTx(Ok(77)))));
}

#[test]
fn a_transaction_takes_its_own_actions_only() {
    let mut shell = idle();
    for mode in [Mode::Apply, Mode::DryRun] {
        let vp = |addr: &str| Action::RunVp {
            mode,
            predicate: vec![5],
            data: vec![DATA],
            addr: text(addr),
            keys: vec![text("k")],
        };
        let mut expected = vec![
            Action::ChargeBaseFee { size: 6 },
            Action::RunTx { mode, code: vec![CODE], data: vec![DATA] },
            Action::LoadPredicate { addr: text("va") },
            vp("va"),
            Action::LoadPredicate { addr: text("ba") },
            vp("ba"),
        ];
        if mode == Mode::Apply {
            expected.push(Action::CommitTx);
        }
        expected.push(Action::FinalizeGas);
        let mut actions = serve(&mut shell, request(mode, tx_bytes()));
        assert!(matches!(actions.pop(), Some(Action::Reply(_))));
        assert_eq!(actions, expected);
    }
}

#[test]
fn the_mempool_is_answered_at_once() {
    for tx_type in [MempoolTxType::NewTransaction, MempoolTxType::RecheckTransaction] {
        let mut shell = idle();
        let good = Request::MempoolValidate { tx: tx_bytes(), tx_type: tx_type.clone() };
        assert_eq!(
            shell.run(Event::Received(good)),
            Action::Reply(Reply::MempoolValidate(Ok(())))
        );
        shell.run(Event::Sent(Ok(())));
        let bad = Request::MempoolValidate { tx: vec![0xff], tx_type };
        assert_eq!(
            shell.run(Event::Received(bad)),
            Action::Reply(Reply::MempoolValidate(Err(text(
                "Error decoding a transaction from bytes: failed to decode Protobuf message: invalid varint"
            ))))
        );
    }
}

#[test]
fn a_block_begins_with_a_fresh_gas_meter() {
    let mut shell = idle();
    let begin = Request::BeginBlock { hash: vec![1, 2], height: 9 };
    assert_eq!(shell.run(Event::Received(begin)), Action::ResetGas);
    assert_eq!(
        shell.run(Event::Done),
        Action::BeginBlock { hash: vec![1, 2], height: 9 }
    );
    assert_eq!(shell.run(Event::Done), Action::Reply(Reply::BeginBlock));
}

#[test]
fn the_end_of_a_block_is_acknowledged() {
    let mut shell = idle();
    shell.end_block(4);
    assert_eq!(
        shell.run(Event::Received(Request::EndBlock { height: 4 })),
        Action::Reply(Reply::EndBlock)
    );
}

#[test]
fn a_commit_replies_with_the_root_whatever_came_of_persisting() {
    for persisted in [Ok(()), Err(text("disk"))] {
        let mut shell = idle();
        assert_eq!(
            shell.run(Event::Received(Request::CommitBlock)),
            Action::CommitWrites
        );
        assert_eq!(shell.run(Event::Done), Action::PersistBlock);
        assert_eq!(shell.run(Event::Persisted(persisted)), Action::ReadRoot);
        assert_eq!(
            shell.run(Event::Root(vec![3, 4])),
            Action::Reply(Reply::CommitBlock(MerkleRoot(vec![3, 4])))
        );
    }
}

#[test]
fn the_last_state_is_told_if_it_can_be_loaded() {
    let mut shell = idle();
    assert_eq!(shell.run(Event::Received(Request::GetInfo)), Action::LoadLastState);
    assert_eq!(
        shell.run(Event::LastState(Ok(Some((MerkleRoot(vec![3]), 12))))),
        Action::Reply(Reply::GetInfo(Some((MerkleRoot(vec![3]), 12))))
    );
    for loaded in [Ok(None), Err(text("disk"))] {
        let mut shell = idle();
        shell.run(Event::Received(Request::GetInfo));
        assert_eq!(
            shell.run(Event::LastState(loaded)),
            Action::Reply(Reply::GetInfo(None))
        );
    }
    assert_eq!(Shell::loaded_state(Err(text("disk"))), None);
}

#[test]
fn a_chain_is_initialised_or_the_shell_ends() {
    let mut shell = idle();
    let init = Request::InitChain { chain_id: text("chain") };
    assert_eq!(
        shell.run(Event::Received(init)),
        Action::SetChainId { chain_id: text("chain") }
    );
    assert_eq!(shell.run(Event::ChainIdSet(Ok(()))), Action::Reply(Reply::InitChain));

    let mut shell = idle();
    shell.init_chain(text("chain"));
    assert_eq!(
        shell.run(Event::ChainIdSet(Err(text("disk")))),
        Action::Stop(Error::StorageError(text("disk")))
    );
    assert!(!shell.awaits(&Event::Done));
}

#[test]
fn the_shell_ends_when_requests_end() {
    let mut shell = idle();
    assert_eq!(
        shell.run(Event::Closed(text("closed"))),
        Action::Stop(Error::AbciChannelRecvError(text("closed")))
    );
}

/// Brings a shell to the reply to a request of each kind.
fn replying() -> Vec<(Shell, &'static str)> {
    let mut shells = Vec::new();

    let mut shell = idle();
    shell.last_state();
    shell.run(Event::LastState(Ok(None)));
    shells.push((shell, "GetInfo gone"));

    let mut shell = idle();
    shell.init_chain(text("chain"));
    shell.run(Event::ChainIdSet(Ok(())));
    shells.push((shell, "InitChain gone"));

    let mut shell = idle();
    shell.run(Event::Received(Request::MempoolValidate {
        tx: vec![],
        tx_type: MempoolTxType::NewTransaction,
    }));
    shells.push((shell, "MempoolValidate gone"));

    let mut shell = idle();
    shell.begin_block(vec![], 1);
    shell.run(Event::Done);
    shell.run(Event::Done);
    shells.push((shell, "BeginBlock gone"));

    let mut shell = idle();
    shell.apply_tx(vec![]);
    shell.run(Event::FeeCharged(Err(text("full"))));
    shells.push((shell, "ApplyTx gone"));

    let mut shell = idle();
    shell.run(Event::Received(Request::EndBlock { height: 1 }));
    shells.push((shell, "EndBlock gone"));

    let mut shell = idle();
    shell.commit();
    shell.run(Event::Done);
    shell.run(Event::Persisted(Ok(())));
    shell.run(Event::Root(vec![]));
    shells.push((shell, "CommitBlock gone"));

    let mut shell = idle();
    shell.dry_run_tx(vec![]);
    shell.run(Event::FeeCharged(Err(text("full"))));
    shells.push((shell, "ApplyTx gone"));

    shells
}

#[test]
fn the_shell_ends_when_a_reply_cannot_be_sent() {
    for (mut shell, error) in replying() {
        assert_eq!(
            shell.run(Event::Sent(Err(text("gone")))),
            Action::Stop(Error::AbciChannelSendError(text(error)))
        );
    }
    for (mut shell, _) in replying() {
        assert_eq!(shell.run(Event::Sent(Ok(()))), Action::Receive);
    }
}

#[test]
fn the_shell_awaits_answers_to_its_last_action_only() {
    let (shell, _) = Shell::new(text("db"));
    assert!(shell.awaits(&Event::Done));
    assert!(!shell.awaits(&Event::Received(Request::GetInfo)));
    let mut shell = idle();
    assert!(shell.awaits(&Event::Received(Request::GetInfo)));
    assert!(shell.awaits(&Event::Closed(text("closed"))));
    assert!(!shell.awaits(&Event::Done));
    shell.apply_tx(vec![]);
    assert!(shell.awaits(&Event::FeeCharged(Ok(()))));
    assert!(!shell.awaits(&Event::Sent(Ok(()))));
}

#[test]
fn a_decoded_transaction_runs_in_its_mode() {
    let mut shell = idle();
    assert_eq!(
        shell.tx_decoded(Mode::DryRun, Err(text("bad"))),
        error_reply(Mode::DryRun, "Error decoding a transaction from bytes: bad")
    );
}

/// Runs a transaction that changed `keys` against accounts of which all but
/// those in `rejecting` accept: the accounts asked, and the action after.
fn ask(mode: Mode, keys: Vec<ChangedKey>, rejecting: &[&str]) -> (Vec<String>, Action) {
    let mut shell = idle();
    shell.run(request(mode, tx_bytes()));
    shell.run(Event::FeeCharged(Ok(())));
    let mut action = shell.run(Event::TxRan(Ok(keys)));
    let mut asked = Vec::new();
    while let Action::LoadPredicate { addr } = action {
        predicate_loaded(&mut shell);
        let accept = !rejecting.contains(&addr.as_str());
        asked.push(addr);
        action = shell.run(Event::VpRan(Ok(accept)));
    }
    (asked, action)
}

fn three_accounts() -> Vec<ChangedKey> {
    vec![changed("k1", &["a"]), changed("k2", &["b"]), changed("k3", &["c", "a"])]
}

#[test]
fn the_first_refusal_decides() {
    let asked = vec![text("a"), text("b")];
    assert_eq!(ask(Mode::Apply, three_accounts(), &["b", "c"]), (asked.clone(), Action::DropTx));
    assert_eq!(ask(Mode::DryRun, three_accounts(), &["b"]), (asked, Action::FinalizeGas));
}

#[test]
fn every_account_is_asked_once() {
    let asked = vec![text("a"), text("b"), text("c")];
    assert_eq!(ask(Mode::Apply, three_accounts(), &[]), (asked, Action::CommitTx));
}

#[test]
fn the_order_of_keys_does_not_decide() {
    for rejecting in [vec![], vec!["a"], vec!["b"], vec!["c"], vec!["a", "c"]] {
        let mut reversed = three_accounts();
        reversed.reverse();
        let (_, forth) = ask(Mode::Apply, three_accounts(), &rejecting);
        let (_, back) = ask(Mode::Apply, reversed, &rejecting);
        assert_eq!(forth, back);
    }
}

#[test]
fn changed_keys_are_grouped_by_address() {
    assert_eq!(group_by_address(&vec![]), vec![]);
    assert_eq!(group_by_address(&vec![changed("k", &[])]), vec![]);
    assert_eq!(
        group_by_address(&vec![
            changed("k1", &["b", "a"]),
            changed("k2", &["c"]),
            changed("k3", &["a", "b"]),
        ]),
        vec![group("b", &["k1", "k3"]), group("a", &["k1", "k3"]), group("c", &["k2"])]
    );
    // An address twice in one key lists the key twice.
    assert_eq!(
        group_by_address(&vec![changed("k1", &["a", "a"])]),
        vec![group("a", &["k1", "k1"])]
    );
}

#[test]
fn errors_in_words() {
    let cases: Vec<(Error, &str)> = vec![
        (Error::Temporary { error: text("e") }, "TEMPORARY error: e"),
        (Error::RemoveDB(text("e")), "Error removing the DB data: e"),
        (Error::StorageError(text("e")), "Storage error: e"),
        (Error::AbciChannelRecvError(text("e")), "Shell ABCI channel receiver error: e"),
        (Error::AbciChannelSendError(text("e")), "Shell ABCI channel sender error: e"),
        (Error::TxDecodingError(text("e")), "Error decoding a transaction from bytes: e"),
        (Error::TxRunnerError(text("e")), "Transaction runner error: e"),
        (
            Error::VpRunnerError { addr: text("va"), error: text("e") },
            "Validity predicate for va runner error: e",
        ),
        (Error::GasError(text("e")), "Gas error: e"),
    ];
    for (error, message) in cases {
        assert_eq!(error.message(), message);
    }
}

#[test]
fn labels_and_kinds() {
    assert_eq!(RequestKind::DryRunTx.label(), "ApplyTx ");
    assert_eq!(RequestKind::GetInfo.label(), "GetInfo ");
    assert_eq!(Reply::DryRunTx(Ok(text("x"))).kind(), RequestKind::DryRunTx);
    assert_eq!(Reply::BeginBlock.kind(), RequestKind::BeginBlock);
}

#[test]
fn addresses_are_formatted_and_refused() {
    assert_eq!(listen_address("127.0.0.1", 26658), "127.0.0.1:26658");
    assert_eq!(
        address_error("invalid socket address syntax"),
        Error::Temporary {
            error: text("cannot parse tendermint address invalid socket address syntax")
        }
    );
}

#[test]
fn a_reset_needs_the_files_gone() {
    assert_eq!(reset(Removal::Removed), Ok(()));
    assert_eq!(reset(Removal::NotFound), Ok(()));
    assert_eq!(
        reset(Removal::Failed(text("denied"))),
        Err(Error::RemoveDB(text("denied")))
    );
}

#[test]
fn numbers_in_decimal() {
    for n in [0u64, 7, 9, 10, 99, 100, 1234567890, u64::MAX] {
        assert_eq!(decimal(n), format!("{}", n));
    }
    assert_eq!(join("a", "b"), "ab");
}

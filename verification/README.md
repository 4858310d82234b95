# anoma_shell

The shell of a ledger node, verified with Verus.

Consensus sends the shell requests: to check a transaction for the mempool, to
begin, fill, end and commit blocks, to dry run a transaction. The shell decides
what is done for each of them, in which order, and what is replied. The storage,
the gas meter, the write log and the virtual machine that do the work belong to
the rest of the node. The shell reaches them by actions that it hands out and
events that come back.

- `src/protocol.rs`: requests, replies, actions and events.
- `src/machine.rs`: the shell as a mathematical machine.
- `src/shell.rs`: the shell, proved to be that machine.
- `src/tx.rs`, `src/wire.rs`: transactions and their wire format, read with
  `prost`.
- `src/keys.rs`: the changed keys of a transaction, by account.
- `src/startup.rs`, `src/error.rs`, `src/text.rs`: starting and resetting a node,
  errors, text.
- `src/node.rs`, `src/laws/`: the shell and a node at work together, and what
  holds of them.
- `app/`: the loop that performs the actions, the channel to consensus, and what
  the rest of the node has to provide.

A transaction is applied only if the validity predicate of every account whose
storage it touches accepts it. `src/laws/transaction.rs` and `src/laws/checks.rs`
state and prove what exactly is done for a transaction, whatever the node
answers, `src/laws/session.rs` that requests are replied to in order, and
`src/laws/wire.rs` how transactions are read back from their bytes.

//! The shell of a ledger node: the part that sits between the consensus
//! engine and the node's storage, gas meter, write log and virtual machine,
//! and decides what to do with every request that consensus sends.
//!
//! The shell performs no input or output. It is a state machine: each turn
//! takes an [`protocol::Event`], what the node has just done, and hands out an
//! [`protocol::Action`], what the node is to do next.

pub mod error;
pub mod keys;
pub mod laws;
pub mod machine;
pub mod node;
pub mod protocol;
pub mod shell;
pub mod startup;
pub mod text;
pub mod tx;
pub mod wire;

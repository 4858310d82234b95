//! What holds of the shell as a whole.

pub mod checks;
pub mod decoding;
pub mod keys;
pub mod models;
pub mod play;
pub mod requests;
pub mod session;
pub mod text;
pub mod traces;
pub mod transaction;
pub mod verdicts;
pub mod wire;

//! Policy core of a peer-to-peer code collaboration node.
//!
//! The functions here decide; they never touch storage or the network. A
//! caller reads what a decision needs from its storage, hands the answers in
//! as plain values and carries out what comes back.

pub mod branch;
pub mod browser;
pub mod checkout;
pub mod create;
pub mod error;
pub mod ident;
pub mod identity;
pub mod peer;
pub mod reference;
pub mod refname;
pub mod state;
pub mod tracking;

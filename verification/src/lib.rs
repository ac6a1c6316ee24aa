//! A transfer engine for an account-based fungible-token ledger.
//!
//! The engine moves value between accounts, optionally notifies the receiving
//! account through a remote call dispatched by the host, and reconciles the
//! ledger once the host delivers the outcome of that call. Every operation is
//! specified by its contract and verified; the host-facing pieces (storage,
//! remote dispatch, event emission) are collaborators that the surrounding
//! program supplies, exchanging plain values with this crate.
//!
//! Alongside the engine stands the ownership state machine usually deployed
//! with it: a single owner account, handed over by proposal and acceptance.

pub mod account;
pub mod codec;
pub mod controller;
pub mod error;
pub mod hooks;
pub mod ledger;
pub mod owner;

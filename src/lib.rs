//! Accounting for native-asset deposits: a single administrator, a ledger of
//! balances keyed by account and asset, and the operations that move them.
pub mod order;
pub mod state;
pub mod contract;
pub mod laws;

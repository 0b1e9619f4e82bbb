//! An envelope-budgeting ledger: a fixed set of spending categories, each
//! with a percentage share of every deposit and an optional overflow
//! successor. Deposits are allocated across the categories by percentage;
//! expenses are debited against a category's balance, cascading to its
//! successor chain when the balance is exhausted. The ledger computes every
//! mutation as a commit plan before anything is written, so a failed
//! operation changes nothing.

pub mod action;
pub mod engine;
pub mod format;
pub mod models;
pub mod money;
pub mod state;

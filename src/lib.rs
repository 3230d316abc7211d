//! Deterministic validation predicates for a UTXO-style ledger.
//!
//! Each validator looks at the records a transaction consumes ("before")
//! and produces ("after"), plus script arguments and witness data handed
//! over by the host, and accepts or rejects the transaction.
//!
//! Policies the validators commit to:
//! - A counter script accepts any transaction that consumes none of its
//!   records, except that a script with modes checks a single record
//!   produced from nothing as a creation; consuming records and producing
//!   none is always accepted.
//! - A counter too close to its maximum either aborts the script or is
//!   reported as `CounterValueOverflow`; each counter script names its
//!   policy in its rule, and no validator ever panics.
//! - A transfer decodes every consumed record, then every produced one,
//!   before it compares any counters.
//! - Records that need not line up are matched greedily, first fit, with
//!   no backtracking.
//! - A token total past `u128::MAX` is rejected with `AmountOverflow`.
pub mod capacity;
pub mod codec;
pub mod conservation;
pub mod counter;
pub mod datasize;
pub mod error;
pub mod hashlock;
pub mod jsoncell;
pub mod matcher;
pub mod mode;
pub mod script;
pub mod transition;

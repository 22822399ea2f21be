// Sequencer-unit core: message ordering and range queries, the local
// append-only store, bundle extraction, ledger-height rendering, and the
// decisions of the write and read pipelines.
use vstd::prelude::*;

pub mod text;
pub mod height;
pub mod message;
pub mod sorted;
pub mod store;
pub mod clock;
pub mod flows;

verus! {

} // verus!

//! Verified core of a local control plane for live Blitz desktop windows:
//! the typed protocol, host discovery decisions, command-line analysis,
//! document inspection over a plain document model, and frame settlement.

pub mod bridge;
pub mod capture;
pub mod cli;
pub mod discovery;
pub mod dom;
pub mod host;
pub mod live;
pub mod laws;
pub mod protocol;
pub mod settle;
pub mod text;
pub mod tools;
pub mod transport;

use vstd::prelude::*;

verus! {

} // verus!

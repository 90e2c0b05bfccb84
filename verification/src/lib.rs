//! A bot that relays open NNS governance proposals to OpenChat groups.
//!
//! The library holds the bot's decisions: when a heartbeat triggers a
//! processing round, how the list of open proposals is fetched until it
//! reaches the last proposal already announced, which proposals are then
//! announced and in what order, to which group each one goes, and the text
//! of each announcement. The canister shell around it performs the calls.
use vstd::prelude::*;

pub mod principal;
pub mod types;
pub mod proposals;
pub mod message;
pub mod config;
pub mod state;
pub mod dispatch;

verus! {

} // verus!

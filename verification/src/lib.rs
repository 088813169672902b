//! Polling filters over a blockchain: clients register interest in a class of
//! events and later fetch only what is new since their previous poll.

pub mod types;
pub mod poll_manager;
pub mod changes;
pub mod eth_filter;
pub mod laws;
pub mod web3;

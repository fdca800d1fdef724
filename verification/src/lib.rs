//! A mock terraswap pair / fungible-token contract for exercising contracts
//! that talk to such a pair: an execute-message dispatcher over a small
//! balance ledger, fixed query answers, and a settable liquidity-token
//! address for test setup.

pub mod codec;
pub mod dispatch;
pub mod fixture;
pub mod ledger;
pub mod msgs;

//! A small verified library around an order ledger: buy and sell interest is
//! submitted, stored per side in insertion order, and rendered as a textual
//! report. Two further modules hold a Fibonacci array generator and a wallet
//! with balance transfers.

pub mod digits;
pub mod fib;
pub mod ledger;
pub mod wallet;

pub mod clock;
pub mod identity;
pub mod ladder;
pub mod session;
pub mod marketdata;
pub mod channel;
pub mod feed;
pub mod handler;
pub mod order;
pub mod backtest;
pub mod bus;
pub mod throttle;
pub mod strategy;

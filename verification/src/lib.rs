//! Laddered spot trading: planning, an idempotent order journal, capital deployment, resting
//! sells, market watchers and a dashboard collector.
//!
//! Nothing here reads a file, a clock or a socket. A step that needs an answer is a function of
//! the answers so far and says what it asks for next; its caller performs it and calls again.
pub mod big;
pub mod binance;
pub mod clients;
pub mod command;
pub mod crypto;
pub mod dashboard;
pub mod decimal;
pub mod deploy;
pub mod double;
pub mod gate;
pub mod guard;
pub mod housekeeping;
pub mod http;
pub mod ids;
pub mod import;
pub mod journal;
pub mod keys;
pub mod list;
pub mod order;
pub mod pyfmt;
pub mod rounding;
pub mod text;
pub mod time;
pub mod venue;
pub mod watch;

//! Ledgers of a small portfolio and activity service: orders, quotes,
//! holdings and activity records, each kept in memory in front of durable
//! tables.
//!
//! The ledgers decide; they never touch storage, the network or the clock.
//!
//! - A read is two calls: the half that looks in memory (`cached_orders`,
//!   `cached_holdings`, `cached`), and, after a miss, the half that takes
//!   what reading the durable table gave and decides what is stored and
//!   returned (`orders_for_user`, `holdings_for_user`, `get`).
//! - A write changes the ledger in memory and says what the durable table
//!   has to hold afterwards (`rows_to_write`): always the whole list of the
//!   key.
//! - A refresh of the market is a conversation: [`refresh::Refresh`] asks
//!   for one fetch, read or write at a time and takes the answer; only the
//!   results of a conversation without failure can be committed with
//!   [`market::MarketData::update`].
//!
//! Every function is verified against its contract. The one thing taken on
//! trust is the written form of a calendar day, which comes from `chrono`
//! (see [`day`]). Prices and other real numbers are held as bit patterns
//! (see [`binary64`]), so that comparing them is integer arithmetic.

pub mod activities;
pub mod activity;
pub mod binary64;
pub mod day;
pub mod error;
pub mod holdings;
pub mod holdings_service;
pub mod keyed;
pub mod market;
pub mod portfolio;
pub mod refresh;
pub mod schema;
pub mod strava;

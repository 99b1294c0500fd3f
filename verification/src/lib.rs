//! Market-monitoring core: a formula engine for technical-analysis scripts,
//! the decision rules of the periodic watchers, and the K-line cache policy.
//!
//! Every function here is pure: callers hand in the time, quotes and rows
//! they have read, and carry out the actions that come back.

pub mod clock;
pub mod http_proxy;
pub mod json;
pub mod kline;
pub mod market;
pub mod models;
pub mod scheduler;
pub mod tdx;
pub mod text;

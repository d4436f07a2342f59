//! Decision core of an automated eToro trading backend: the voting rule of the
//! strategy, the confirmation and position bookkeeping of the trading bot, the
//! requests sent to the eToro API, and the configuration and news plumbing.

pub mod config;
pub mod etoro;
pub mod models;
pub mod news;
pub mod routes;
pub mod strategy;
pub mod text;
pub mod trader;

//! The decisions of the Goal Digger dashboard server: reading request
//! URLs, routing, market lookups, the chat agent's steps and the choice of
//! live fixtures, each with a contract checked by Verus.
pub mod text;
pub mod urlcode;
pub mod query;
pub mod market;
pub mod chat;
pub mod serve;
pub mod live;

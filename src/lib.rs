//! Client-side helpers for a card-game data API: query filters for the
//! sets resource, and a response envelope carrying paging and rate-limit
//! counters read from the response headers.

pub mod filter;
pub mod response;

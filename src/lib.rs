//! Asset resolution for a game-asset CDN: the request path grammar, the
//! ordered search over storage roots, and the peer-redirect fallback.

pub mod grammar;
pub mod search;
pub mod service;
pub mod config;

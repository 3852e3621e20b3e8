//! Port mapping: which protocols a router offers, the mappings it has granted,
//! and what it answers to a request.
pub mod actions;
pub mod config;
pub mod exchanges;
pub mod laws;
pub mod nat_pmp;
pub mod nft;
pub mod pcp;
pub mod registry;
pub mod requests;
pub mod server;
pub mod upnp;

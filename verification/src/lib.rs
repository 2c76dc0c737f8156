//! Verified core of a BGP link manager: BGP session/route models, the
//! `show ip bgp summary` parser, policy validation, neighbor drafts, policy
//! editors and the key-driven decisions of the terminal front end.

pub mod text;
pub mod net;
pub mod router;
pub mod export;
pub mod crypto;
pub mod store;
pub mod bgp;
pub mod app;

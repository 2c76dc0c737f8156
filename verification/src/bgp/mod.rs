//! BGP models, naming, neighbor drafts, policy entries and parsers.

pub mod naming;
pub mod neighbor_draft;
pub mod parsers;
pub mod policy;
pub mod scan;
pub mod types;

pub use types::{
    BgpPeer, BgpRoute, BgpState, BgpStateModel, BgpSummary, MtuProbeModel, MtuProbeState,
    PeerRouteDirection, RouteOrigin, RouteStatus,
};
pub use naming::{generate_policy_names, sanitize_description, PolicyNames};
pub use policy::{CommunityListEntry, PrefixListEntry, RouteMapDetail, RouteMapEntry};
pub use neighbor_draft::{AddressFamily, NeighborDraft, PeerTemplate};
pub use parsers::{
    parse_bgp_summary, parse_bgp_summary_at, parse_cisco_bgp_summary, parse_cisco_bgp_summary_at,
};

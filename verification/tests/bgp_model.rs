use bgp_link_manager::bgp::neighbor_draft::{AddressFamily, NeighborDraft};
use bgp_link_manager::bgp::parsers::{parse_bgp_summary_at, parse_cisco_bgp_summary_at};
use bgp_link_manager::bgp::policy::{CommunityListEntry, PrefixListEntry};
use bgp_link_manager::bgp::types::{
    BgpRoute, BgpState, PeerRouteDirection, RouteOrigin, RouteStatus,
};
use bgp_link_manager::net::{parse_ip, IpAddress};

fn chars(s: &str) -> Vec<char> {
    s.chars().collect()
}

fn ip_string(ip: &IpAddress) -> String {
    ip.text().into_iter().collect()
}

const SUMMARY: &str = "BGP router identifier 10.0.0.1, local AS number 65001\n\
BGP table version is 42, main routing table version 42\n\
\n\
Neighbor        V    AS MsgRcvd MsgSent   TblVer  InQ OutQ Up/Down  State/PfxRcd\n\
10.0.0.2        4 65002     100     200       42    0    0 01:02:03        5\n\
10.0.0.3        4 65001      10      20       42    0    0 never    Active\n\
192.168.1.1     4 65003    1000    2000       42    0    0 1d02h          17 9\n";

#[test]
fn summary_header_and_rows() {
    let s = parse_bgp_summary_at(SUMMARY, 7);
    assert_eq!(ip_string(&s.router_id), "10.0.0.1");
    assert_eq!(s.local_as, 65001);
    assert_eq!(s.table_version, 42);
    assert_eq!(s.fetched_at, 7);
    assert_eq!(s.peers.len(), 3);
    let p = &s.peers[0];
    assert_eq!(ip_string(&p.neighbor_ip), "10.0.0.2");
    assert_eq!(p.remote_as, 65002);
    assert_eq!(p.local_as, 65001);
    assert!(p.state.is_established());
    assert_eq!(p.prefixes_received, 5);
    assert_eq!(p.prefixes_advertised, 0);
    assert_eq!(p.msg_rcvd, 100);
    assert_eq!(p.msg_sent, 200);
    assert_eq!(p.uptime.as_deref(), Some("01:02:03"));
    assert_eq!(p.hold_time, 90);
    assert_eq!(p.keepalive, 30);
    assert_eq!(p.session_type(), "eBGP");
    let q = &s.peers[1];
    assert_eq!(q.state.as_str(), "Active");
    assert_eq!(q.prefixes_received, 0);
    assert_eq!(q.session_type(), "iBGP");
    let r = &s.peers[2];
    assert_eq!(r.prefixes_received, 17);
    assert_eq!(r.prefixes_advertised, 9);
    assert_eq!(s.established_count(), 2);
    assert_eq!(s.total_prefixes(), 22);
}

#[test]
fn summary_without_header() {
    let s = parse_bgp_summary_at("nothing here", 0);
    assert_eq!(ip_string(&s.router_id), "0.0.0.0");
    assert_eq!(s.local_as, 0);
    assert_eq!(s.table_version, 0);
    assert!(s.peers.is_empty());
}

#[test]
fn cisco_summary_uses_given_identity() {
    let rid = parse_ip(&chars("1.2.3.4")).unwrap();
    let s = parse_cisco_bgp_summary_at(SUMMARY, rid, 64512, 1);
    assert_eq!(ip_string(&s.router_id), "1.2.3.4");
    assert_eq!(s.local_as, 64512);
    assert!(s.peers.iter().all(|p| p.local_as == 64512));
}

#[test]
fn bgp_state_text() {
    assert!(BgpState::from_str("Established").is_established());
    assert!(BgpState::from_str("ESTABLISHED").is_established());
    assert_eq!(BgpState::from_str("idle").as_str(), "Idle");
    assert_eq!(BgpState::from_str("OpenSent").as_str(), "OpenSent");
    assert_eq!(BgpState::from_str("Idle(Admin)").as_str(), "idle(admin)");
    assert!(!BgpState::from_str("Connect").is_established());
}

#[test]
fn direction_toggle_and_labels() {
    let d = PeerRouteDirection::Received;
    assert_eq!(d.label(), "Received");
    assert_eq!(d.toggle(), PeerRouteDirection::Advertised);
    assert_eq!(d.toggle().toggle(), d);
    assert_eq!(PeerRouteDirection::Advertised.label(), "Advertised");
}

#[test]
fn route_as_path_and_symbols() {
    let r = BgpRoute {
        status: RouteStatus::BestExternal,
        network: "10.0.0.0/8".to_string(),
        next_hop: "0.0.0.0".to_string(),
        metric: None,
        local_pref: Some(100),
        weight: 0,
        as_path: vec![65001, 174, 3356],
        origin: RouteOrigin::Igp,
        communities: vec![],
    };
    assert_eq!(r.as_path_str(), "65001 174 3356");
    assert_eq!(RouteOrigin::Incomplete.symbol(), "?");
    assert_eq!(RouteStatus::BestExternal.symbol(), "*>");
    let empty = BgpRoute { as_path: vec![], ..r };
    assert_eq!(empty.as_path_str(), "");
}

#[test]
fn address_family_from_ip_and_toggle() {
    assert_eq!(AddressFamily::from_ip("2001:db8::1"), AddressFamily::Ipv6Unicast);
    assert_eq!(AddressFamily::from_ip("10.0.0.1"), AddressFamily::Ipv4Unicast);
    assert_eq!(AddressFamily::Ipv4Unicast.toggle(), AddressFamily::Ipv6Unicast);
    assert_eq!(AddressFamily::Ipv6Unicast.label(), "IPv6 Unicast");
}

#[test]
fn community_entry_validation() {
    let ok = CommunityListEntry { seq: 5, action: "permit".into(), community: "65000:1".into() };
    assert_eq!(ok.validate(), Ok(()));
    let bad = CommunityListEntry { seq: 5, action: "allow".into(), community: "65000:1".into() };
    assert_eq!(bad.validate(), Err("Action must be 'permit' or 'deny', got 'allow'".to_string()));
    let empty = CommunityListEntry { seq: 5, action: "deny".into(), community: "   ".into() };
    assert_eq!(empty.validate(), Err("Community value is required".to_string()));
}

fn pl(prefix: &str) -> PrefixListEntry {
    PrefixListEntry { seq: 10, action: "permit".into(), prefix: prefix.into() }
}

#[test]
fn prefix_entry_validation() {
    assert_eq!(pl("10.0.0.0/8").validate(), Ok(()));
    assert_eq!(pl("10.0.0.0/8 ge 16 le 24").validate(), Ok(()));
    assert_eq!(pl("2001:db8::/32 le 64").validate(), Ok(()));
    assert_eq!(pl("").validate(), Err("Prefix is required".to_string()));
    assert_eq!(
        pl("10.0.0.0").validate(),
        Err("Invalid CIDR: '10.0.0.0' (expected x.x.x.x/N)".to_string())
    );
    assert_eq!(pl("10.0.0/8").validate(), Err("Invalid network address: '10.0.0'".to_string()));
    assert_eq!(pl("10.0.0.0/x").validate(), Err("Invalid prefix length: 'x'".to_string()));
    assert_eq!(pl("10.0.0.0/33").validate(), Err("Prefix length 33 exceeds maximum 32".to_string()));
    assert_eq!(
        pl("10.0.0.0/16 ge 8").validate(),
        Err("ge (8) must be >= prefix length (16)".to_string())
    );
    assert_eq!(
        pl("10.0.0.0/16 ge 24 le 20").validate(),
        Err("ge (24) must be <= le (20)".to_string())
    );
    assert_eq!(pl("10.0.0.0/16 le 40").validate(), Err("le (40) exceeds maximum 32".to_string()));
    assert_eq!(pl("10.0.0.0/16 ge x").validate(), Err("Invalid ge value: 'x'".to_string()));
    let deny = PrefixListEntry { seq: 1, action: "drop".into(), prefix: "10.0.0.0/8".into() };
    assert_eq!(deny.validate(), Err("Action must be 'permit' or 'deny', got 'drop'".to_string()));
}

fn draft(ip: &str, asn: &str, desc: &str) -> NeighborDraft {
    let mut d = NeighborDraft::default();
    d.set_field(0, ip);
    d.set_field(1, asn);
    d.set_field(2, desc);
    d
}

#[test]
fn neighbor_draft_validation() {
    assert_eq!(draft("10.0.0.2", "65002", "Transit").validate(), Ok(()));
    assert_eq!(
        draft("10.0.0.999", "65002", "x").validate(),
        Err("Invalid neighbor IP address (IPv4 or IPv6)".to_string())
    );
    assert_eq!(
        draft("10.0.0.2", "abc", "x").validate(),
        Err("Remote AS must be a number".to_string())
    );
    assert_eq!(draft("10.0.0.2", "0", "x").validate(), Err("Remote AS cannot be 0".to_string()));
    assert_eq!(
        draft("10.0.0.2", "1", "  ").validate(),
        Err("Description is required (drives naming convention)".to_string())
    );
    let mut d = draft("10.0.0.2", "1", "x");
    d.toggle_field(4);
    assert_eq!(
        d.validate(),
        Err("IPv4 address requires IPv4 Unicast address family".to_string())
    );
    let mut t = draft("10.0.0.2", "1", "x");
    t.set_field(7, "100");
    t.set_field(8, "60");
    assert_eq!(t.validate(), Err("Hold time must be >= 3x keepalive".to_string()));
}

#[test]
fn neighbor_draft_fields() {
    let mut d = NeighborDraft::default();
    assert_eq!(d.field_value(7), "180");
    assert_eq!(d.field_value(8), "60");
    assert_eq!(d.field_value(11), "Yes");
    d.set_field(9, "abc");
    assert_eq!(d.field_value(9), "\u{25cf}\u{25cf}\u{25cf}");
    d.set_field(0, "2001:db8::2");
    assert_eq!(d.field_value(4), "IPv6 Unicast");
    assert!(NeighborDraft::is_toggle_field(5));
    assert!(!NeighborDraft::is_toggle_field(7));
    d.toggle_field(5);
    assert_eq!(d.field_value(5), "Yes");
    d.toggle_field(5);
    assert_eq!(d.field_value(5), "No");
}

#[test]
fn ip_parse_and_display() {
    let v6 = parse_ip(&chars("2001:DB8:0:0:1:0:0:1")).unwrap();
    assert_eq!(ip_string(&v6), "2001:db8::1:0:0:1");
    assert!(v6.is_ipv6());
    let mapped = parse_ip(&chars("::ffff:1.2.3.4")).unwrap();
    assert_eq!(ip_string(&mapped), "::ffff:1.2.3.4");
    assert!(parse_ip(&chars("01.2.3.4")).is_none());
    assert!(parse_ip(&chars("1.2.3")).is_none());
    assert_eq!(ip_string(&parse_ip(&chars("::")).unwrap()), "::");
}

#[test]
fn ip_display_parses_back() {
    let samples = [
        IpAddress::V4(0, 0, 0, 0),
        IpAddress::V4(255, 10, 100, 7),
        IpAddress::V6(0, 0, 0, 0, 0, 0, 0, 0),
        IpAddress::V6(0x2001, 0xdb8, 0, 0, 0, 0, 0, 1),
        IpAddress::V6(1, 2, 3, 4, 5, 6, 7, 8),
        IpAddress::V6(1, 0, 0, 2, 0, 0, 0, 3),
        IpAddress::V6(0, 0, 0, 0, 0, 0xffff, 0x0a00, 0x0001),
        IpAddress::V6(0xfe80, 0, 0, 0, 0x1ff, 0xfe23, 0x4567, 0x890a),
        IpAddress::V6(0, 1, 0, 0, 0, 0, 0, 0),
    ];
    for ip in samples {
        let text = ip_string(&ip);
        assert_eq!(parse_ip(&chars(&text)), Some(ip), "{text}");
    }
    assert_eq!(ip_string(&samples[6]), "::ffff:10.0.0.1");
    assert_eq!(ip_string(&samples[5]), "1:0:0:2::3");
}

#[test]
fn state_labels_parse_back() {
    let states = [
        BgpState::Idle,
        BgpState::Connect,
        BgpState::Active,
        BgpState::OpenSent,
        BgpState::OpenConfirm,
        BgpState::Established,
        BgpState::Unknown("clearing".to_string()),
    ];
    for st in states {
        let back = BgpState::from_str(st.as_str());
        assert_eq!(back.as_str(), st.as_str());
        assert!(back.same_as(&st));
    }
    assert_eq!(BgpState::from_str("  ESTABLISHED ").as_str(), "Established");
    assert_eq!(BgpState::from_str(" Clearing ").as_str(), "clearing");
}

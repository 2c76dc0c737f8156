use bgp_link_manager::bgp::{AddressFamily, NeighborDraft, PeerTemplate};
use bgp_link_manager::crypto::{decrypt, derive_key};
use bgp_link_manager::net::IpAddress;
use bgp_link_manager::router::{RouterConfig, RouterVendor};
use bgp_link_manager::store::{
    draft_from_row, neighbor_row, router_from_row, router_row, template_from_row, template_row,
    RouterRow, StoredNeighbor, StoredTemplate,
};

fn key() -> [u8; 32] {
    derive_key("store test", "c2FsdHNhbHRzYWx0c2FsdA==").unwrap()
}

fn sample_router() -> RouterConfig {
    RouterConfig {
        id: 42,
        name: "edge1".to_string(),
        hostname: "edge1.example.net".to_string(),
        vendor: RouterVendor::VyOs,
        ssh_port: 2222,
        username: "ops".to_string(),
        password: Some("s3cret".to_string()),
        local_as: Some(65001),
        router_id: Some(IpAddress::V4(10, 0, 0, 1)),
        vdom: Some("root".to_string()),
    }
}

#[test]
fn router_row_writes_vendor_name_and_router_id_text() {
    let k = key();
    let row = router_row(&k, &sample_router()).unwrap();
    assert_eq!(row.id, 42);
    assert_eq!(row.vendor, "VyOS");
    assert_eq!(row.router_id.as_deref(), Some("10.0.0.1"));
    assert_eq!(row.ssh_port, 2222);
    let enc = row.password_enc.clone().unwrap();
    assert_ne!(enc, "s3cret");
    assert_eq!(decrypt(&k, &enc).unwrap(), "s3cret");
}

#[test]
fn router_reads_back_as_written() {
    let k = key();
    let r = sample_router();
    let back = router_from_row(&k, &router_row(&k, &r).unwrap());
    assert_eq!(back.id, r.id);
    assert_eq!(back.name, r.name);
    assert_eq!(back.hostname, r.hostname);
    assert_eq!(back.vendor, r.vendor);
    assert_eq!(back.ssh_port, r.ssh_port);
    assert_eq!(back.username, r.username);
    assert_eq!(back.password, r.password);
    assert_eq!(back.local_as, r.local_as);
    assert_eq!(back.router_id, r.router_id);
    assert_eq!(back.vdom, r.vdom);
}

#[test]
fn router_without_password_stores_none() {
    let mut r = sample_router();
    r.password = None;
    r.router_id = None;
    let row = router_row(&key(), &r).unwrap();
    assert!(row.password_enc.is_none());
    assert!(row.router_id.is_none());
}

fn raw_row(vendor: &str, pw: Option<&str>, rid: Option<&str>) -> RouterRow {
    RouterRow {
        id: 7,
        name: "r".to_string(),
        hostname: "h".to_string(),
        vendor: vendor.to_string(),
        ssh_port: 22,
        username: "u".to_string(),
        password_enc: pw.map(|s| s.to_string()),
        local_as: None,
        router_id: rid.map(|s| s.to_string()),
        vdom: None,
    }
}

#[test]
fn router_row_reading_tolerates_bad_values() {
    let k = key();
    let r = router_from_row(&k, &raw_row("juniper", Some("garbage!"), Some("not-an-ip")));
    assert_eq!(r.vendor, RouterVendor::Cisco);
    assert_eq!(r.password, None);
    assert_eq!(r.router_id, None);
    assert_eq!(router_from_row(&k, &raw_row("CITRIX", None, None)).vendor, RouterVendor::CitrixVpx);
    assert_eq!(router_from_row(&k, &raw_row("pfsense", None, None)).vendor, RouterVendor::PfSense);
    assert_eq!(router_from_row(&k, &raw_row("FortiGate", None, None)).vendor, RouterVendor::FortiGate);
    assert_eq!(router_from_row(&k, &raw_row("a10", None, None)).vendor, RouterVendor::A10);
    assert_eq!(
        router_from_row(&k, &raw_row("Cisco", None, Some("2001:db8::1"))).router_id,
        Some(IpAddress::V6(0x2001, 0xdb8, 0, 0, 0, 0, 0, 1))
    );
}

#[test]
fn neighbor_row_normalises_the_draft() {
    let k = key();
    let mut d = NeighborDraft::default();
    d.neighbor_ip = " 192.0.2.1 ".to_string();
    d.remote_as = "not a number".to_string();
    d.description = "  uplink ".to_string();
    d.update_source = " lo0 ".to_string();
    d.hold_time = "".to_string();
    d.keepalive = " 30 ".to_string();
    let row = neighbor_row(&k, 9, &d, 1234, 5_000_000).unwrap();
    assert_eq!(row.id, 1234);
    assert_eq!(row.router_id, 9);
    assert_eq!(row.neighbor_ip, "192.0.2.1");
    assert_eq!(row.remote_as, 0);
    assert_eq!(row.description, "uplink");
    assert_eq!(row.update_source.as_deref(), Some("lo0"));
    assert_eq!(row.hold_time, 180);
    assert_eq!(row.keepalive, 30);
    assert!(row.password_enc.is_none());
    assert_eq!(row.created_at, 5_000_000);
    assert_eq!(row.updated_at, 5_000_000);
}

#[test]
fn neighbor_row_keeps_id_and_creation_time_and_seals_password() {
    let k = key();
    let mut d = NeighborDraft::default();
    d.id = Some(77);
    d.created_at = Some(100);
    d.remote_as = "+65010".to_string();
    d.hold_time = "70000".to_string();
    d.password = "md5pass".to_string();
    let row = neighbor_row(&k, 1, &d, 1234, 900).unwrap();
    assert_eq!(row.id, 77);
    assert_eq!(row.created_at, 100);
    assert_eq!(row.updated_at, 900);
    assert_eq!(row.remote_as, 65010);
    assert_eq!(row.hold_time, 180);
    assert!(row.update_source.is_none());
    assert_eq!(decrypt(&k, row.password_enc.as_deref().unwrap()).unwrap(), "md5pass");
}

#[test]
fn neighbor_draft_read_from_row() {
    let k = key();
    let mut d = NeighborDraft::default();
    d.password = "pw".to_string();
    let enc = neighbor_row(&k, 1, &d, 1, 1).unwrap().password_enc;
    let row = StoredNeighbor {
        id: Some(5),
        neighbor_ip: "2001:db8::2".to_string(),
        remote_as: 65020,
        description: "peer".to_string(),
        update_source: None,
        next_hop_self: 1,
        route_reflector_client: 0,
        hold_time: -5,
        keepalive: 60,
        password_enc: enc,
        bfd: 2,
        soft_reconfiguration_inbound: 0,
        created_at: Some(10),
        updated_at: None,
    };
    let back = draft_from_row(&k, 3, &row);
    assert_eq!(back.id, Some(5));
    assert_eq!(back.router_id, Some(3));
    assert_eq!(back.remote_as, "65020");
    assert_eq!(back.update_source, "");
    assert!(back.next_hop_self);
    assert!(!back.route_reflector_client);
    assert_eq!(back.hold_time, "-5");
    assert_eq!(back.keepalive, "60");
    assert_eq!(back.password, "pw");
    assert!(back.bfd);
    assert!(!back.soft_reconfiguration_inbound);
    assert_eq!(back.address_family, AddressFamily::Ipv6Unicast);
    assert!(back.maximum_prefix_warning);
    assert_eq!(back.created_at, Some(10));
    assert_eq!(back.updated_at, None);

    let bad = StoredNeighbor { password_enc: Some("zzzz".to_string()), ..row };
    assert_eq!(draft_from_row(&k, 3, &bad).password, "");
}

#[test]
fn template_rows_both_ways() {
    let mut t = PeerTemplate::with_id(11);
    t.name = "transit".to_string();
    t.hold_time = "x".to_string();
    t.keepalive = "20".to_string();
    let row = template_row(&t);
    assert_eq!(row.id, 11);
    assert_eq!(row.hold_time, 180);
    assert_eq!(row.keepalive, 20);
    assert!(row.update_source.is_none());
    assert!(row.soft_reconfiguration_inbound);

    let stored = StoredTemplate {
        id: 11,
        name: "transit".to_string(),
        remote_as: Some("174".to_string()),
        description_prefix: None,
        update_source: Some("lo0".to_string()),
        next_hop_self: 0,
        route_reflector_client: 1,
        hold_time: 90,
        keepalive: 30,
        bfd: 0,
        soft_reconfiguration_inbound: 1,
    };
    let back = template_from_row(&stored);
    assert_eq!(back.remote_as.as_deref(), Some("174"));
    assert_eq!(back.update_source, "lo0");
    assert!(back.route_reflector_client);
    assert_eq!(back.hold_time, "90");
    assert_eq!(back.keepalive, "30");
}

#[test]
fn normalized_neighbor_reads_back() {
    let k = key();
    let mut d = NeighborDraft::default();
    d.neighbor_ip = "198.51.100.7".to_string();
    d.remote_as = "64512".to_string();
    d.description = "core uplink".to_string();
    d.update_source = "Loopback0".to_string();
    d.next_hop_self = true;
    d.hold_time = "90".to_string();
    d.keepalive = "30".to_string();
    d.password = "s3cret".to_string();
    d.bfd = true;
    d.weight = "100".to_string();
    let row = neighbor_row(&k, 4, &d, 555, 777).unwrap();
    let stored = StoredNeighbor {
        id: Some(row.id),
        neighbor_ip: row.neighbor_ip.clone(),
        remote_as: row.remote_as,
        description: row.description.clone(),
        update_source: row.update_source.clone(),
        next_hop_self: row.next_hop_self as i32,
        route_reflector_client: row.route_reflector_client as i32,
        hold_time: row.hold_time as i32,
        keepalive: row.keepalive as i32,
        password_enc: row.password_enc.clone(),
        bfd: row.bfd as i32,
        soft_reconfiguration_inbound: row.soft_reconfiguration_inbound as i32,
        created_at: Some(row.created_at),
        updated_at: Some(row.updated_at),
    };
    let back = draft_from_row(&k, 4, &stored);
    assert_eq!(back.id, Some(555));
    assert_eq!(back.router_id, Some(4));
    assert_eq!(back.neighbor_ip, d.neighbor_ip);
    assert_eq!(back.remote_as, d.remote_as);
    assert_eq!(back.description, d.description);
    assert_eq!(back.update_source, d.update_source);
    assert_eq!(back.next_hop_self, d.next_hop_self);
    assert_eq!(back.hold_time, d.hold_time);
    assert_eq!(back.keepalive, d.keepalive);
    assert_eq!(back.password, d.password);
    assert_eq!(back.bfd, d.bfd);
    assert_eq!(back.soft_reconfiguration_inbound, d.soft_reconfiguration_inbound);
    assert_eq!(back.weight, "");
    assert_eq!(back.created_at, Some(777));
    assert_eq!(back.updated_at, Some(777));
}

#[test]
fn template_reads_back_as_written() {
    let mut t = PeerTemplate::with_id(21);
    t.name = "ix".to_string();
    t.remote_as = Some("6939".to_string());
    t.description_prefix = Some("IX ".to_string());
    t.update_source = "lo0".to_string();
    t.bfd = true;
    t.hold_time = "90".to_string();
    t.keepalive = "30".to_string();
    let row = template_row(&t);
    let stored = StoredTemplate {
        id: row.id,
        name: row.name.clone(),
        remote_as: row.remote_as.clone(),
        description_prefix: row.description_prefix.clone(),
        update_source: row.update_source.clone(),
        next_hop_self: row.next_hop_self as i32,
        route_reflector_client: row.route_reflector_client as i32,
        hold_time: row.hold_time as i32,
        keepalive: row.keepalive as i32,
        bfd: row.bfd as i32,
        soft_reconfiguration_inbound: row.soft_reconfiguration_inbound as i32,
    };
    let back = template_from_row(&stored);
    assert_eq!(back.id, t.id);
    assert_eq!(back.name, t.name);
    assert_eq!(back.remote_as, t.remote_as);
    assert_eq!(back.description_prefix, t.description_prefix);
    assert_eq!(back.update_source, t.update_source);
    assert_eq!(back.next_hop_self, t.next_hop_self);
    assert_eq!(back.bfd, t.bfd);
    assert_eq!(back.hold_time, t.hold_time);
    assert_eq!(back.keepalive, t.keepalive);
    assert_eq!(back.soft_reconfiguration_inbound, t.soft_reconfiguration_inbound);
}

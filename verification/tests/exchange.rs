use bgp_link_manager::bgp::NeighborDraft;
use bgp_link_manager::export::{
    export_neighbor, export_project, export_router, has_project_named, has_router_named,
    import_neighbor, import_router, import_summary, router_id_named, router_ids_named,
    router_name,
};
use bgp_link_manager::net::IpAddress;
use bgp_link_manager::router::{Project, RouterConfig, RouterVendor};

fn s(x: &str) -> String {
    x.to_string()
}

fn router(id: u128, name: &str, vendor: RouterVendor) -> RouterConfig {
    RouterConfig {
        id,
        name: s(name),
        hostname: format!("{name}.lab"),
        vendor,
        ssh_port: 22,
        username: s("admin"),
        password: Some(s("secret")),
        local_as: Some(65000),
        router_id: Some(IpAddress::V4(1, 1, 1, 1)),
        vdom: None,
    }
}

#[test]
fn router_export_leaves_out_secrets_and_ids() {
    let r = router(5, "edge", RouterVendor::FortiGate);
    let e = export_router(&r);
    assert_eq!(e.name, "edge");
    assert_eq!(e.vendor, "FortiGate");
    assert_eq!(e.hostname, "edge.lab");
    let back = import_router(&e, 99);
    assert_eq!(back.id, 99);
    assert_eq!(back.name, r.name);
    assert_eq!(back.vendor, RouterVendor::FortiGate);
    assert_eq!(back.password, None);
    assert_eq!(back.router_id, None);
    assert_eq!(back.local_as, Some(65000));
}

#[test]
fn projects_export_router_names_and_import_ids() {
    let rs = vec![router(1, "a", RouterVendor::Cisco), router(2, "b", RouterVendor::VyOs)];
    assert_eq!(router_name(&rs, 2), "b");
    assert_eq!(router_name(&rs, 3), "");
    let p = Project { id: 7, name: s("lab"), router_ids: vec![2, 3, 1] };
    let e = export_project(&p, &rs);
    assert_eq!(e.name, "lab");
    assert_eq!(e.router_names, vec![s("b"), s(""), s("a")]);
    assert_eq!(router_id_named(&rs, &s("a")), Some(1));
    assert_eq!(router_id_named(&rs, &s("z")), None);
    assert_eq!(router_ids_named(&rs, &vec![s("b"), s("z"), s("a")]), vec![2, 1]);
    assert!(has_router_named(&rs, &s("a")));
    assert!(!has_router_named(&rs, &s("A")));
    let ps = vec![p];
    assert!(has_project_named(&ps, &s("lab")));
    assert!(!has_project_named(&ps, &s("prod")));
}

#[test]
fn neighbors_export_and_import() {
    let mut d = NeighborDraft::default();
    d.neighbor_ip = s("2001:db8::5");
    d.remote_as = s("65005");
    d.description = s("v6 peer");
    d.password = s("hidden");
    d.bfd = true;
    let e = export_neighbor(&s("edge"), &d);
    assert_eq!(e.router_name, "edge");
    assert_eq!(e.neighbor_ip, "2001:db8::5");
    assert!(e.bfd);
    let back = import_neighbor(&e, 4);
    assert_eq!(back.router_id, Some(4));
    assert_eq!(back.neighbor_ip, d.neighbor_ip);
    assert_eq!(back.remote_as, d.remote_as);
    assert_eq!(back.password, "");
    assert!(back.bfd);
    assert_eq!(back.address_family, bgp_link_manager::bgp::AddressFamily::Ipv6Unicast);
}

#[test]
fn import_summary_text() {
    assert_eq!(import_summary(1, 2, 3, 4), "Imported 1 routers, 2 projects, 3 neighbors, 4 templates");
}

#[test]
fn router_duplicate_is_field_for_field() {
    let r = router(5, "edge", RouterVendor::A10);
    let d = r.duplicate();
    assert_eq!(d.id, r.id);
    assert_eq!(d.name, r.name);
    assert_eq!(d.password, r.password);
    assert_eq!(d.vendor, r.vendor);
}

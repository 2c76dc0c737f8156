use bgp_link_manager::app::filters::{filter_lines, filter_peers, filter_routes, keep_selection};
use bgp_link_manager::app::helpers::{
    apply_buf_to_draft, editor_field_value, extract_communitylist_name_from_line,
    extract_prefixlist_name_from_line, extract_routemap_name_from_line, truncate_error,
};
use bgp_link_manager::app::types::{editor_field_label, ActiveTab, EDITOR_NFIELDS};
use bgp_link_manager::bgp::parsers::parse_bgp_summary_at;
use bgp_link_manager::bgp::types::{BgpRoute, RouteOrigin, RouteStatus};
use bgp_link_manager::router::{toggle_member, Project, RouterConfig, RouterVendor};

#[test]
fn tabs_cycle() {
    let all = ActiveTab::all();
    assert_eq!(all.len(), 7);
    for (i, t) in all.iter().enumerate() {
        assert_eq!(t.index(), i);
        assert_eq!(t.next().prev(), *t);
        assert_eq!(t.prev().next(), *t);
    }
    assert_eq!(ActiveTab::ConnLog.next(), ActiveTab::Dashboard);
    assert_eq!(ActiveTab::Dashboard.prev(), ActiveTab::ConnLog);
    assert_eq!(ActiveTab::Logs.label(), "5 BGP Log");
    assert_eq!(ActiveTab::ConnLog.label(), "7 SSH Log");
    let mut t = ActiveTab::Routes;
    for _ in 0..7 {
        t = t.next();
    }
    assert_eq!(t, ActiveTab::Routes);
}

#[test]
fn config_line_names() {
    assert_eq!(
        extract_routemap_name_from_line("  neighbor 10.0.0.2 route-map RM-IN in").as_deref(),
        Some("RM-IN")
    );
    assert_eq!(extract_routemap_name_from_line("route-map"), None);
    assert_eq!(extract_routemap_name_from_line("no maps here"), None);
    assert_eq!(
        extract_prefixlist_name_from_line("ip prefix-list PL-A:: seq 5 permit 10.0.0.0/8").as_deref(),
        Some("PL-A")
    );
    assert_eq!(extract_prefixlist_name_from_line("prefix-list"), None);
    assert_eq!(
        extract_communitylist_name_from_line("ip community-list standard CL-1 permit 1:1")
            .as_deref(),
        Some("CL-1")
    );
    assert_eq!(
        extract_communitylist_name_from_line("ip community-list CL-2 permit 1:1").as_deref(),
        Some("CL-2")
    );
    assert_eq!(extract_communitylist_name_from_line("ip community-list expanded"), None);
}

fn router() -> RouterConfig {
    RouterConfig {
        id: 7,
        name: "edge1".into(),
        hostname: "10.1.1.1".into(),
        vendor: RouterVendor::FortiGate,
        ssh_port: 2222,
        username: "admin".into(),
        password: Some("s3cret".into()),
        local_as: Some(65001),
        router_id: None,
        vdom: None,
    }
}

#[test]
fn router_editor_fields() {
    let r = router();
    assert_eq!(EDITOR_NFIELDS, 7);
    assert_eq!(editor_field_label(2), "Port");
    assert_eq!(editor_field_value(&r, 0), "edge1");
    assert_eq!(editor_field_value(&r, 2), "2222");
    assert_eq!(editor_field_value(&r, 4), "s3cret");
    assert_eq!(editor_field_value(&r, 5), "FortiGate");
    assert_eq!(editor_field_value(&r, 6), "");
    assert_eq!(editor_field_value(&r, 9), "");
}

#[test]
fn router_editor_commits() {
    let mut r = router();
    apply_buf_to_draft(&mut r, 2, "abc");
    assert_eq!(r.ssh_port, 22);
    apply_buf_to_draft(&mut r, 2, "+2200");
    assert_eq!(r.ssh_port, 2200);
    apply_buf_to_draft(&mut r, 2, "70000");
    assert_eq!(r.ssh_port, 22);
    apply_buf_to_draft(&mut r, 5, "CITRIX");
    assert_eq!(r.vendor, RouterVendor::CitrixVpx);
    apply_buf_to_draft(&mut r, 5, "junos");
    assert_eq!(r.vendor, RouterVendor::Cisco);
    apply_buf_to_draft(&mut r, 4, "");
    assert_eq!(r.password, None);
    apply_buf_to_draft(&mut r, 6, "root");
    assert_eq!(r.vdom.as_deref(), Some("root"));
    apply_buf_to_draft(&mut r, 1, "h");
    assert_eq!(r.hostname, "h");
}

#[test]
fn router_editor_roundtrip_keeps_router() {
    for v in [
        RouterVendor::Cisco,
        RouterVendor::VyOs,
        RouterVendor::CitrixVpx,
        RouterVendor::PfSense,
        RouterVendor::FortiGate,
        RouterVendor::A10,
    ] {
        let mut r = router();
        r.vendor = v;
        for f in 0..EDITOR_NFIELDS {
            let text = editor_field_value(&r, f);
            apply_buf_to_draft(&mut r, f, &text);
        }
        let o = router();
        assert_eq!(r.vendor, v);
        assert_eq!(r.name, o.name);
        assert_eq!(r.ssh_port, o.ssh_port);
        assert_eq!(r.password, o.password);
        assert_eq!(r.vdom, o.vdom);
        assert_eq!(RouterVendor::from_text(v.label()), v);
    }
}

#[test]
fn router_defaults_and_vendor_cycle() {
    let d = RouterConfig::default();
    assert_eq!(d.ssh_port, 22);
    assert_eq!(d.vendor, RouterVendor::Cisco);
    let mut v = RouterVendor::Cisco;
    for _ in 0..6 {
        v = v.cycled();
    }
    assert_eq!(v, RouterVendor::Cisco);
    assert_eq!(RouterVendor::Cisco.cycled(), RouterVendor::VyOs);
}

#[test]
fn project_membership_toggle() {
    let p = Project::new("lab".to_string());
    assert_eq!(p.name, "lab");
    assert!(p.router_ids.is_empty());
    let mut ids = vec![1u128, 2, 3];
    toggle_member(&mut ids, 2);
    assert_eq!(ids, vec![1, 3]);
    toggle_member(&mut ids, 9);
    assert_eq!(ids, vec![1, 3, 9]);
    toggle_member(&mut ids, 9);
    assert_eq!(ids, vec![1, 3]);
}

#[test]
fn truncating_errors() {
    assert_eq!(truncate_error("short", 10), "short");
    assert_eq!(truncate_error("first line\nsecond", 100), "first line");
    assert_eq!(truncate_error("abcdef", 3), "ab\u{2026}");
    assert_eq!(truncate_error("abc", 3), "abc");
    assert_eq!(truncate_error("", 3), "");
    assert_eq!(truncate_error("\u{e9}t\u{e9}", 3), "\u{e9}t\u{e9}");
    assert_eq!(truncate_error("\u{e9}t\u{e9}x", 3), "\u{e9}t\u{2026}");
    assert_eq!(truncate_error("abc", 0), "");
    assert!(truncate_error(&"\u{e9}".repeat(100), 10).chars().count() <= 10);
}

#[test]
fn line_filters() {
    let lines: Vec<String> = vec!["Router BGP".into(), "neighbor x".into(), "bgp log".into()];
    assert_eq!(filter_lines(&lines, &"BGP".to_string()), vec![0, 2]);
    assert_eq!(filter_lines(&lines, &String::new()), vec![0, 1, 2]);
    assert_eq!(filter_lines(&lines, &"zzz".to_string()), Vec::<usize>::new());
}

#[test]
fn peer_and_route_filters() {
    let s = parse_bgp_summary_at(
        "BGP router identifier 10.0.0.1, local AS number 65001\n\
         10.0.0.2        4 65002     100     200       42    0    0 01:02:03        5\n\
         10.0.0.3        4 65001      10      20       42    0    0 never    Active\n",
        0,
    );
    assert_eq!(filter_peers(&s.peers, &"active".to_string()), vec![1]);
    assert_eq!(filter_peers(&s.peers, &"IBGP".to_string()), vec![1]);
    assert_eq!(filter_peers(&s.peers, &"65002".to_string()), vec![0]);
    assert_eq!(filter_peers(&s.peers, &"10.0.0".to_string()), vec![0, 1]);
    let r = BgpRoute {
        status: RouteStatus::Valid,
        network: "192.168.0.0/16".into(),
        next_hop: "10.0.0.2".into(),
        metric: None,
        local_pref: None,
        weight: 0,
        as_path: vec![65002, 174],
        origin: RouteOrigin::Incomplete,
        communities: vec!["NO-EXPORT".into()],
    };
    let routes = vec![r];
    assert_eq!(filter_routes(&routes, &"no-export".to_string()), vec![0]);
    assert_eq!(filter_routes(&routes, &"65002 174".to_string()), vec![0]);
    assert_eq!(filter_routes(&routes, &"?".to_string()), vec![0]);
    assert_eq!(filter_routes(&routes, &"10.1".to_string()), Vec::<usize>::new());
}

#[test]
fn selection_follows_filter() {
    assert_eq!(keep_selection(Some(5), 3), Some(0));
    assert_eq!(keep_selection(Some(5), 0), None);
    assert_eq!(keep_selection(Some(1), 3), Some(1));
    assert_eq!(keep_selection(None, 3), Some(0));
    assert_eq!(keep_selection(None, 0), None);
}

#[test]
fn vendor_names_and_cycle() {
    let all = [
        RouterVendor::Cisco,
        RouterVendor::VyOs,
        RouterVendor::CitrixVpx,
        RouterVendor::PfSense,
        RouterVendor::FortiGate,
        RouterVendor::A10,
    ];
    for v in all {
        assert_eq!(RouterVendor::from_text(v.label()), v);
        let mut w = v;
        for _ in 0..6 {
            w = w.cycled();
        }
        assert_eq!(w, v);
        assert_ne!(v.cycled(), v);
    }
    assert_eq!(RouterVendor::Cisco.cycled(), RouterVendor::VyOs);
    assert_eq!(RouterVendor::A10.cycled(), RouterVendor::Cisco);
}

#[test]
fn toggling_membership_twice_restores() {
    let mut ids: Vec<u128> = vec![3, 1, 2];
    toggle_member(&mut ids, 1);
    assert_eq!(ids, vec![3, 2]);
    toggle_member(&mut ids, 1);
    assert_eq!(ids, vec![3, 2, 1]);
    toggle_member(&mut ids, 9);
    toggle_member(&mut ids, 9);
    assert_eq!(ids, vec![3, 2, 1]);
}

#[test]
fn empty_filter_keeps_every_line() {
    let lines: Vec<String> = vec!["a".into(), "b".into(), "c".into()];
    assert_eq!(filter_lines(&lines, &String::new()), vec![0, 1, 2]);
    assert_eq!(filter_lines(&lines, &"B".to_string()), vec![1]);
    assert_eq!(keep_selection(Some(5), 3), Some(0));
    assert_eq!(keep_selection(Some(2), 3), Some(2));
    assert_eq!(keep_selection(None, 3), Some(0));
    assert_eq!(keep_selection(Some(1), 0), None);
}

use std::collections::VecDeque;

use bgp_link_manager::app::bgp_updates::{
    bgp_update_action, change_message, change_status_line, config_nav, peer_changes,
    route_update_action, routes_eq, ConfigNav, Transition, UpdateAction,
};
use bgp_link_manager::app::keys::{
    key_overflows_exec, nav_list_len, route_key, wrap_down, wrap_up, Command, FilterKind, KeyContext,
};
use bgp_link_manager::app::layout::{centered_inner, Area};
use bgp_link_manager::app::list_edit::Key;
use bgp_link_manager::app::monitor::{
    ping_outcome, push_bounded, push_log, PingStats, Ticker, LOG_CAPACITY, PING_HISTORY_LEN,
};
use bgp_link_manager::app::neighbor_wizard::{
    apply_description, delete_key, neighbor_diff, NeighborWizard, WizardEffect,
};
use bgp_link_manager::app::notices::{
    applied_messages, failed_messages, fetch_failure, health_message, join_names,
    strip_prefix_or_keep, warm_message,
};
use bgp_link_manager::app::peers::{
    clone_description, clone_local_as, detach_draft, draft_from_peer, find_draft, mtu_state,
    remove_desired, routes_for_view, selected_peer, shutdown_choice, shutdown_message,
    upsert_desired, ShutdownChoice,
};
use bgp_link_manager::app::projects::{
    find_project, project_name_input, select_after_delete, upsert_router, visible_routers,
};
use bgp_link_manager::app::types::{
    ActiveTab, FilterMode, ProjectEditorMode, WizardMode, WizardStep,
};
use bgp_link_manager::bgp::parsers::parse_bgp_summary_at;
use bgp_link_manager::bgp::types::{
    BgpPeer, BgpRoute, BgpState, MtuProbeState, PeerRouteDirection, RouteOrigin, RouteStatus,
};
use bgp_link_manager::bgp::NeighborDraft;
use bgp_link_manager::net::IpAddress;
use bgp_link_manager::router::{ConnectionStatus, Project, RouterConfig};

fn s(x: &str) -> String {
    x.to_string()
}

fn peers(text: &str) -> Vec<BgpPeer> {
    parse_bgp_summary_at(text, 0).peers
}

const TWO_PEERS: &str = "BGP router identifier 10.0.0.1, local AS number 65001\n\
    10.0.0.2        4 65002     100     200       42    0    0 01:02:03        5\n\
    10.0.0.3        4 65001      10      20       42    0    0 never    Active\n";

// ─── Notices ─────────────────────────────────────────────────────────────────

#[test]
fn warm_and_health_messages() {
    assert_eq!(warm_message(3, &vec![]), "SSH ready: all 3 routers connected");
    assert_eq!(
        warm_message(2, &vec![s("r1"), s("r2")]),
        "SSH warm: 2 OK, 2 failed (r1, r2)"
    );
    assert_eq!(join_names(&vec![s("a")]), "a");
    assert_eq!(join_names(&vec![]), "");
    assert_eq!(health_message(4, 0, &vec![]), None);
    assert_eq!(
        health_message(4, 1, &vec![]).as_deref(),
        Some("SSH health: 4 healthy, 1 re-warmed")
    );
    assert_eq!(
        health_message(3, 0, &vec![s("core")]).as_deref(),
        Some("SSH health: 3 healthy, 0 re-warmed, 1 dead (core)")
    );
}

#[test]
fn fetch_and_apply_messages() {
    assert_eq!(strip_prefix_or_keep(&s("SSH error: timeout"), "SSH error: "), "timeout");
    assert_eq!(strip_prefix_or_keep(&s("timeout"), "SSH error: "), "timeout");
    let (line, status) = fetch_failure(&s("edge"), &s("SSH error: connection refused\nmore"));
    assert_eq!(line, "edge: fetch failed \u{2014} SSH error: connection refused");
    assert_eq!(status, "connection refused");
    let long = "x".repeat(90);
    let (line, status) = fetch_failure(&s("r"), &long);
    assert_eq!(line, format!("r: fetch failed \u{2014} {}\u{2026}", "x".repeat(79)));
    assert_eq!(status, format!("{}\u{2026}", "x".repeat(49)));
    let (a, b) = applied_messages(&s("Create neighbor x"));
    assert_eq!(a, "Config applied: Create neighbor x");
    assert_eq!(b, "Successfully applied: Create neighbor x");
    let (a, b, c) = failed_messages(&s("d"), &s("e"));
    assert_eq!(a, "Config FAILED (d): e");
    assert_eq!(b, "Config failed: d");
    assert_eq!(c, "Failed: e");
}

// ─── BGP updates ─────────────────────────────────────────────────────────────

#[test]
fn peer_state_changes_are_reported() {
    let old = peers(TWO_PEERS);
    let new = peers(
        "BGP router identifier 10.0.0.1, local AS number 65001\n\
         10.0.0.2        4 65002     100     200       42    0    0 00:00:01    Idle\n\
         10.0.0.3        4 65001      10      20       42    0    0 00:00:09        7\n",
    );
    let changes = peer_changes(&old, &new);
    assert_eq!(changes.len(), 2);
    assert_eq!(changes[0].ip, IpAddress::V4(10, 0, 0, 2));
    assert!(matches!(changes[0].kind, Transition::Down));
    assert!(matches!(changes[1].kind, Transition::Up));
    assert_eq!(
        change_message(&s("edge"), &changes[0]),
        "[edge] Peer 10.0.0.2 \u{25bc} DOWN: Established \u{2192} Idle"
    );
    assert_eq!(
        change_status_line(&s("edge"), &changes[0]).as_deref(),
        Some("\u{26a0} PEER DOWN: 10.0.0.2 on edge")
    );
    assert_eq!(
        change_status_line(&s("edge"), &changes[1]).as_deref(),
        Some("\u{2713} Peer 10.0.0.3 on edge is Established")
    );
    assert!(peer_changes(&old, &old).is_empty());
}

#[test]
fn update_actions() {
    assert_eq!(bgp_update_action(false, true, false), UpdateAction::Ignore);
    assert_eq!(bgp_update_action(true, false, false), UpdateAction::Ignore);
    assert_eq!(bgp_update_action(true, true, true), UpdateAction::Defer);
    assert_eq!(bgp_update_action(true, true, false), UpdateAction::Apply);
    assert_eq!(route_update_action(true, true, false), UpdateAction::Apply);
    assert_eq!(route_update_action(false, true, false), UpdateAction::Ignore);
}

fn route(net: &str) -> BgpRoute {
    BgpRoute {
        status: RouteStatus::Best,
        network: s(net),
        next_hop: s("10.0.0.2"),
        metric: Some(0),
        local_pref: None,
        weight: 0,
        as_path: vec![65002],
        origin: RouteOrigin::Igp,
        communities: vec![],
    }
}

#[test]
fn route_lists_compare_by_content() {
    assert!(routes_eq(&vec![route("10.0.0.0/8")], &vec![route("10.0.0.0/8")]));
    assert!(!routes_eq(&vec![route("10.0.0.0/8")], &vec![route("10.0.0.0/9")]));
    assert!(!routes_eq(&vec![route("10.0.0.0/8")], &vec![]));
}

#[test]
fn config_navigation_follows_policy_names() {
    match config_nav(" neighbor 10.0.0.2 prefix-list PL-IN in", &None) {
        ConfigNav::PrefixList(n) => assert_eq!(n, "PL-IN"),
        other => panic!("{:?}", other),
    }
    match config_nav("route-map RM-OUT permit 10", &None) {
        ConfigNav::RouteMap(n) => assert_eq!(n, "RM-OUT"),
        other => panic!("{:?}", other),
    }
    assert!(matches!(
        config_nav("route-map RM-OUT permit 10", &Some(s("RM-OUT"))),
        ConfigNav::SameRouteMap
    ));
    assert!(matches!(config_nav("interface Gi0/0", &Some(s("X"))), ConfigNav::NoPolicy));
}

// ─── Monitor ─────────────────────────────────────────────────────────────────

#[test]
fn ticker_pings_every_25_ticks_and_refreshes_every_150() {
    let mut t = Ticker::new();
    let mut pings = 0;
    let mut refreshes = 0;
    for _ in 0..300 {
        let a = t.tick(false);
        pings += a.ping as u32;
        refreshes += a.refresh_all as u32;
    }
    assert_eq!(pings, 12);
    assert_eq!(refreshes, 2);
    assert_eq!(t.tick_counter, 300);
    let mut t = Ticker::new();
    for _ in 0..300 {
        assert!(!t.tick(true).refresh_all);
    }
}

#[test]
fn ping_outcomes() {
    let o = ping_outcome(None, true);
    assert!(o.connected && o.changed && o.came_online);
    let o = ping_outcome(Some(&ConnectionStatus::Connected), true);
    assert!(o.connected && !o.changed && !o.came_online);
    let o = ping_outcome(Some(&ConnectionStatus::Connected), false);
    assert!(!o.connected && o.changed && !o.came_online);
    let o = ping_outcome(Some(&ConnectionStatus::Error(s("x"))), false);
    assert!(o.changed);
    let o = ping_outcome(Some(&ConnectionStatus::Disconnected), false);
    assert!(!o.changed);
    assert!(ConnectionStatus::Connected.is_connected());
    assert!(!ConnectionStatus::Error(s("e")).is_connected());
}

#[test]
fn ping_history_keeps_the_last_thirty() {
    let mut p = PingStats::new();
    for i in 0..40u64 {
        p.record(if i % 4 == 0 { None } else { Some(i) }, i as i64);
    }
    assert_eq!(p.history.len(), PING_HISTORY_LEN);
    assert_eq!(p.history[0], Some(10));
    assert_eq!(p.last_rtt, Some(39));
    assert_eq!(p.last_probe, Some(39));
    assert_eq!(p.failure_count(), 7);
}

#[test]
fn log_is_bounded() {
    let mut log: Vec<String> = Vec::new();
    assert_eq!(push_log(&mut log, "12:00:00", "first"), 0);
    assert_eq!(log[0], "[12:00:00] first");
    for i in 0..LOG_CAPACITY {
        push_log(&mut log, "t", &i.to_string());
    }
    assert_eq!(log.len(), LOG_CAPACITY);
    assert_eq!(log[0], "[t] 0");
    let mut h: VecDeque<u32> = VecDeque::new();
    for i in 0..5 {
        push_bounded(&mut h, i, 3);
    }
    assert_eq!(h, VecDeque::from(vec![2, 3, 4]));
}

// ─── Peers ───────────────────────────────────────────────────────────────────

#[test]
fn peer_selection_and_drafts() {
    let ps = peers(TWO_PEERS);
    assert_eq!(selected_peer(Some(0), &vec![1], 2), Some(1));
    assert_eq!(selected_peer(Some(1), &vec![1], 2), None);
    assert_eq!(selected_peer(None, &vec![0, 1], 2), None);
    let d = draft_from_peer(&ps[0], Some(9));
    assert_eq!(d.neighbor_ip, "10.0.0.2");
    assert_eq!(d.remote_as, "65002");
    assert_eq!(d.router_id, Some(9));
    assert_eq!(d.hold_time, ps[0].hold_time.to_string());

    let mut e = d.clone();
    e.id = Some(3);
    e.created_at = Some(1);
    detach_draft(&mut e);
    assert_eq!(e.id, None);
    assert_eq!(e.router_id, None);
    assert_eq!(e.created_at, None);

    let mut ds: Vec<NeighborDraft> = Vec::new();
    upsert_desired(&mut ds, d.clone());
    let mut d2 = d.clone();
    d2.description = s("changed");
    upsert_desired(&mut ds, d2);
    assert_eq!(ds.len(), 1);
    assert_eq!(ds[0].description, "changed");
    let ip: Vec<char> = "10.0.0.2".chars().collect();
    assert_eq!(find_draft(&ds, &ip), Some(0));
    remove_desired(&mut ds, &ip);
    assert!(ds.is_empty());
    assert_eq!(find_draft(&ds, &ip), None);
}

#[test]
fn shutdown_and_clone_helpers() {
    assert_eq!(shutdown_choice(None, true), ShutdownChoice::UnknownLocalAs);
    assert_eq!(shutdown_choice(Some(0), true), ShutdownChoice::UnknownLocalAs);
    assert_eq!(shutdown_choice(Some(65001), true), ShutdownChoice::Shutdown);
    assert_eq!(shutdown_choice(Some(65001), false), ShutdownChoice::NoShutdown);
    let ip = IpAddress::V4(192, 0, 2, 1);
    assert_eq!(shutdown_message(ShutdownChoice::Shutdown, &ip), "Shutdown neighbor 192.0.2.1");
    assert_eq!(
        shutdown_message(ShutdownChoice::NoShutdown, &ip),
        "No-shutdown neighbor 192.0.2.1"
    );
    assert_eq!(
        shutdown_message(ShutdownChoice::UnknownLocalAs, &ip),
        "Cannot toggle shutdown: unknown local AS"
    );
    assert_eq!(clone_local_as(Some(1), Some(2)), 1);
    assert_eq!(clone_local_as(None, Some(2)), 2);
    assert_eq!(clone_local_as(None, None), 0);
    assert_eq!(clone_description(&s("10.0.0.2"), &s("core")), "Clone neighbor 10.0.0.2 to core");
    assert!(routes_for_view(&ip, PeerRouteDirection::Received, &ip, PeerRouteDirection::Received));
    assert!(!routes_for_view(&ip, PeerRouteDirection::Received, &ip, PeerRouteDirection::Advertised));
    assert!(matches!(mtu_state(1500), MtuProbeState::Succeeded(1500)));
    assert!(matches!(mtu_state(1400), MtuProbeState::Degraded(1400)));
    match mtu_state(0) {
        MtuProbeState::Failed(m) => assert_eq!(m, "all probes failed"),
        other => panic!("{:?}", other),
    }
}

// ─── Projects ────────────────────────────────────────────────────────────────

fn router(id: u128, name: &str) -> RouterConfig {
    let mut r = RouterConfig::default();
    r.id = id;
    r.name = s(name);
    r
}

#[test]
fn router_lists_and_projects() {
    let mut rs = vec![router(1, "a"), router(2, "b")];
    assert!(upsert_router(&mut rs, router(2, "b2")));
    assert!(!upsert_router(&mut rs, router(3, "c")));
    assert_eq!(rs.iter().map(|r| r.name.clone()).collect::<Vec<_>>(), vec!["a", "b2", "c"]);
    let vis = visible_routers(&rs, Some(&vec![3, 1]));
    assert_eq!(vis.iter().map(|r| r.id).collect::<Vec<_>>(), vec![1, 3]);
    assert_eq!(visible_routers(&rs, None).len(), 3);
    assert_eq!(select_after_delete(1, 3), Some(1));
    assert_eq!(select_after_delete(5, 3), Some(2));
    assert_eq!(select_after_delete(0, 0), None);
    let ps = vec![
        Project { id: 7, name: s("p"), router_ids: vec![] },
        Project { id: 8, name: s("q"), router_ids: vec![1] },
    ];
    assert_eq!(find_project(&ps, 8), Some(1));
    assert_eq!(find_project(&ps, 9), None);
    assert_eq!(project_name_input("  lab  ").as_deref(), Some("lab"));
    assert_eq!(project_name_input("   "), None);
}

// ─── Keys ────────────────────────────────────────────────────────────────────

fn ctx(tab: ActiveTab) -> KeyContext {
    KeyContext {
        tab,
        confirm_pending: false,
        show_history: false,
        history_selected: None,
        history_len: 0,
        show_help: false,
        cloning: false,
        clone_target: None,
        all_routers_len: 0,
        router_editing: false,
        wizard_open: false,
        project_popup: false,
        project_mode: ProjectEditorMode::Browse,
        projects_len: 0,
        project_selected: None,
        toggle_selected: None,
        filter_mode: FilterMode::Off,
        filter_empty: true,
        peer_view_open: false,
        peer_view_direction: PeerRouteDirection::Received,
        peer_routes_len: 0,
        peer_route_selected: None,
        has_pending_update: false,
        routemap_shown: false,
        detail_scroll: 0,
        list_len: 0,
        list_selected: None,
    }
}

#[test]
fn navigation_wraps() {
    assert_eq!(wrap_up(Some(0), 3), 2);
    assert_eq!(wrap_up(None, 3), 2);
    assert_eq!(wrap_up(Some(2), 3), 1);
    assert_eq!(wrap_down(Some(2), 3), 0);
    assert_eq!(wrap_down(None, 3), 0);
    assert_eq!(wrap_down(Some(0), 3), 1);
    assert_eq!(nav_list_len(ActiveTab::Dashboard, FilterMode::Off, 1, 2, 5), 5);
    assert_eq!(nav_list_len(ActiveTab::Peers, FilterMode::Off, 1, 2, 5), 1);
    assert_eq!(nav_list_len(ActiveTab::Logs, FilterMode::Off, 1, 2, 5), 2);
    assert_eq!(nav_list_len(ActiveTab::Logs, FilterMode::Active, 1, 2, 5), 1);
}

#[test]
fn keys_map_to_commands() {
    let c = ctx(ActiveTab::Peers);
    assert_eq!(route_key(&c, Key::Char('q'), false), Command::Quit);
    assert_eq!(route_key(&c, Key::Char('c'), true), Command::Quit);
    assert_eq!(route_key(&c, Key::Char('c'), false), Command::CloneNeighbor);
    assert_eq!(route_key(&c, Key::Tab, false), Command::SwitchTab(ActiveTab::Routes, false, false));
    assert_eq!(route_key(&c, Key::Char('3'), false), Command::SwitchTab(ActiveTab::Routes, false, true));
    assert_eq!(route_key(&c, Key::Char('4'), false), Command::SwitchTab(ActiveTab::Config, false, false));
    assert_eq!(route_key(&c, Key::Char('/'), false), Command::FilterStart(FilterKind::Peers));
    assert_eq!(route_key(&c, Key::Up, false), Command::Nothing);
    let c2 = KeyContext { list_len: 4, list_selected: Some(0), ..c };
    assert_eq!(route_key(&c2, Key::Up, false), Command::Navigate(3));
    assert_eq!(route_key(&c2, Key::Char('j'), false), Command::Navigate(1));
    let cfg = KeyContext { has_pending_update: true, ..ctx(ActiveTab::Config) };
    assert_eq!(route_key(&cfg, Key::Char('y'), false), Command::AcceptUpdate);
    assert_eq!(route_key(&cfg, Key::Char('1'), false), Command::SwitchTab(ActiveTab::Dashboard, true, true));
    let confirm = KeyContext { confirm_pending: true, ..c };
    assert_eq!(route_key(&confirm, Key::Enter, false), Command::ConfirmExecute);
    assert_eq!(route_key(&confirm, Key::Char('q'), false), Command::Nothing);
    let typing = KeyContext { filter_mode: FilterMode::Typing, filter_empty: false, ..c };
    assert_eq!(route_key(&typing, Key::Char('q'), false), Command::FilterPush(FilterKind::Peers, 'q'));
    assert_eq!(
        route_key(&typing, Key::Enter, false),
        Command::FilterDone(FilterKind::Peers, FilterMode::Active)
    );
    let wiz = KeyContext { wizard_open: true, ..c };
    assert_eq!(route_key(&wiz, Key::Char('q'), false), Command::WizardKey);
    let over = KeyContext { list_len: 2, list_selected: Some(usize::MAX), ..c };
    assert!(key_overflows_exec(&over, Key::Down));
    assert!(!key_overflows_exec(&over, Key::Up));
}

// ─── Neighbor wizard ─────────────────────────────────────────────────────────

#[test]
fn neighbor_wizard_flow() {
    let mut w = NeighborWizard::open_create();
    assert_eq!(w.step, WizardStep::Fields);
    for c in "10.0.0.9".chars() {
        assert_eq!(w.handle_key(Key::Char(c)), WizardEffect::Stay);
    }
    assert_eq!(w.handle_key(Key::Tab), WizardEffect::Stay);
    assert_eq!(w.field, 1);
    for c in "65009".chars() {
        w.handle_key(Key::Char(c));
    }
    assert_eq!(w.handle_key(Key::Enter), WizardEffect::Stay);
    assert_eq!(
        w.error.as_deref(),
        Some("Description is required (drives naming convention)")
    );
    w.handle_key(Key::Tab);
    assert_eq!(w.field, 2);
    for c in "uplink".chars() {
        w.handle_key(Key::Char(c));
    }
    assert_eq!(w.handle_key(Key::Enter), WizardEffect::Preview);
    assert!(w.error.is_none());
    assert_eq!(w.step, WizardStep::Review);
    let d = w.draft.clone().unwrap();
    assert_eq!(d.neighbor_ip, "10.0.0.9");
    assert_eq!(d.remote_as, "65009");
    assert_eq!(w.handle_key(Key::Enter), WizardEffect::Apply);
    assert_eq!(w.handle_key(Key::Esc), WizardEffect::Stay);
    assert_eq!(w.step, WizardStep::Fields);
    assert_eq!(w.handle_key(Key::Esc), WizardEffect::Close);
    assert!(w.draft.is_none());
    assert!(!w.key_overflows(Key::Enter));
}

#[test]
fn neighbor_wizard_rejects_invalid_draft() {
    let mut w = NeighborWizard::open_create();
    assert_eq!(w.handle_key(Key::Enter), WizardEffect::Stay);
    assert_eq!(w.step, WizardStep::Fields);
    assert!(w.error.is_some());
}

#[test]
fn delete_confirmation_and_texts() {
    assert_eq!(delete_key(WizardStep::Review, Key::Char('y')), WizardEffect::Apply);
    assert_eq!(delete_key(WizardStep::Review, Key::Char('n')), WizardEffect::Close);
    assert_eq!(delete_key(WizardStep::Review, Key::Char('x')), WizardEffect::Stay);
    assert_eq!(delete_key(WizardStep::Result(true), Key::Enter), WizardEffect::Close);
    assert_eq!(delete_key(WizardStep::Applying, Key::Enter), WizardEffect::Stay);
    let (d, a) = apply_description(&WizardMode::NeighborCreate, &s("10.0.0.9")).unwrap();
    assert_eq!(d, "Create neighbor 10.0.0.9");
    assert_eq!(a, "neighbor_create");
    let (d, a) =
        apply_description(&WizardMode::NeighborDelete(IpAddress::V4(10, 0, 0, 9)), &s("")).unwrap();
    assert_eq!(d, "Delete neighbor 10.0.0.9");
    assert_eq!(a, "neighbor_delete");
    let (d, _) = apply_description(&WizardMode::PrefixListEdit(s("PL")), &s("")).unwrap();
    assert_eq!(d, "Update prefix-list PL");
    assert!(apply_description(&WizardMode::Closed, &s("")).is_none());
}

#[test]
fn neighbor_diff_lists_changed_fields() {
    let mut a = NeighborDraft::default();
    a.neighbor_ip = s("10.0.0.1");
    a.remote_as = s("65001");
    let mut b = a.clone();
    b.remote_as = s("65002");
    b.bfd = true;
    let diff = neighbor_diff(&a, &b);
    assert_eq!(
        diff,
        vec![
            (s("Remote AS"), s("65001 \u{2192} 65002")),
            (s("BFD"), s("No \u{2192} Yes")),
        ]
    );
    assert!(neighbor_diff(&a, &a).is_empty());
    let w = NeighborWizard::open_edit(b);
    assert_eq!(w.buf, "10.0.0.1");
}

#[test]
fn bgp_state_roundtrip_text() {
    assert_eq!(BgpState::from_str("Established").as_str(), "Established");
}

#[test]
fn ping_extremes_ignore_lost_probes() {
    let mut p = PingStats::new();
    assert_eq!(p.max_rtt_nanos(), None);
    assert_eq!(p.min_rtt_nanos(), None);
    for r in [Some(5_000_000u64), None, Some(2_000_000), Some(9_000_000), None] {
        p.record(r, 0);
    }
    assert_eq!(p.max_rtt_nanos(), Some(9_000_000));
    assert_eq!(p.min_rtt_nanos(), Some(2_000_000));
    assert_eq!(p.failure_count(), 2);
}

#[test]
fn popup_area_shrinks_by_margins() {
    let a = Area { x: 2, y: 3, width: 80, height: 24 };
    assert_eq!(centered_inner(a, 4, 10), Area { x: 12, y: 7, width: 60, height: 16 });
    assert_eq!(centered_inner(a, 20, 50), Area { x: 52, y: 23, width: 0, height: 0 });
}

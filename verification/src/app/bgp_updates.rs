//! Fresh BGP data for a router: the peer state changes it shows, whether
//! the display takes it now, later or not at all, and what the selected
//! configuration line shows beside it.

use vstd::prelude::*;

use crate::app::helpers::{
    extract_prefixlist_name_from_line, extract_routemap_name_from_line, law_word_after_first,
    trim_end_char, word_after,
};
use crate::bgp::types::{
    peer_same, state_label, BgpPeer, BgpRoute, BgpState, BgpStateModel, BgpSummary,
};
use crate::net::{ip_text, IpAddress};
use crate::text::{append_chars, chars_of, opt_view, string_of, strings_eq, words};

verus! {

// ─── Peer state changes ──────────────────────────────────────────────────────

/// How a peer's state changed.
#[derive(Debug, Clone, Copy, PartialEq, Eq, Structural)]
pub enum Transition {
    /// It left `Established`.
    Down,
    /// It reached `Established`.
    Up,
    /// Another change.
    Change,
}

pub open spec fn transition_of(old: BgpStateModel, new: BgpStateModel) -> Transition {
    if old is Established && !(new is Established) {
        Transition::Down
    } else if !(old is Established) && new is Established {
        Transition::Up
    } else {
        Transition::Change
    }
}

/// A peer whose state changed between two fetches.
#[derive(Debug, Clone)]
pub struct PeerChange {
    pub ip: IpAddress,
    pub old_state: BgpState,
    pub new_state: BgpState,
    pub kind: Transition,
}

pub struct PeerChangeModel {
    pub ip: IpAddress,
    pub old_state: BgpStateModel,
    pub new_state: BgpStateModel,
    pub kind: Transition,
}

impl View for PeerChange {
    type V = PeerChangeModel;

    open spec fn view(&self) -> PeerChangeModel {
        PeerChangeModel {
            ip: self.ip,
            old_state: self.old_state@,
            new_state: self.new_state@,
            kind: self.kind,
        }
    }
}

/// The first earlier peer with this address.
pub open spec fn peer_at(ps: Seq<BgpPeer>, ip: IpAddress, i: int) -> Option<int>
    decreases ps.len() - i,
{
    if i < 0 || i >= ps.len() {
        None
    } else if ps[i].neighbor_ip == ip {
        Some(i)
    } else {
        peer_at(ps, ip, i + 1)
    }
}

/// The state changes, in the order of the new peers: each new peer against
/// the first earlier peer with its address, when the states differ.
pub open spec fn peer_changes_of(old: Seq<BgpPeer>, new: Seq<BgpPeer>) -> Seq<PeerChangeModel>
    decreases new.len(),
{
    if new.len() == 0 {
        seq![]
    } else {
        let rest = peer_changes_of(old, new.drop_last());
        let p = new.last();
        match peer_at(old, p.neighbor_ip, 0) {
            Some(j) => {
                let o = old[j].state@;
                if o != p.state@ {
                    rest.push(
                        PeerChangeModel {
                            ip: p.neighbor_ip,
                            old_state: o,
                            new_state: p.state@,
                            kind: transition_of(o, p.state@),
                        },
                    )
                } else {
                    rest
                }
            },
            None => rest,
        }
    }
}

fn find_peer(ps: &Vec<BgpPeer>, ip: &IpAddress) -> (r: Option<usize>)
    ensures
        r matches Some(j) ==> peer_at(ps@, *ip, 0) == Some(j as int) && j < ps.len(),
        r is None ==> peer_at(ps@, *ip, 0) is None,
{
    let mut i: usize = 0;
    while i < ps.len()
        invariant
            i <= ps.len(),
            peer_at(ps@, *ip, 0) == peer_at(ps@, *ip, i as int),
        decreases ps.len() - i,
    {
        if ps[i].neighbor_ip == *ip {
            return Some(i);
        }
        i = i + 1;
    }
    None
}

fn transition(old: &BgpState, new: &BgpState) -> (r: Transition)
    ensures
        r == transition_of(old@, new@),
{
    if old.is_established() && !new.is_established() {
        Transition::Down
    } else if !old.is_established() && new.is_established() {
        Transition::Up
    } else {
        Transition::Change
    }
}

/// The peers whose state changed since the cached fetch.
pub fn peer_changes(old: &Vec<BgpPeer>, new: &Vec<BgpPeer>) -> (r: Vec<PeerChange>)
    ensures
        r@.map_values(|c: PeerChange| c@) == peer_changes_of(old@, new@),
        forall|j: int|
            0 <= j < r.len() ==> {
                &&& (r[j].kind == Transition::Down) <==> (r[j].old_state@ is Established && !(
                r[j].new_state@ is Established))
                &&& (r[j].kind == Transition::Up) <==> (!(r[j].old_state@ is Established)
                    && r[j].new_state@ is Established)
                &&& (r[j].kind == Transition::Change) <==> ((r[j].old_state@ is Established) == (
                r[j].new_state@ is Established))
            },
{
    let mut out: Vec<PeerChange> = Vec::new();
    let mut i: usize = 0;
    while i < new.len()
        invariant
            i <= new.len(),
            out@.map_values(|c: PeerChange| c@) == peer_changes_of(old@, new@.take(i as int)),
        decreases new.len() - i,
    {
        let p = &new[i];
        proof {
            assert(new@.take(i + 1).drop_last() =~= new@.take(i as int));
            assert(new@.take(i + 1).last() == new@[i as int]);
        }
        let ghost before = out@;
        match find_peer(old, &p.neighbor_ip) {
            Some(j) => {
                match p.state_changed_from(&old[j]) {
                    Some((o, n)) => {
                        let kind = transition(&o, &n);
                        let c = PeerChange { ip: p.neighbor_ip, old_state: o, new_state: n, kind };
                        let ghost cv = c@;
                        out.push(c);
                        assert(out@.map_values(|c: PeerChange| c@) =~= before.map_values(
                            |c: PeerChange| c@,
                        ).push(cv));
                    },
                    None => {},
                }
            },
            None => {},
        }
        i = i + 1;
    }
    assert(new@.take(new.len() as int) =~= new@);
    proof {
        assert forall|j: int| 0 <= j < out.len() implies {
            &&& (out[j].kind == Transition::Down) <==> (out[j].old_state@ is Established && !(
            out[j].new_state@ is Established))
            &&& (out[j].kind == Transition::Up) <==> (!(out[j].old_state@ is Established)
                && out[j].new_state@ is Established)
            &&& (out[j].kind == Transition::Change) <==> ((out[j].old_state@ is Established) == (
            out[j].new_state@ is Established))
        } by {
            assert(out@.map_values(|c: PeerChange| c@)[j] == out[j]@);
            law_peer_change_kinds(old@, new@, j);
        }
    }
    out
}

fn cat(a: Vec<char>, b: Vec<char>) -> (r: Vec<char>)
    ensures
        r@ == a@ + b@,
{
    let mut v = a;
    append_chars(&mut v, b);
    v
}

pub open spec fn transition_arrow(k: Transition) -> Seq<char> {
    match k {
        Transition::Down => "\u{25bc} DOWN"@,
        Transition::Up => "\u{25b2} UP"@,
        Transition::Change => "\u{2192}"@,
    }
}

/// "[ROUTER] Peer IP ARROW: OLD → NEW".
pub open spec fn change_line(router: Seq<char>, c: PeerChangeModel) -> Seq<char> {
    "["@ + router + "] Peer "@ + ip_text(c.ip) + " "@ + transition_arrow(c.kind) + ": "@
        + state_label(c.old_state) + " \u{2192} "@ + state_label(c.new_state)
}

pub fn change_message(router: &String, c: &PeerChange) -> (r: String)
    ensures
        r@ == change_line(router@, c@),
{
    let arrow = match c.kind {
        Transition::Down => "\u{25bc} DOWN",
        Transition::Up => "\u{25b2} UP",
        Transition::Change => "\u{2192}",
    };
    let v = cat(chars_of("["), chars_of(router.as_str()));
    let v = cat(v, chars_of("] Peer "));
    let v = cat(v, c.ip.text());
    let v = cat(v, chars_of(" "));
    let v = cat(v, chars_of(arrow));
    let v = cat(v, chars_of(": "));
    let v = cat(v, chars_of(c.old_state.as_str()));
    let v = cat(v, chars_of(" \u{2192} "));
    let v = cat(v, chars_of(c.new_state.as_str()));
    string_of(&v)
}

/// The status line a change sets: a warning when a peer went down, a
/// notice when one came up, none otherwise.
pub open spec fn change_status(router: Seq<char>, c: PeerChangeModel) -> Option<Seq<char>> {
    match c.kind {
        Transition::Down => Some(
            "\u{26a0} PEER DOWN: "@ + ip_text(c.ip) + " on "@ + router,
        ),
        Transition::Up => Some(
            "\u{2713} Peer "@ + ip_text(c.ip) + " on "@ + router + " is Established"@,
        ),
        Transition::Change => None,
    }
}

pub fn change_status_line(router: &String, c: &PeerChange) -> (r: Option<String>)
    ensures
        opt_view(r) == change_status(router@, c@),
{
    match c.kind {
        Transition::Down => {
            let v = cat(chars_of("\u{26a0} PEER DOWN: "), c.ip.text());
            let v = cat(v, chars_of(" on "));
            Some(string_of(&cat(v, chars_of(router.as_str()))))
        },
        Transition::Up => {
            let v = cat(chars_of("\u{2713} Peer "), c.ip.text());
            let v = cat(v, chars_of(" on "));
            let v = cat(v, chars_of(router.as_str()));
            Some(string_of(&cat(v, chars_of(" is Established"))))
        },
        Transition::Change => None,
    }
}

// ─── Taking fresh data ───────────────────────────────────────────────────────

/// What the display does with fresh data for a router.
#[derive(Debug, Clone, Copy, PartialEq, Eq, Structural)]
pub enum UpdateAction {
    /// Nothing to show (another router, or nothing changed).
    Ignore,
    /// Hold it back until the user accepts it.
    Defer,
    /// Show it now.
    Apply,
}

/// Fresh summary data: shown for the selected router when it changed, but
/// held back while the user reads a non-empty configuration.
pub open spec fn bgp_update_action_of(selected: bool, changed: bool, reading_config: bool) -> UpdateAction {
    if !selected || !changed {
        UpdateAction::Ignore
    } else if reading_config {
        UpdateAction::Defer
    } else {
        UpdateAction::Apply
    }
}

pub fn bgp_update_action(selected: bool, changed: bool, reading_config: bool) -> (r: UpdateAction)
    ensures
        r == bgp_update_action_of(selected, changed, reading_config),
{
    if !selected || !changed {
        UpdateAction::Ignore
    } else if reading_config {
        UpdateAction::Defer
    } else {
        UpdateAction::Apply
    }
}

/// Whether fresh summary data differs from the cached fetch (no cache:
/// it does).
pub open spec fn summary_changed_of(
    cached: Option<(BgpSummary, Seq<char>)>,
    new: BgpSummary,
    rendered: Seq<char>,
) -> bool {
    match cached {
        Some((s, cfg)) => {
            !(s.router_id == new.router_id && s.local_as == new.local_as && s.table_version
                == new.table_version && s.peers.len() == new.peers.len() && (forall|i: int|
                0 <= i < s.peers.len() ==> peer_same(#[trigger] s.peers@[i], new.peers@[i])))
                || cfg != rendered
        },
        None => true,
    }
}

pub fn summary_changed(
    cached: Option<(&BgpSummary, &String)>,
    new: &BgpSummary,
    rendered: &String,
) -> (r: bool)
    ensures
        r == summary_changed_of(
            match cached {
                Some((s, c)) => Some((*s, c@)),
                None => None,
            },
            *new,
            rendered@,
        ),
{
    match cached {
        Some((s, c)) => !s.content_eq(new) || !c.eq(rendered),
        None => true,
    }
}

/// Field-by-field equality of two routes (the derived `==`).
pub open spec fn route_same(a: BgpRoute, b: BgpRoute) -> bool {
    &&& a.status == b.status
    &&& a.network@ == b.network@
    &&& a.next_hop@ == b.next_hop@
    &&& a.metric == b.metric
    &&& a.local_pref == b.local_pref
    &&& a.weight == b.weight
    &&& a.as_path@ == b.as_path@
    &&& a.origin == b.origin
    &&& a.communities.deep_view() == b.communities.deep_view()
}

fn u32s_eq(a: &Vec<u32>, b: &Vec<u32>) -> (r: bool)
    ensures
        r == (a@ == b@),
{
    if a.len() != b.len() {
        return false;
    }
    let mut i: usize = 0;
    while i < a.len()
        invariant
            i <= a.len(),
            a.len() == b.len(),
            forall|k: int| 0 <= k < i ==> a@[k] == b@[k],
        decreases a.len() - i,
    {
        if a[i] != b[i] {
            return false;
        }
        i = i + 1;
    }
    assert(a@ =~= b@);
    true
}

pub fn route_eq(a: &BgpRoute, b: &BgpRoute) -> (r: bool)
    ensures
        r == route_same(*a, *b),
{
    a.status == b.status && a.network.eq(&b.network) && a.next_hop.eq(&b.next_hop) && a.metric
        == b.metric && a.local_pref == b.local_pref && a.weight == b.weight && u32s_eq(
        &a.as_path,
        &b.as_path,
    ) && a.origin == b.origin && strings_eq(&a.communities, &b.communities)
}

/// Two route tables are equal row by row.
pub open spec fn routes_same(a: Seq<BgpRoute>, b: Seq<BgpRoute>) -> bool {
    a.len() == b.len() && forall|i: int| 0 <= i < a.len() ==> route_same(#[trigger] a[i], b[i])
}

pub fn routes_eq(a: &Vec<BgpRoute>, b: &Vec<BgpRoute>) -> (r: bool)
    ensures
        r == routes_same(a@, b@),
{
    if a.len() != b.len() {
        return false;
    }
    let mut i: usize = 0;
    while i < a.len()
        invariant
            i <= a.len(),
            a.len() == b.len(),
            forall|k: int| 0 <= k < i ==> route_same(#[trigger] a@[k], b@[k]),
        decreases a.len() - i,
    {
        if !route_eq(&a[i], &b[i]) {
            return false;
        }
        i = i + 1;
    }
    true
}

/// Fresh route data: shown for the selected router when it changed, but
/// bundled with a held-back summary when there is one.
pub open spec fn route_update_action_of(selected: bool, changed: bool, pending: bool) -> UpdateAction {
    if !selected || !changed {
        UpdateAction::Ignore
    } else if pending {
        UpdateAction::Defer
    } else {
        UpdateAction::Apply
    }
}

pub fn route_update_action(selected: bool, changed: bool, pending: bool) -> (r: UpdateAction)
    ensures
        r == route_update_action_of(selected, changed, pending),
{
    if !selected || !changed {
        UpdateAction::Ignore
    } else if pending {
        UpdateAction::Defer
    } else {
        UpdateAction::Apply
    }
}

// ─── The selected configuration line ─────────────────────────────────────────

/// What the panel beside the configuration shows for the selected line.
#[derive(Debug, Clone)]
pub enum ConfigNav {
    /// The line names a prefix-list: show it (and no route-map).
    PrefixList(String),
    /// The line names another route-map than the one shown: show it.
    RouteMap(String),
    /// The line names the route-map already shown.
    SameRouteMap,
    /// The line names no policy: show none.
    NoPolicy,
}

pub enum ConfigNavModel {
    PrefixList(Seq<char>),
    RouteMap(Seq<char>),
    SameRouteMap,
    NoPolicy,
}

impl View for ConfigNav {
    type V = ConfigNavModel;

    open spec fn view(&self) -> ConfigNavModel {
        match self {
            ConfigNav::PrefixList(n) => ConfigNavModel::PrefixList(n@),
            ConfigNav::RouteMap(n) => ConfigNavModel::RouteMap(n@),
            ConfigNav::SameRouteMap => ConfigNavModel::SameRouteMap,
            ConfigNav::NoPolicy => ConfigNavModel::NoPolicy,
        }
    }
}

/// A prefix-list on the line wins; else a route-map, new or the one shown.
pub open spec fn config_nav_of(line: Seq<char>, shown: Option<Seq<char>>) -> ConfigNavModel {
    match word_after(words(line), "prefix-list"@) {
        Some(p) => ConfigNavModel::PrefixList(trim_end_char(p, ':')),
        None => match word_after(words(line), "route-map"@) {
            Some(r) => {
                if shown == Some(r) {
                    ConfigNavModel::SameRouteMap
                } else {
                    ConfigNavModel::RouteMap(r)
                }
            },
            None => ConfigNavModel::NoPolicy,
        },
    }
}

pub fn config_nav(line: &str, shown: &Option<String>) -> (r: ConfigNav)
    ensures
        r@ == config_nav_of(line@, opt_view(*shown)),
{
    match extract_prefixlist_name_from_line(line) {
        Some(p) => ConfigNav::PrefixList(p),
        None => match extract_routemap_name_from_line(line) {
            Some(r) => {
                let same = match shown {
                    Some(s) => s.eq(&r),
                    None => false,
                };
                if same {
                    ConfigNav::SameRouteMap
                } else {
                    ConfigNav::RouteMap(r)
                }
            },
            None => ConfigNav::NoPolicy,
        },
    }
}

/// A state change is a `Down` exactly when the peer left `Established`, an
/// `Up` exactly when it reached `Established`, and a plain `Change` exactly
/// when neither state, or both, is `Established`.
pub proof fn law_transition_classes(old: BgpStateModel, new: BgpStateModel)
    ensures
        (transition_of(old, new) == Transition::Down) <==> (old is Established && !(
        new is Established)),
        (transition_of(old, new) == Transition::Up) <==> (!(old is Established)
            && new is Established),
        (transition_of(old, new) == Transition::Change) <==> ((old is Established) == (
        new is Established)),
{
}

/// Each reported change carries the kind of its own two states.
proof fn lemma_peer_changes_kind(old: Seq<BgpPeer>, new: Seq<BgpPeer>)
    ensures
        forall|j: int|
            0 <= j < peer_changes_of(old, new).len() ==> (#[trigger] peer_changes_of(old, new)[j]).kind
                == transition_of(
                peer_changes_of(old, new)[j].old_state,
                peer_changes_of(old, new)[j].new_state,
            ),
    decreases new.len(),
{
    if new.len() > 0 {
        lemma_peer_changes_kind(old, new.drop_last());
    }
}

/// Every change that the peer comparison reports is classed by its two
/// states: `Down` exactly when the old state is `Established` and the new one
/// is not, `Up` exactly when the new one is and the old one is not, `Change`
/// otherwise; and the two states differ.
pub proof fn law_peer_change_kinds(old: Seq<BgpPeer>, new: Seq<BgpPeer>, j: int)
    requires
        0 <= j < peer_changes_of(old, new).len(),
    ensures
        ({
            let c = peer_changes_of(old, new)[j];
            &&& (c.kind == Transition::Down) <==> (c.old_state is Established && !(
            c.new_state is Established))
            &&& (c.kind == Transition::Up) <==> (!(c.old_state is Established)
                && c.new_state is Established)
            &&& (c.kind == Transition::Change) <==> ((c.old_state is Established) == (
            c.new_state is Established))
            &&& c.old_state != c.new_state
        }),
{
    lemma_peer_changes_kind(old, new);
    let c = peer_changes_of(old, new)[j];
    law_transition_classes(c.old_state, c.new_state);
    lemma_peer_changes_differ(old, new, j);
}

/// Each reported change has two different states.
proof fn lemma_peer_changes_differ(old: Seq<BgpPeer>, new: Seq<BgpPeer>, j: int)
    requires
        0 <= j < peer_changes_of(old, new).len(),
    ensures
        peer_changes_of(old, new)[j].old_state != peer_changes_of(old, new)[j].new_state,
    decreases new.len(),
{
    let rest = peer_changes_of(old, new.drop_last());
    if j < rest.len() {
        lemma_peer_changes_differ(old, new.drop_last(), j);
    }
}

/// A reported change sets a status line exactly when the peer left or
/// reached `Established`: a warning when it left, a notice when it reached it.
pub proof fn law_change_status_alerts(router: Seq<char>, c: PeerChangeModel)
    requires
        c.kind == transition_of(c.old_state, c.new_state),
    ensures
        change_status(router, c) is Some <==> ((c.old_state is Established) != (
        c.new_state is Established)),
        (c.old_state is Established && !(c.new_state is Established)) ==> change_status(router, c)
            == Some("\u{26a0} PEER DOWN: "@ + ip_text(c.ip) + " on "@ + router),
        (!(c.old_state is Established) && c.new_state is Established) ==> change_status(router, c)
            == Some("\u{2713} Peer "@ + ip_text(c.ip) + " on "@ + router + " is Established"@),
{
}

/// Fetched data that equals the cached fetch, with the same rendered
/// configuration, is no change; data with another table version, another
/// number of peers or another rendered configuration is one, as is any data
/// without a cache.
pub proof fn law_summary_changed(s: BgpSummary, cfg: Seq<char>, new: BgpSummary, rendered: Seq<char>)
    ensures
        !summary_changed_of(Some((s, cfg)), s, cfg),
        (s.table_version != new.table_version || s.peers.len() != new.peers.len() || cfg
            != rendered) ==> summary_changed_of(Some((s, cfg)), new, rendered),
        summary_changed_of(None, new, rendered),
{
    assert forall|i: int| 0 <= i < s.peers.len() implies peer_same(
        #[trigger] s.peers@[i],
        s.peers@[i],
    ) by {}
}

/// Fresh data is shown or held back only for the selected router and only
/// when it changed; summary data is held back exactly while the user reads
/// the configuration, route data exactly while a summary is held back.
pub proof fn law_update_actions(selected: bool, changed: bool, other: bool)
    ensures
        (bgp_update_action_of(selected, changed, other) == UpdateAction::Ignore) <==> !(selected
            && changed),
        (bgp_update_action_of(selected, changed, other) == UpdateAction::Defer) <==> (selected
            && changed && other),
        (route_update_action_of(selected, changed, other) == UpdateAction::Ignore) <==> !(selected
            && changed),
        (route_update_action_of(selected, changed, other) == UpdateAction::Defer) <==> (selected
            && changed && other),
{
}

/// The panel follows the policy that the selected line names: where the
/// first `prefix-list` word of the line is followed by a name, that
/// prefix-list (without trailing colons); where the line has no such word
/// and its first `route-map` word is followed by a name, that route-map, or
/// no new one when it is the one shown; and nothing on a line without either
/// word. A route-map that it asks to show is never the one shown.
pub proof fn law_config_nav_follows_line(line: Seq<char>, shown: Option<Seq<char>>, p: int)
    ensures
        ({
            let ws = words(line);
            &&& (0 <= p < ws.len() - 1 && ws[p] == "prefix-list"@ && (forall|q: int|
                0 <= q < p ==> #[trigger] ws[q] != "prefix-list"@)) ==> config_nav_of(line, shown)
                == ConfigNavModel::PrefixList(trim_end_char(ws[p + 1], ':'))
            &&& ((forall|q: int| 0 <= q < ws.len() ==> #[trigger] ws[q] != "prefix-list"@) && 0
                <= p < ws.len() - 1 && ws[p] == "route-map"@ && (forall|q: int|
                0 <= q < p ==> #[trigger] ws[q] != "route-map"@)) ==> config_nav_of(line, shown)
                == if shown == Some(ws[p + 1]) {
                ConfigNavModel::SameRouteMap
            } else {
                ConfigNavModel::RouteMap(ws[p + 1])
            }
            &&& ((forall|q: int| 0 <= q < ws.len() ==> #[trigger] ws[q] != "prefix-list"@) && (
            forall|q: int| 0 <= q < ws.len() ==> #[trigger] ws[q] != "route-map"@))
                ==> config_nav_of(line, shown) == ConfigNavModel::NoPolicy
            &&& config_nav_of(line, shown) matches ConfigNavModel::RouteMap(r) ==> shown != Some(r)
        }),
{
    let ws = words(line);
    law_word_after_first(ws, "prefix-list"@);
    law_word_after_first(ws, "route-map"@);
}

} // verus!

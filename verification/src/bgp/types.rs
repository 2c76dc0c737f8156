//! BGP session and route models.

use vstd::prelude::*;

use crate::net::IpAddress;
use crate::text::{
    append_chars, chars_eq, chars_of, decimal, decimal_chars, is_ascii_text, is_ws,
    lemma_trim_unchanged, opt_string_eq, opt_view, string_of, strings_eq, text_lowercase,
    to_lowercase, trim, trim_chars,
};

verus! {

// ─── BGP Session State ────────────────────────────────────────────────────────

#[derive(Debug, Clone)]
pub enum BgpState {
    Idle,
    Connect,
    Active,
    OpenSent,
    OpenConfirm,
    Established,
    Unknown(String),
}

/// A session state as a mathematical value.
pub enum BgpStateModel {
    Idle,
    Connect,
    Active,
    OpenSent,
    OpenConfirm,
    Established,
    Unknown(Seq<char>),
}

impl View for BgpState {
    type V = BgpStateModel;

    open spec fn view(&self) -> BgpStateModel {
        match self {
            BgpState::Idle => BgpStateModel::Idle,
            BgpState::Connect => BgpStateModel::Connect,
            BgpState::Active => BgpStateModel::Active,
            BgpState::OpenSent => BgpStateModel::OpenSent,
            BgpState::OpenConfirm => BgpStateModel::OpenConfirm,
            BgpState::Established => BgpStateModel::Established,
            BgpState::Unknown(s) => BgpStateModel::Unknown(s@),
        }
    }
}

/// The state named by a router's text: trimmed, lower-cased, then matched
/// against the six state names; anything else is kept, normalised.
pub open spec fn state_from_text(s: Seq<char>) -> BgpStateModel {
    let t = text_lowercase(trim(s));
    if t == "idle"@ {
        BgpStateModel::Idle
    } else if t == "connect"@ {
        BgpStateModel::Connect
    } else if t == "active"@ {
        BgpStateModel::Active
    } else if t == "opensent"@ {
        BgpStateModel::OpenSent
    } else if t == "openconfirm"@ {
        BgpStateModel::OpenConfirm
    } else if t == "established"@ {
        BgpStateModel::Established
    } else {
        BgpStateModel::Unknown(t)
    }
}

/// The display label of a state.
pub open spec fn state_label(m: BgpStateModel) -> Seq<char> {
    match m {
        BgpStateModel::Idle => "Idle"@,
        BgpStateModel::Connect => "Connect"@,
        BgpStateModel::Active => "Active"@,
        BgpStateModel::OpenSent => "OpenSent"@,
        BgpStateModel::OpenConfirm => "OpenConfirm"@,
        BgpStateModel::Established => "Established"@,
        BgpStateModel::Unknown(s) => s,
    }
}

/// Parsing a state's label gives the state back: the six states by their
/// names, and an unknown state whose text is already trimmed and
/// lower-cased and is not one of the six names.
pub proof fn law_state_label_parses(m: BgpStateModel)
    requires
        m matches BgpStateModel::Unknown(u) ==> u == text_lowercase(trim(u)) && u != "idle"@ && u
            != "connect"@ && u != "active"@ && u != "opensent"@ && u != "openconfirm"@ && u
            != "established"@,
    ensures
        state_from_text(state_label(m)) == m,
{
    reveal_strlit("Idle");
    reveal_strlit("Connect");
    reveal_strlit("Active");
    reveal_strlit("OpenSent");
    reveal_strlit("OpenConfirm");
    reveal_strlit("Established");
    reveal_strlit("idle");
    reveal_strlit("connect");
    reveal_strlit("active");
    reveal_strlit("opensent");
    reveal_strlit("openconfirm");
    reveal_strlit("established");
    let l = state_label(m);
    if !(m is Unknown) {
        assert(l.len() > 0 && !is_ws(l[0]) && !is_ws(l.last()));
        lemma_trim_unchanged(l);
        assert(is_ascii_text(l));
        let t = text_lowercase(l);
        match m {
            BgpStateModel::Idle => {
                assert(t =~= "idle"@);
            },
            BgpStateModel::Connect => {
                assert(t =~= "connect"@);
                assert(t != "idle"@);
            },
            BgpStateModel::Active => {
                assert(t =~= "active"@);
                assert(t != "idle"@ && t != "connect"@);
            },
            BgpStateModel::OpenSent => {
                assert(t =~= "opensent"@);
                assert(t != "idle"@ && t != "connect"@ && t != "active"@);
            },
            BgpStateModel::OpenConfirm => {
                assert(t =~= "openconfirm"@);
                assert(t != "idle"@ && t != "connect"@ && t != "active"@ && t != "opensent"@);
            },
            BgpStateModel::Established => {
                assert(t =~= "established"@);
                assert(t[0] == 'e' && "openconfirm"@[0] == 'o');
                assert(t != "idle"@ && t != "connect"@ && t != "active"@ && t != "opensent"@ && t
                    != "openconfirm"@);
            },
            _ => {},
        }
    }
}

impl BgpState {
    pub fn from_str(s: &str) -> (r: BgpState)
        ensures
            r@ == state_from_text(s@),
    {
        let t = to_lowercase(&trim_chars(&chars_of(s)));
        if chars_eq(&t, &chars_of("idle")) {
            BgpState::Idle
        } else if chars_eq(&t, &chars_of("connect")) {
            BgpState::Connect
        } else if chars_eq(&t, &chars_of("active")) {
            BgpState::Active
        } else if chars_eq(&t, &chars_of("opensent")) {
            BgpState::OpenSent
        } else if chars_eq(&t, &chars_of("openconfirm")) {
            BgpState::OpenConfirm
        } else if chars_eq(&t, &chars_of("established")) {
            BgpState::Established
        } else {
            BgpState::Unknown(string_of(&t))
        }
    }

    pub fn as_str(&self) -> (r: &str)
        ensures
            r@ == state_label(self@),
    {
        match self {
            BgpState::Idle => "Idle",
            BgpState::Connect => "Connect",
            BgpState::Active => "Active",
            BgpState::OpenSent => "OpenSent",
            BgpState::OpenConfirm => "OpenConfirm",
            BgpState::Established => "Established",
            BgpState::Unknown(s) => s.as_str(),
        }
    }

    /// The text that `Display` writes: the label.
    pub fn to_text(&self) -> (r: String)
        ensures
            r@ == state_label(self@),
    {
        String::from_str(self.as_str())
    }

    pub fn is_established(&self) -> (r: bool)
        ensures
            r == (self@ is Established),
    {
        match self {
            BgpState::Established => true,
            _ => false,
        }
    }

    /// Equality of two states (the derived `==`).
    pub fn same_as(&self, other: &BgpState) -> (r: bool)
        ensures
            r == (self@ == other@),
    {
        match (self, other) {
            (BgpState::Idle, BgpState::Idle) => true,
            (BgpState::Connect, BgpState::Connect) => true,
            (BgpState::Active, BgpState::Active) => true,
            (BgpState::OpenSent, BgpState::OpenSent) => true,
            (BgpState::OpenConfirm, BgpState::OpenConfirm) => true,
            (BgpState::Established, BgpState::Established) => true,
            (BgpState::Unknown(a), BgpState::Unknown(b)) => a.eq(b),
            _ => false,
        }
    }

    /// A copy with the same value.
    pub fn duplicate(&self) -> (r: BgpState)
        ensures
            r@ == self@,
    {
        match self {
            BgpState::Idle => BgpState::Idle,
            BgpState::Connect => BgpState::Connect,
            BgpState::Active => BgpState::Active,
            BgpState::OpenSent => BgpState::OpenSent,
            BgpState::OpenConfirm => BgpState::OpenConfirm,
            BgpState::Established => BgpState::Established,
            BgpState::Unknown(s) => BgpState::Unknown(s.clone()),
        }
    }
}

// ─── Route Origin ─────────────────────────────────────────────────────────────

#[derive(Debug, Clone, Copy, PartialEq, Eq, Structural)]
pub enum RouteOrigin {
    Igp,
    Egp,
    Incomplete,
}

pub open spec fn origin_symbol(o: RouteOrigin) -> Seq<char> {
    match o {
        RouteOrigin::Igp => "i"@,
        RouteOrigin::Egp => "e"@,
        RouteOrigin::Incomplete => "?"@,
    }
}

impl RouteOrigin {
    /// The one-letter code that `Display` writes.
    pub fn symbol(&self) -> (r: &'static str)
        ensures
            r@ == origin_symbol(*self),
    {
        match self {
            RouteOrigin::Igp => "i",
            RouteOrigin::Egp => "e",
            RouteOrigin::Incomplete => "?",
        }
    }
}

// ─── Route Status Flags ───────────────────────────────────────────────────────

#[derive(Debug, Clone, Copy, PartialEq, Eq, Structural)]
pub enum RouteStatus {
    BestExternal,
    Best,
    Valid,
    Internal,
    Suppressed,
    History,
}

pub open spec fn status_symbol(s: RouteStatus) -> Seq<char> {
    match s {
        RouteStatus::BestExternal => "*>"@,
        RouteStatus::Best => ">"@,
        RouteStatus::Valid => "* "@,
        RouteStatus::Internal => " i"@,
        RouteStatus::Suppressed => "s "@,
        RouteStatus::History => "h "@,
    }
}

impl RouteStatus {
    /// The flag column that `Display` writes.
    pub fn symbol(&self) -> (r: &'static str)
        ensures
            r@ == status_symbol(*self),
    {
        match self {
            RouteStatus::BestExternal => "*>",
            RouteStatus::Best => ">",
            RouteStatus::Valid => "* ",
            RouteStatus::Internal => " i",
            RouteStatus::Suppressed => "s ",
            RouteStatus::History => "h ",
        }
    }
}

// ─── Per-peer route direction ──────────────────────────────────────────────────

#[derive(Debug, Clone, Copy, PartialEq, Eq, Structural)]
pub enum PeerRouteDirection {
    Received,
    Advertised,
}

impl PeerRouteDirection {
    pub fn label(self) -> (r: &'static str)
        ensures
            r@ == (if self is Received {
                "Received"@
            } else {
                "Advertised"@
            }),
    {
        match self {
            PeerRouteDirection::Received => "Received",
            PeerRouteDirection::Advertised => "Advertised",
        }
    }

    pub fn toggle(self) -> (r: Self)
        ensures
            r == (if self is Received {
                PeerRouteDirection::Advertised
            } else {
                PeerRouteDirection::Received
            }),
    {
        match self {
            PeerRouteDirection::Received => PeerRouteDirection::Advertised,
            PeerRouteDirection::Advertised => PeerRouteDirection::Received,
        }
    }
}

/// Toggling the drill-down direction twice gives the direction back.
pub proof fn law_direction_toggle_involutive(d: PeerRouteDirection)
    ensures
        (if (if d is Received {
            PeerRouteDirection::Advertised
        } else {
            PeerRouteDirection::Received
        }) is Received {
            PeerRouteDirection::Advertised
        } else {
            PeerRouteDirection::Received
        }) == d,
{
}

// ─── MTU probe state ────────────────────────────────────────────────────────

/// State of an on-demand path-MTU probe.
#[derive(Debug, Clone)]
pub enum MtuProbeState {
    /// Probe is in progress.
    Running,
    /// All probes at this frame size succeeded.
    Succeeded(u16),
    /// Full-size probe failed; this smaller frame size worked.
    Degraded(u16),
    /// All probes or the SSH command failed.
    Failed(String),
}

pub enum MtuProbeModel {
    Running,
    Succeeded(u16),
    Degraded(u16),
    Failed(Seq<char>),
}

impl View for MtuProbeState {
    type V = MtuProbeModel;

    open spec fn view(&self) -> MtuProbeModel {
        match self {
            MtuProbeState::Running => MtuProbeModel::Running,
            MtuProbeState::Succeeded(n) => MtuProbeModel::Succeeded(*n),
            MtuProbeState::Degraded(n) => MtuProbeModel::Degraded(*n),
            MtuProbeState::Failed(s) => MtuProbeModel::Failed(s@),
        }
    }
}

pub open spec fn opt_mtu_view(m: Option<MtuProbeState>) -> Option<MtuProbeModel> {
    match m {
        Some(x) => Some(x@),
        None => None,
    }
}

fn opt_mtu_eq(a: &Option<MtuProbeState>, b: &Option<MtuProbeState>) -> (r: bool)
    ensures
        r == (opt_mtu_view(*a) == opt_mtu_view(*b)),
{
    match (a, b) {
        (None, None) => true,
        (Some(MtuProbeState::Running), Some(MtuProbeState::Running)) => true,
        (Some(MtuProbeState::Succeeded(x)), Some(MtuProbeState::Succeeded(y))) => *x == *y,
        (Some(MtuProbeState::Degraded(x)), Some(MtuProbeState::Degraded(y))) => *x == *y,
        (Some(MtuProbeState::Failed(x)), Some(MtuProbeState::Failed(y))) => x.eq(y),
        _ => false,
    }
}

// ─── BGP Peer ─────────────────────────────────────────────────────────────────

#[derive(Debug, Clone)]
pub struct BgpPeer {
    pub neighbor_ip: IpAddress,
    pub remote_as: u32,
    pub local_as: u32,
    pub state: BgpState,
    pub uptime: Option<String>,
    pub prefixes_received: u64,
    pub prefixes_advertised: u64,
    pub description: Option<String>,
    pub update_source: Option<IpAddress>,
    pub next_hop_self: bool,
    pub route_reflector_client: bool,
    pub password_configured: bool,
    pub msg_rcvd: u64,
    pub msg_sent: u64,
    pub hold_time: u16,
    pub keepalive: u16,
    pub communities: Vec<String>,
    pub route_map_in: Option<String>,
    pub route_map_out: Option<String>,
    pub reset_count: u32,
    pub last_reset_reason: Option<String>,
    pub notifs_sent: u32,
    pub notifs_rcvd: u32,
    pub bfd_state: Option<String>,
    /// On-demand path-MTU probe result.
    pub mtu_probe: Option<MtuProbeState>,
}

/// Field-by-field equality of two peers (the derived `==`).
pub open spec fn peer_same(a: BgpPeer, b: BgpPeer) -> bool {
    &&& a.neighbor_ip == b.neighbor_ip
    &&& a.remote_as == b.remote_as
    &&& a.local_as == b.local_as
    &&& a.state@ == b.state@
    &&& opt_view(a.uptime) == opt_view(b.uptime)
    &&& a.prefixes_received == b.prefixes_received
    &&& a.prefixes_advertised == b.prefixes_advertised
    &&& opt_view(a.description) == opt_view(b.description)
    &&& a.update_source == b.update_source
    &&& a.next_hop_self == b.next_hop_self
    &&& a.route_reflector_client == b.route_reflector_client
    &&& a.password_configured == b.password_configured
    &&& a.msg_rcvd == b.msg_rcvd
    &&& a.msg_sent == b.msg_sent
    &&& a.hold_time == b.hold_time
    &&& a.keepalive == b.keepalive
    &&& a.communities.deep_view() == b.communities.deep_view()
    &&& opt_view(a.route_map_in) == opt_view(b.route_map_in)
    &&& opt_view(a.route_map_out) == opt_view(b.route_map_out)
    &&& a.reset_count == b.reset_count
    &&& opt_view(a.last_reset_reason) == opt_view(b.last_reset_reason)
    &&& a.notifs_sent == b.notifs_sent
    &&& a.notifs_rcvd == b.notifs_rcvd
    &&& opt_view(a.bfd_state) == opt_view(b.bfd_state)
    &&& opt_mtu_view(a.mtu_probe) == opt_mtu_view(b.mtu_probe)
}

impl BgpPeer {
    pub fn session_type(&self) -> (r: &'static str)
        ensures
            r@ == (if self.remote_as == self.local_as {
                "iBGP"@
            } else {
                "eBGP"@
            }),
    {
        if self.remote_as == self.local_as {
            "iBGP"
        } else {
            "eBGP"
        }
    }

    /// `Some((old_state, new_state))` if the state differs from `other`.
    pub fn state_changed_from(&self, other: &BgpPeer) -> (r: Option<(BgpState, BgpState)>)
        ensures
            self.state@ == other.state@ <==> r is None,
            r matches Some((o, n)) ==> o@ == other.state@ && n@ == self.state@,
    {
        if !self.state.same_as(&other.state) {
            Some((other.state.duplicate(), self.state.duplicate()))
        } else {
            None
        }
    }

    /// Field-by-field equality.
    pub fn same_as(&self, other: &BgpPeer) -> (r: bool)
        ensures
            r == peer_same(*self, *other),
    {
        self.neighbor_ip == other.neighbor_ip && self.remote_as == other.remote_as
            && self.local_as == other.local_as && self.state.same_as(&other.state)
            && opt_string_eq(&self.uptime, &other.uptime) && self.prefixes_received
            == other.prefixes_received && self.prefixes_advertised == other.prefixes_advertised
            && opt_string_eq(&self.description, &other.description) && self.update_source
            == other.update_source && self.next_hop_self == other.next_hop_self
            && self.route_reflector_client == other.route_reflector_client
            && self.password_configured == other.password_configured && self.msg_rcvd
            == other.msg_rcvd && self.msg_sent == other.msg_sent && self.hold_time
            == other.hold_time && self.keepalive == other.keepalive && strings_eq(
            &self.communities,
            &other.communities,
        ) && opt_string_eq(&self.route_map_in, &other.route_map_in) && opt_string_eq(
            &self.route_map_out,
            &other.route_map_out,
        ) && self.reset_count == other.reset_count && opt_string_eq(
            &self.last_reset_reason,
            &other.last_reset_reason,
        ) && self.notifs_sent == other.notifs_sent && self.notifs_rcvd == other.notifs_rcvd
            && opt_string_eq(&self.bfd_state, &other.bfd_state) && opt_mtu_eq(
            &self.mtu_probe,
            &other.mtu_probe,
        )
    }
}

// ─── BGP Route ────────────────────────────────────────────────────────────────

#[derive(Debug, Clone)]
pub struct BgpRoute {
    pub status: RouteStatus,
    /// CIDR, e.g. "10.0.0.0/8".
    pub network: String,
    /// IP or "0.0.0.0" for locally originated routes.
    pub next_hop: String,
    pub metric: Option<u32>,
    pub local_pref: Option<u32>,
    pub weight: u32,
    /// Empty for iBGP/local routes.
    pub as_path: Vec<u32>,
    pub origin: RouteOrigin,
    pub communities: Vec<String>,
}

/// AS numbers in decimal, separated by single spaces.
pub open spec fn as_path_text(p: Seq<u32>) -> Seq<char>
    decreases p.len(),
{
    if p.len() == 0 {
        seq![]
    } else if p.len() == 1 {
        decimal(p[0] as nat)
    } else {
        as_path_text(p.drop_last()) + seq![' '] + decimal(p.last() as nat)
    }
}

impl BgpRoute {
    pub fn as_path_str(&self) -> (r: String)
        ensures
            r@ == as_path_text(self.as_path@),
    {
        let mut out: Vec<char> = Vec::new();
        let mut i: usize = 0;
        while i < self.as_path.len()
            invariant
                i <= self.as_path.len(),
                out@ == as_path_text(self.as_path@.take(i as int)),
            decreases self.as_path.len() - i,
        {
            let ghost before = out@;
            if i > 0 {
                out.push(' ');
            }
            append_chars(&mut out, decimal_chars(self.as_path[i] as u64));
            i = i + 1;
            proof {
                let t = self.as_path@.take(i as int);
                assert(t.drop_last() =~= self.as_path@.take(i - 1));
                if i == 1 {
                    assert(before =~= Seq::<char>::empty());
                    assert(out@ =~= decimal(t[0] as nat));
                } else {
                    assert(out@ =~= before + seq![' '] + decimal(t.last() as nat));
                }
            }
        }
        assert(self.as_path@.take(self.as_path.len() as int) =~= self.as_path@);
        string_of(&out)
    }
}

// ─── BGP Summary ──────────────────────────────────────────────────────────────

#[derive(Debug, Clone)]
pub struct BgpSummary {
    pub router_id: IpAddress,
    pub local_as: u32,
    pub table_version: u64,
    pub peers: Vec<BgpPeer>,
    /// When the data was fetched, in microseconds since the Unix epoch.
    pub fetched_at: i64,
}

pub open spec fn count_established(peers: Seq<BgpPeer>) -> nat
    decreases peers.len(),
{
    if peers.len() == 0 {
        0
    } else {
        count_established(peers.drop_last()) + if peers.last().state@ is Established {
            1nat
        } else {
            0nat
        }
    }
}

pub open spec fn sum_received(peers: Seq<BgpPeer>) -> nat
    decreases peers.len(),
{
    if peers.len() == 0 {
        0
    } else {
        sum_received(peers.drop_last()) + peers.last().prefixes_received as nat
    }
}

proof fn lemma_count_established_bound(peers: Seq<BgpPeer>)
    ensures
        count_established(peers) <= peers.len(),
    decreases peers.len(),
{
    if peers.len() > 0 {
        lemma_count_established_bound(peers.drop_last());
    }
}

proof fn lemma_sum_received_prefix(peers: Seq<BgpPeer>, k: int)
    requires
        0 <= k <= peers.len(),
    ensures
        sum_received(peers.take(k)) <= sum_received(peers),
    decreases peers.len() - k,
{
    if k < peers.len() {
        assert(peers.drop_last().take(k) =~= peers.take(k));
        lemma_sum_received_prefix(peers.drop_last(), k);
    } else {
        assert(peers.take(k) =~= peers);
    }
}

impl BgpSummary {
    /// Content-equal comparison ignoring the `fetched_at` timestamp.
    pub fn content_eq(&self, other: &Self) -> (r: bool)
        ensures
            r == (self.router_id == other.router_id && self.local_as == other.local_as
                && self.table_version == other.table_version && self.peers.len()
                == other.peers.len() && forall|i: int|
                0 <= i < self.peers.len() ==> peer_same(
                    #[trigger] self.peers@[i],
                    other.peers@[i],
                )),
    {
        if !(self.router_id == other.router_id && self.local_as == other.local_as
            && self.table_version == other.table_version && self.peers.len()
            == other.peers.len()) {
            return false;
        }
        let mut i: usize = 0;
        while i < self.peers.len()
            invariant
                i <= self.peers.len(),
                self.peers.len() == other.peers.len(),
                forall|k: int| 0 <= k < i ==> peer_same(#[trigger] self.peers@[k], other.peers@[k]),
            decreases self.peers.len() - i,
        {
            if !self.peers[i].same_as(&other.peers[i]) {
                return false;
            }
            i = i + 1;
        }
        true
    }

    pub fn established_count(&self) -> (r: usize)
        ensures
            r == count_established(self.peers@),
    {
        let mut n: usize = 0;
        let mut i: usize = 0;
        while i < self.peers.len()
            invariant
                i <= self.peers.len(),
                n == count_established(self.peers@.take(i as int)),
            decreases self.peers.len() - i,
        {
            proof {
                assert(self.peers@.take(i + 1).drop_last() =~= self.peers@.take(i as int));
                lemma_count_established_bound(self.peers@.take(i as int));
            }
            if self.peers[i].state.is_established() {
                n = n + 1;
            }
            i = i + 1;
        }
        assert(self.peers@.take(self.peers.len() as int) =~= self.peers@);
        n
    }

    /// Sum of the received-prefix counts of all peers.
    pub fn total_prefixes(&self) -> (r: u64)
        requires
            sum_received(self.peers@) <= u64::MAX,
        ensures
            r == sum_received(self.peers@),
    {
        let mut n: u64 = 0;
        let mut i: usize = 0;
        while i < self.peers.len()
            invariant
                i <= self.peers.len(),
                n == sum_received(self.peers@.take(i as int)),
                sum_received(self.peers@) <= u64::MAX,
            decreases self.peers.len() - i,
        {
            proof {
                assert(self.peers@.take(i + 1).drop_last() =~= self.peers@.take(i as int));
                lemma_sum_received_prefix(self.peers@, i + 1);
            }
            n = n + self.peers[i].prefixes_received;
            i = i + 1;
        }
        assert(self.peers@.take(self.peers.len() as int) =~= self.peers@);
        n
    }
}

/// Every peer is established exactly when the count is the number of
/// peers, and none exactly when it is 0.
proof fn lemma_established_all(a: Seq<BgpPeer>)
    ensures
        count_established(a) == a.len() <==> (forall|i: int|
            0 <= i < a.len() ==> (#[trigger] a[i]).state@ is Established),
        count_established(a) == 0 <==> (forall|i: int|
            0 <= i < a.len() ==> !((#[trigger] a[i]).state@ is Established)),
    decreases a.len(),
{
    if a.len() > 0 {
        let d = a.drop_last();
        let n = a.len() - 1;
        lemma_established_all(d);
        lemma_count_established_bound(d);
        assert(a.last() == a[n]);
        assert forall|i: int| 0 <= i < d.len() implies #[trigger] d[i] == a[i] by {}
        if forall|i: int| 0 <= i < a.len() ==> (#[trigger] a[i]).state@ is Established {
            assert forall|i: int| 0 <= i < d.len() implies (#[trigger] d[i]).state@ is Established by {
                assert(d[i] == a[i]);
            }
        }
        if forall|i: int| 0 <= i < a.len() ==> !((#[trigger] a[i]).state@ is Established) {
            assert forall|i: int| 0 <= i < d.len() implies !((#[trigger] d[i]).state@ is Established) by {
                assert(d[i] == a[i]);
            }
        }
        if count_established(a) == a.len() {
            assert forall|i: int| 0 <= i < a.len() implies (#[trigger] a[i]).state@ is Established by {
                if i < n {
                    assert(d[i] == a[i]);
                }
            }
        }
        if count_established(a) == 0 {
            assert forall|i: int| 0 <= i < a.len() implies !((#[trigger] a[i]).state@ is Established) by {
                if i < n {
                    assert(d[i] == a[i]);
                }
            }
        }
    }
}

/// The established peers and the received prefixes of two lists of peers
/// add up; every peer is established exactly when the count is the number
/// of peers, and none exactly when it is 0.
pub proof fn law_summary_counts(a: Seq<BgpPeer>, b: Seq<BgpPeer>)
    ensures
        count_established(a + b) == count_established(a) + count_established(b),
        sum_received(a + b) == sum_received(a) + sum_received(b),
        count_established(a) <= a.len(),
        count_established(a) == a.len() <==> (forall|i: int|
            0 <= i < a.len() ==> (#[trigger] a[i]).state@ is Established),
        count_established(a) == 0 <==> (forall|i: int|
            0 <= i < a.len() ==> !((#[trigger] a[i]).state@ is Established)),
    decreases b.len(),
{
    lemma_count_established_bound(a);
    lemma_established_all(a);
    if b.len() > 0 {
        law_summary_counts(a, b.drop_last());
        assert((a + b).drop_last() =~= a + b.drop_last());
        assert((a + b).last() == b.last());
    } else {
        assert(a + b =~= a);
    }
}

} // verus!

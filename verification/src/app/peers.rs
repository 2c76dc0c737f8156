//! Decisions about BGP neighbors: the selected peer, drafts from live
//! peers, the stored (desired) neighbor drafts, shutdown and clone choices,
//! and path-MTU probe results.

use vstd::prelude::*;

use crate::app::filters::opt_text;
use crate::bgp::neighbor_draft::{
    default_draft, family_of_text, AddressFamily, DraftModel, NeighborDraft,
};
use crate::bgp::types::{BgpPeer, MtuProbeState, PeerRouteDirection};
use crate::net::{ip_text, IpAddress};
use crate::text::{
    append_chars, chars_eq, chars_of, copy_string, decimal, decimal_chars, string_of, trim,
    trim_chars,
};

verus! {

fn cat(a: Vec<char>, b: Vec<char>) -> (r: Vec<char>)
    ensures
        r@ == a@ + b@,
{
    let mut v = a;
    append_chars(&mut v, b);
    v
}

// ─── The selected peer ───────────────────────────────────────────────────────

/// The peer that the table's selection points at, through the filtered
/// row indices.
pub open spec fn selected_peer_of(sel: Option<usize>, indices: Seq<usize>, n: nat) -> Option<
    usize,
> {
    match sel {
        Some(i) => {
            if i < indices.len() && indices[i as int] < n {
                Some(indices[i as int])
            } else {
                None
            }
        },
        None => None,
    }
}

pub fn selected_peer(sel: Option<usize>, indices: &Vec<usize>, n: usize) -> (r: Option<usize>)
    ensures
        r == selected_peer_of(sel, indices@, n as nat),
{
    match sel {
        Some(i) => {
            if i < indices.len() && indices[i] < n {
                Some(indices[i])
            } else {
                None
            }
        },
        None => None,
    }
}

// ─── Drafts ──────────────────────────────────────────────────────────────────

/// The draft that editing or cloning a live peer starts from: the peer's
/// address, AS, description, update source, flags and timers as text, BFD
/// when the peer reports a BFD state, and the family its address suggests.
pub open spec fn draft_of_peer(p: BgpPeer, router_id: Option<u128>) -> DraftModel {
    let ip = ip_text(p.neighbor_ip);
    DraftModel {
        router_id,
        neighbor_ip: ip,
        remote_as: decimal(p.remote_as as nat),
        description: opt_text(p.description),
        update_source: match p.update_source {
            Some(a) => ip_text(a),
            None => seq![],
        },
        next_hop_self: p.next_hop_self,
        route_reflector_client: p.route_reflector_client,
        hold_time: decimal(p.hold_time as nat),
        keepalive: decimal(p.keepalive as nat),
        bfd: p.bfd_state is Some,
        address_family: family_of_text(ip),
        ..default_draft()
    }
}

pub fn draft_from_peer(p: &BgpPeer, router_id: Option<u128>) -> (r: NeighborDraft)
    ensures
        r@ == draft_of_peer(*p, router_id),
{
    let mut d = NeighborDraft::default();
    let ip = string_of(&p.neighbor_ip.text());
    d.router_id = router_id;
    d.address_family = AddressFamily::from_ip(ip.as_str());
    d.neighbor_ip = ip;
    d.remote_as = string_of(&decimal_chars(p.remote_as as u64));
    d.description = match &p.description {
        Some(s) => copy_string(s),
        None => String::new(),
    };
    d.update_source = match &p.update_source {
        Some(a) => string_of(&a.text()),
        None => String::new(),
    };
    d.next_hop_self = p.next_hop_self;
    d.route_reflector_client = p.route_reflector_client;
    d.hold_time = string_of(&decimal_chars(p.hold_time as u64));
    d.keepalive = string_of(&decimal_chars(p.keepalive as u64));
    d.bfd = p.bfd_state.is_some();
    d
}

/// A stored draft made ready for another router: no id, router or
/// timestamps.
pub open spec fn detached(d: DraftModel) -> DraftModel {
    DraftModel { id: None, router_id: None, created_at: None, updated_at: None, ..d }
}

pub fn detach_draft(d: &mut NeighborDraft)
    ensures
        final(d)@ == detached(old(d)@),
{
    d.id = None;
    d.router_id = None;
    d.created_at = None;
    d.updated_at = None;
}

/// The first stored draft whose trimmed address text is `ip`.
pub open spec fn draft_index_for(ds: Seq<DraftModel>, ip: Seq<char>, i: int) -> Option<int>
    decreases ds.len() - i,
{
    if i < 0 || i >= ds.len() {
        None
    } else if trim(ds[i].neighbor_ip) == ip {
        Some(i)
    } else {
        draft_index_for(ds, ip, i + 1)
    }
}

pub open spec fn drafts_view(ds: Seq<NeighborDraft>) -> Seq<DraftModel> {
    ds.map_values(|d: NeighborDraft| d@)
}

/// The stored draft for an address text.
pub fn find_draft(drafts: &Vec<NeighborDraft>, ip: &Vec<char>) -> (r: Option<usize>)
    ensures
        r matches Some(i) ==> draft_index_for(drafts_view(drafts@), ip@, 0) == Some(i as int)
            && i < drafts.len(),
        r is None ==> draft_index_for(drafts_view(drafts@), ip@, 0) is None,
{
    let mut i: usize = 0;
    while i < drafts.len()
        invariant
            i <= drafts.len(),
            draft_index_for(drafts_view(drafts@), ip@, 0) == draft_index_for(
                drafts_view(drafts@),
                ip@,
                i as int,
            ),
        decreases drafts.len() - i,
    {
        assert(drafts_view(drafts@)[i as int] == drafts@[i as int]@);
        if chars_eq(&trim_chars(&chars_of(drafts[i].neighbor_ip.as_str())), ip) {
            return Some(i);
        }
        i = i + 1;
    }
    None
}

/// Storing an applied draft: it replaces the draft for the same address,
/// or is added.
pub open spec fn desired_upserted(ds: Seq<DraftModel>, d: DraftModel) -> Seq<DraftModel> {
    match draft_index_for(ds, trim(d.neighbor_ip), 0) {
        Some(p) => ds.update(p, d),
        None => ds.push(d),
    }
}

pub fn upsert_desired(drafts: &mut Vec<NeighborDraft>, d: NeighborDraft)
    ensures
        drafts_view(final(drafts)@) == desired_upserted(drafts_view(old(drafts)@), d@),
{
    let ip = trim_chars(&chars_of(d.neighbor_ip.as_str()));
    let ghost dv = d@;
    let ghost before = drafts@;
    match find_draft(drafts, &ip) {
        Some(p) => {
            drafts.set(p, d);
            assert(drafts_view(drafts@) =~= drafts_view(before).update(p as int, dv));
        },
        None => {
            drafts.push(d);
            assert(drafts_view(drafts@) =~= drafts_view(before).push(dv));
        },
    }
}

/// The drafts without those for an address text (after a deletion).
pub open spec fn desired_without(ds: Seq<DraftModel>, ip: Seq<char>) -> Seq<DraftModel>
    decreases ds.len(),
{
    if ds.len() == 0 {
        seq![]
    } else if trim(ds.last().neighbor_ip) != ip {
        desired_without(ds.drop_last(), ip).push(ds.last())
    } else {
        desired_without(ds.drop_last(), ip)
    }
}

pub fn remove_desired(drafts: &mut Vec<NeighborDraft>, ip: &Vec<char>)
    ensures
        drafts_view(final(drafts)@) == desired_without(drafts_view(old(drafts)@), ip@),
{
    let ghost orig = drafts_view(drafts@);
    let mut kept: Vec<NeighborDraft> = Vec::new();
    let mut rest: Vec<NeighborDraft> = Vec::new();
    std::mem::swap(drafts, &mut rest);
    let n = rest.len();
    let mut i: usize = 0;
    while rest.len() > 0
        invariant
            i + rest.len() == n,
            n == orig.len(),
            drafts_view(rest@) == orig.skip(i as int),
            drafts_view(kept@) == desired_without(orig.take(i as int), ip@),
        decreases rest.len(),
    {
        let ghost rv = rest@;
        let d = rest.remove(0);
        proof {
            assert(drafts_view(rv)[0] == d@);
            assert(orig.take(i + 1).drop_last() =~= orig.take(i as int));
            assert(orig.take(i + 1).last() == orig[i as int]);
            assert(orig[i as int] == orig.skip(i as int)[0]);
            assert forall|k: int| 0 <= k < rest.len() implies #[trigger] drafts_view(rest@)[k]
                == orig.skip(i + 1)[k] by {
                assert(rest@[k] == rv[k + 1]);
                assert(drafts_view(rv)[k + 1] == rv[k + 1]@);
            }
            assert(drafts_view(rest@) =~= orig.skip(i + 1));
        }
        let ghost before = kept@;
        if !chars_eq(&trim_chars(&chars_of(d.neighbor_ip.as_str())), ip) {
            let ghost dv = d@;
            kept.push(d);
            assert(drafts_view(kept@) =~= drafts_view(before).push(dv));
        }
        i = i + 1;
    }
    assert(orig.take(n as int) =~= orig);
    std::mem::swap(drafts, &mut kept);
}

// ─── Shutdown, clone, per-peer routes, path MTU ──────────────────────────────

/// What Shutdown on a peer does.
#[derive(Debug, Clone, Copy, PartialEq, Eq, Structural)]
pub enum ShutdownChoice {
    /// The router's local AS is unknown (or 0): nothing is sent.
    UnknownLocalAs,
    /// The session is established: shut it down.
    Shutdown,
    /// The session is down: bring it back.
    NoShutdown,
}

pub open spec fn shutdown_choice_of(local_as: Option<u32>, established: bool) -> ShutdownChoice {
    let a = match local_as {
        Some(a) => a,
        None => 0,
    };
    if a == 0 {
        ShutdownChoice::UnknownLocalAs
    } else if established {
        ShutdownChoice::Shutdown
    } else {
        ShutdownChoice::NoShutdown
    }
}

pub fn shutdown_choice(local_as: Option<u32>, established: bool) -> (r: ShutdownChoice)
    ensures
        r == shutdown_choice_of(local_as, established),
{
    let a = match local_as {
        Some(a) => a,
        None => 0,
    };
    if a == 0 {
        ShutdownChoice::UnknownLocalAs
    } else if established {
        ShutdownChoice::Shutdown
    } else {
        ShutdownChoice::NoShutdown
    }
}

pub open spec fn shutdown_text(c: ShutdownChoice, ip: IpAddress) -> Seq<char> {
    match c {
        ShutdownChoice::UnknownLocalAs => "Cannot toggle shutdown: unknown local AS"@,
        ShutdownChoice::Shutdown => "Shutdown neighbor "@ + ip_text(ip),
        ShutdownChoice::NoShutdown => "No-shutdown neighbor "@ + ip_text(ip),
    }
}

/// The status line (and change description) of a shutdown toggle.
pub fn shutdown_message(c: ShutdownChoice, ip: &IpAddress) -> (r: String)
    ensures
        r@ == shutdown_text(c, *ip),
{
    match c {
        ShutdownChoice::UnknownLocalAs => String::from_str(
            "Cannot toggle shutdown: unknown local AS",
        ),
        ShutdownChoice::Shutdown => string_of(&cat(chars_of("Shutdown neighbor "), ip.text())),
        ShutdownChoice::NoShutdown => string_of(
            &cat(chars_of("No-shutdown neighbor "), ip.text()),
        ),
    }
}

/// The local AS used for a clone's commands: the target's fetched summary,
/// else its configured AS, else 0.
pub fn clone_local_as(fetched: Option<u32>, configured: Option<u32>) -> (r: u32)
    ensures
        r == (match fetched {
            Some(a) => a,
            None => match configured {
                Some(a) => a,
                None => 0,
            },
        }),
{
    match fetched {
        Some(a) => a,
        None => match configured {
            Some(a) => a,
            None => 0,
        },
    }
}

/// "Clone neighbor IP to ROUTER".
pub fn clone_description(neighbor_ip: &String, router_name: &String) -> (r: String)
    ensures
        r@ == "Clone neighbor "@ + neighbor_ip@ + " to "@ + router_name@,
{
    let a = cat(chars_of("Clone neighbor "), chars_of(neighbor_ip.as_str()));
    let b = cat(a, chars_of(" to "));
    string_of(&cat(b, chars_of(router_name.as_str())))
}

/// Routes that arrive belong to the open per-peer view only when address
/// and direction match.
pub fn routes_for_view(
    view_ip: &IpAddress,
    view_dir: PeerRouteDirection,
    ip: &IpAddress,
    dir: PeerRouteDirection,
) -> (r: bool)
    ensures
        r == (*view_ip == *ip && view_dir == dir),
{
    *view_ip == *ip && view_dir == dir
}

/// The probe state for the largest frame that went through (0: none).
pub open spec fn mtu_state_of(max_bytes: u16) -> crate::bgp::types::MtuProbeModel {
    if max_bytes >= 1500 {
        crate::bgp::types::MtuProbeModel::Succeeded(max_bytes)
    } else if max_bytes > 0 {
        crate::bgp::types::MtuProbeModel::Degraded(max_bytes)
    } else {
        crate::bgp::types::MtuProbeModel::Failed("all probes failed"@)
    }
}

pub fn mtu_state(max_bytes: u16) -> (r: MtuProbeState)
    ensures
        r@ == mtu_state_of(max_bytes),
{
    if max_bytes >= 1500 {
        MtuProbeState::Succeeded(max_bytes)
    } else if max_bytes > 0 {
        MtuProbeState::Degraded(max_bytes)
    } else {
        MtuProbeState::Failed(String::from_str("all probes failed"))
    }
}

/// Two lists with the same trimmed addresses find an address at the same
/// place.
proof fn lemma_draft_index_same_keys(a: Seq<DraftModel>, b: Seq<DraftModel>, ip: Seq<char>, i: int)
    requires
        a.len() == b.len(),
        forall|j: int| 0 <= j < a.len() ==> trim(#[trigger] a[j].neighbor_ip) == trim(b[j].neighbor_ip),
    ensures
        draft_index_for(a, ip, i) == draft_index_for(b, ip, i),
    decreases a.len() - i,
{
    if 0 <= i < a.len() {
        lemma_draft_index_same_keys(a, b, ip, i + 1);
    }
}

/// A draft added at the end is found only where no earlier one is.
proof fn lemma_draft_index_push(ds: Seq<DraftModel>, x: DraftModel, ip: Seq<char>, i: int)
    requires
        0 <= i <= ds.len(),
    ensures
        draft_index_for(ds.push(x), ip, i) == match draft_index_for(ds, ip, i) {
            Some(p) => Some(p),
            None => if trim(x.neighbor_ip) == ip {
                Some(ds.len() as int)
            } else {
                None
            },
        },
    decreases ds.len() - i,
{
    let s = ds.push(x);
    if i < ds.len() {
        assert(s[i] == ds[i]);
        lemma_draft_index_push(ds, x, ip, i + 1);
    } else {
        assert(s[i] == x);
        assert(draft_index_for(s, ip, i + 1) is None);
        assert(draft_index_for(ds, ip, i) is None);
    }
}

/// Where the search finds an address, the draft there has it.
proof fn lemma_draft_index_found(ds: Seq<DraftModel>, ip: Seq<char>, i: int)
    ensures
        draft_index_for(ds, ip, i) matches Some(p) ==> 0 <= p < ds.len() && trim(
            ds[p].neighbor_ip,
        ) == ip,
        0 <= i && (forall|j: int| i <= j < ds.len() ==> trim(#[trigger] ds[j].neighbor_ip) != ip)
            ==> draft_index_for(ds, ip, i) is None,
    decreases ds.len() - i,
{
    if 0 <= i < ds.len() {
        lemma_draft_index_found(ds, ip, i + 1);
    }
}

/// Storing an applied draft: looking its address up afterwards finds that
/// draft, looking up any other address finds what it found before, and the
/// list grows by one exactly when no draft for the address was stored.
pub proof fn law_desired_upsert_lookup(ds: Seq<DraftModel>, d: DraftModel, ip: Seq<char>)
    ensures
        ({
            let u = desired_upserted(ds, d);
            let key = trim(d.neighbor_ip);
            &&& draft_index_for(u, key, 0) is Some
            &&& u[draft_index_for(u, key, 0)->0] == d
            &&& ip != key ==> draft_index_for(u, ip, 0) == draft_index_for(ds, ip, 0)
            &&& (ip != key && draft_index_for(ds, ip, 0) is Some) ==> u[draft_index_for(
                ds,
                ip,
                0,
            )->0] == ds[draft_index_for(ds, ip, 0)->0]
            &&& u.len() == ds.len() + if draft_index_for(ds, key, 0) is None {
                1int
            } else {
                0int
            }
        }),
{
    let key = trim(d.neighbor_ip);
    let u = desired_upserted(ds, d);
    lemma_draft_index_found(ds, key, 0);
    lemma_draft_index_found(ds, ip, 0);
    match draft_index_for(ds, key, 0) {
        Some(p) => {
            assert forall|j: int| 0 <= j < u.len() implies trim(#[trigger] u[j].neighbor_ip) == trim(
                ds[j].neighbor_ip,
            ) by {}
            lemma_draft_index_same_keys(u, ds, key, 0);
            lemma_draft_index_same_keys(u, ds, ip, 0);
        },
        None => {
            lemma_draft_index_push(ds, d, key, 0);
            lemma_draft_index_push(ds, d, ip, 0);
            if let Some(q) = draft_index_for(ds, ip, 0) {
                assert(u[q] == ds[q]);
            }
        },
    }
}

/// Removing the drafts for an address: none for it is left, every draft for
/// another address stays, and nothing else is added.
pub proof fn law_desired_remove(ds: Seq<DraftModel>, ip: Seq<char>)
    ensures
        draft_index_for(desired_without(ds, ip), ip, 0) is None,
        forall|i: int|
            0 <= i < ds.len() && trim(ds[i].neighbor_ip) != ip ==> desired_without(ds, ip).contains(
                #[trigger] ds[i],
            ),
        forall|j: int|
            0 <= j < desired_without(ds, ip).len() ==> trim(
                (#[trigger] desired_without(ds, ip)[j]).neighbor_ip,
            ) != ip && ds.contains(desired_without(ds, ip)[j]),
    decreases ds.len(),
{
    let r = desired_without(ds, ip);
    if ds.len() > 0 {
        let d = ds.drop_last();
        let x = ds.last();
        law_desired_remove(d, ip);
        let rd = desired_without(d, ip);
        assert forall|i: int|
            0 <= i < ds.len() && trim(ds[i].neighbor_ip) != ip implies r.contains(#[trigger] ds[i]) by {
            if i < d.len() {
                assert(ds[i] == d[i]);
                let k = choose|k: int| 0 <= k < rd.len() && rd[k] == d[i];
                if trim(x.neighbor_ip) != ip {
                    assert(r[k] == rd[k]);
                }
            } else {
                assert(r[rd.len() as int] == x);
            }
        }
        assert forall|j: int| 0 <= j < r.len() implies trim((#[trigger] r[j]).neighbor_ip) != ip
            && ds.contains(r[j]) by {
            if j < rd.len() {
                if trim(x.neighbor_ip) != ip {
                    assert(r[j] == rd[j]);
                }
                let k = choose|k: int| 0 <= k < d.len() && d[k] == rd[j];
                assert(ds[k] == d[k]);
            } else {
                assert(ds[ds.len() - 1] == x);
            }
        }
    }
    lemma_draft_index_found(r, ip, 0);
}

/// Shutdown on a peer flips its session: an established session is shut
/// down and any other is brought back, once the router's local AS is known
/// and not 0; without it nothing is sent.
pub proof fn law_shutdown_flips(local_as: Option<u32>, established: bool)
    ensures
        (local_as is None || local_as == Some(0u32)) ==> shutdown_choice_of(local_as, established)
            == ShutdownChoice::UnknownLocalAs,
        (local_as matches Some(a) && a != 0) ==> (shutdown_choice_of(local_as, established)
            == ShutdownChoice::Shutdown) == established && shutdown_choice_of(local_as, established)
            != ShutdownChoice::UnknownLocalAs,
{
}

/// A path MTU probe succeeded exactly when a full 1500-byte frame went
/// through, is degraded exactly when only a smaller one did, and failed
/// when none did; the state carries the largest size that went through.
pub proof fn law_mtu_classes(max_bytes: u16)
    ensures
        (mtu_state_of(max_bytes) is Succeeded) <==> max_bytes >= 1500,
        (mtu_state_of(max_bytes) is Degraded) <==> (0 < max_bytes < 1500),
        (mtu_state_of(max_bytes) is Failed) <==> max_bytes == 0,
        mtu_state_of(max_bytes) matches crate::bgp::types::MtuProbeModel::Succeeded(b) ==> b
            == max_bytes,
        mtu_state_of(max_bytes) matches crate::bgp::types::MtuProbeModel::Degraded(b) ==> b
            == max_bytes,
{
}

} // verus!

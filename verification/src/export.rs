//! The export / import document: routers, projects (with router names),
//! stored neighbors and peer templates; and how the application's records
//! map to it and back.

use vstd::prelude::*;

use crate::app::filters::opt_text;
use crate::bgp::neighbor_draft::{
    default_draft, family_of_text, AddressFamily, DraftModel, NeighborDraft, PeerTemplate,
};
use crate::router::{
    default_router, law_vendor_label_roundtrip, vendor_read, vendor_label, Project, RouterConfig, RouterModel,
    RouterVendor,
};
use crate::text::{append_chars, chars_of, copy_opt_string, copy_string, decimal, decimal_chars, opt_view, string_of};

verus! {

/// The whole document.
pub struct ExportData {
    pub version: String,
    pub routers: Vec<ExportRouter>,
    pub projects: Vec<ExportProject>,
    pub neighbors: Vec<ExportNeighbor>,
    pub peer_templates: Vec<PeerTemplate>,
}

/// A router without its secrets and ids.
#[derive(Clone)]
pub struct ExportRouter {
    pub name: String,
    pub hostname: String,
    pub vendor: String,
    pub ssh_port: u16,
    pub username: String,
    pub local_as: Option<u32>,
    pub vdom: Option<String>,
}

/// A project with its routers named.
#[derive(Clone)]
pub struct ExportProject {
    pub name: String,
    pub router_names: Vec<String>,
}

/// A stored neighbor, its router named.
#[derive(Clone)]
pub struct ExportNeighbor {
    pub router_name: String,
    pub neighbor_ip: String,
    pub remote_as: String,
    pub description: String,
    pub update_source: String,
    pub next_hop_self: bool,
    pub route_reflector_client: bool,
    pub hold_time: String,
    pub keepalive: String,
    pub bfd: bool,
    pub soft_reconfiguration_inbound: bool,
}

// ─── Export ──────────────────────────────────────────────────────────────────

/// The exported form of a router.
pub open spec fn router_exported(r: RouterModel, e: ExportRouter) -> bool {
    &&& e.name@ == r.name
    &&& e.hostname@ == r.hostname
    &&& e.vendor@ == vendor_label(r.vendor)
    &&& e.ssh_port == r.ssh_port
    &&& e.username@ == r.username
    &&& e.local_as == r.local_as
    &&& opt_view(e.vdom) == r.vdom
}

pub fn export_router(r: &RouterConfig) -> (e: ExportRouter)
    ensures
        router_exported(r@, e),
{
    ExportRouter {
        name: copy_string(&r.name),
        hostname: copy_string(&r.hostname),
        vendor: String::from_str(r.vendor.label()),
        ssh_port: r.ssh_port,
        username: copy_string(&r.username),
        local_as: r.local_as,
        vdom: copy_opt_string(&r.vdom),
    }
}

/// The name of the first router with this id, or empty text.
pub open spec fn name_for_id(rs: Seq<RouterConfig>, id: u128) -> Seq<char>
    decreases rs.len(),
{
    if rs.len() == 0 {
        seq![]
    } else if rs[0].id == id {
        rs[0].name@
    } else {
        name_for_id(rs.drop_first(), id)
    }
}

pub fn router_name(rs: &Vec<RouterConfig>, id: u128) -> (r: String)
    ensures
        r@ == name_for_id(rs@, id),
{
    let mut i: usize = 0;
    assert(rs@.skip(0) =~= rs@);
    while i < rs.len()
        invariant
            i <= rs.len(),
            name_for_id(rs@, id) == name_for_id(rs@.skip(i as int), id),
        decreases rs.len() - i,
    {
        assert(rs@.skip(i as int).drop_first() =~= rs@.skip(i + 1));
        assert(rs@.skip(i as int)[0] == rs@[i as int]);
        if rs[i].id == id {
            return copy_string(&rs[i].name);
        }
        i = i + 1;
    }
    String::new()
}

pub fn export_project(p: &Project, rs: &Vec<RouterConfig>) -> (e: ExportProject)
    ensures
        e.name@ == p.name@,
        e.router_names.len() == p.router_ids.len(),
        forall|i: int|
            0 <= i < p.router_ids.len() ==> #[trigger] e.router_names@[i]@ == name_for_id(
                rs@,
                p.router_ids@[i],
            ),
{
    let mut names: Vec<String> = Vec::new();
    let mut i: usize = 0;
    while i < p.router_ids.len()
        invariant
            i <= p.router_ids.len(),
            names.len() == i,
            forall|j: int|
                0 <= j < i ==> #[trigger] names@[j]@ == name_for_id(rs@, p.router_ids@[j]),
        decreases p.router_ids.len() - i,
    {
        names.push(router_name(rs, p.router_ids[i]));
        i = i + 1;
    }
    ExportProject { name: copy_string(&p.name), router_names: names }
}

/// The exported form of a stored neighbor of a named router.
pub open spec fn neighbor_exported(router: Seq<char>, d: DraftModel, e: ExportNeighbor) -> bool {
    &&& e.router_name@ == router
    &&& e.neighbor_ip@ == d.neighbor_ip
    &&& e.remote_as@ == d.remote_as
    &&& e.description@ == d.description
    &&& e.update_source@ == d.update_source
    &&& e.next_hop_self == d.next_hop_self
    &&& e.route_reflector_client == d.route_reflector_client
    &&& e.hold_time@ == d.hold_time
    &&& e.keepalive@ == d.keepalive
    &&& e.bfd == d.bfd
    &&& e.soft_reconfiguration_inbound == d.soft_reconfiguration_inbound
}

pub fn export_neighbor(router: &String, d: &NeighborDraft) -> (e: ExportNeighbor)
    ensures
        neighbor_exported(router@, d@, e),
{
    ExportNeighbor {
        router_name: copy_string(router),
        neighbor_ip: copy_string(&d.neighbor_ip),
        remote_as: copy_string(&d.remote_as),
        description: copy_string(&d.description),
        update_source: copy_string(&d.update_source),
        next_hop_self: d.next_hop_self,
        route_reflector_client: d.route_reflector_client,
        hold_time: copy_string(&d.hold_time),
        keepalive: copy_string(&d.keepalive),
        bfd: d.bfd,
        soft_reconfiguration_inbound: d.soft_reconfiguration_inbound,
    }
}

// ─── Import ──────────────────────────────────────────────────────────────────

/// Whether a router of this name exists (imports skip it).
pub fn has_router_named(rs: &Vec<RouterConfig>, name: &String) -> (r: bool)
    ensures
        r == exists|i: int| 0 <= i < rs.len() && rs@[i].name@ == name@,
{
    let mut i: usize = 0;
    while i < rs.len()
        invariant
            i <= rs.len(),
            forall|j: int| 0 <= j < i ==> rs@[j].name@ != name@,
        decreases rs.len() - i,
    {
        if rs[i].name.eq(name) {
            return true;
        }
        i = i + 1;
    }
    false
}

/// Whether a project of this name exists (imports skip it).
pub fn has_project_named(ps: &Vec<Project>, name: &String) -> (r: bool)
    ensures
        r == exists|i: int| 0 <= i < ps.len() && ps@[i].name@ == name@,
{
    let mut i: usize = 0;
    while i < ps.len()
        invariant
            i <= ps.len(),
            forall|j: int| 0 <= j < i ==> ps@[j].name@ != name@,
        decreases ps.len() - i,
    {
        if ps[i].name.eq(name) {
            return true;
        }
        i = i + 1;
    }
    false
}

/// An imported router under a fresh id: no password, no router id, the
/// vendor read from its name.
pub open spec fn imported_router(e: ExportRouter, id: u128) -> RouterModel {
    RouterModel {
        id,
        name: e.name@,
        hostname: e.hostname@,
        vendor: vendor_read(e.vendor@),
        ssh_port: e.ssh_port,
        username: e.username@,
        password: None,
        local_as: e.local_as,
        router_id: None,
        vdom: opt_view(e.vdom),
    }
}

pub fn import_router(e: &ExportRouter, id: u128) -> (r: RouterConfig)
    ensures
        r@ == imported_router(*e, id),
{
    RouterConfig {
        id,
        name: copy_string(&e.name),
        hostname: copy_string(&e.hostname),
        vendor: RouterVendor::from_text(e.vendor.as_str()),
        ssh_port: e.ssh_port,
        username: copy_string(&e.username),
        password: None,
        local_as: e.local_as,
        router_id: None,
        vdom: copy_opt_string(&e.vdom),
    }
}

/// The first router with this name, if any.
pub open spec fn id_for_name(rs: Seq<RouterConfig>, name: Seq<char>) -> Option<u128>
    decreases rs.len(),
{
    if rs.len() == 0 {
        None
    } else if rs[0].name@ == name {
        Some(rs[0].id)
    } else {
        id_for_name(rs.drop_first(), name)
    }
}

pub fn router_id_named(rs: &Vec<RouterConfig>, name: &String) -> (r: Option<u128>)
    ensures
        r == id_for_name(rs@, name@),
{
    let mut i: usize = 0;
    assert(rs@.skip(0) =~= rs@);
    while i < rs.len()
        invariant
            i <= rs.len(),
            id_for_name(rs@, name@) == id_for_name(rs@.skip(i as int), name@),
        decreases rs.len() - i,
    {
        assert(rs@.skip(i as int).drop_first() =~= rs@.skip(i + 1));
        assert(rs@.skip(i as int)[0] == rs@[i as int]);
        if rs[i].name.eq(name) {
            return Some(rs[i].id);
        }
        i = i + 1;
    }
    None
}

/// The ids of the named routers that exist, in the order of the names.
pub open spec fn ids_for_names(rs: Seq<RouterConfig>, names: Seq<Seq<char>>) -> Seq<u128>
    decreases names.len(),
{
    if names.len() == 0 {
        seq![]
    } else {
        match id_for_name(rs, names.last()) {
            Some(id) => ids_for_names(rs, names.drop_last()).push(id),
            None => ids_for_names(rs, names.drop_last()),
        }
    }
}

pub fn router_ids_named(rs: &Vec<RouterConfig>, names: &Vec<String>) -> (r: Vec<u128>)
    ensures
        r@ == ids_for_names(rs@, names.deep_view()),
{
    let mut out: Vec<u128> = Vec::new();
    let mut i: usize = 0;
    while i < names.len()
        invariant
            i <= names.len(),
            out@ == ids_for_names(rs@, names.deep_view().take(i as int)),
        decreases names.len() - i,
    {
        proof {
            let t = names.deep_view().take(i + 1);
            assert(t.drop_last() =~= names.deep_view().take(i as int));
            assert(t.last() == names@[i as int]@);
        }
        match router_id_named(rs, &names[i]) {
            Some(id) => out.push(id),
            None => {},
        }
        i = i + 1;
    }
    assert(names.deep_view().take(names.len() as int) =~= names.deep_view());
    out
}

/// An imported neighbor for a router: the document's fields, the family its
/// address suggests, and the defaults for the rest.
pub open spec fn imported_neighbor(e: ExportNeighbor, router_id: u128) -> DraftModel {
    DraftModel {
        router_id: Some(router_id),
        neighbor_ip: e.neighbor_ip@,
        remote_as: e.remote_as@,
        description: e.description@,
        update_source: e.update_source@,
        next_hop_self: e.next_hop_self,
        route_reflector_client: e.route_reflector_client,
        hold_time: e.hold_time@,
        keepalive: e.keepalive@,
        bfd: e.bfd,
        soft_reconfiguration_inbound: e.soft_reconfiguration_inbound,
        address_family: family_of_text(e.neighbor_ip@),
        ..default_draft()
    }
}

pub fn import_neighbor(e: &ExportNeighbor, router_id: u128) -> (r: NeighborDraft)
    ensures
        r@ == imported_neighbor(*e, router_id),
{
    let mut d = NeighborDraft::default();
    d.router_id = Some(router_id);
    d.neighbor_ip = copy_string(&e.neighbor_ip);
    d.remote_as = copy_string(&e.remote_as);
    d.description = copy_string(&e.description);
    d.update_source = copy_string(&e.update_source);
    d.next_hop_self = e.next_hop_self;
    d.route_reflector_client = e.route_reflector_client;
    d.hold_time = copy_string(&e.hold_time);
    d.keepalive = copy_string(&e.keepalive);
    d.bfd = e.bfd;
    d.soft_reconfiguration_inbound = e.soft_reconfiguration_inbound;
    d.address_family = AddressFamily::from_ip(e.neighbor_ip.as_str());
    d
}

/// "Imported R routers, P projects, N neighbors, T templates".
pub open spec fn import_summary_text(r: nat, p: nat, n: nat, t: nat) -> Seq<char> {
    "Imported "@ + decimal(r) + " routers, "@ + decimal(p) + " projects, "@ + decimal(n)
        + " neighbors, "@ + decimal(t) + " templates"@
}

pub fn import_summary(r: u32, p: u32, n: u32, t: u32) -> (s: String)
    ensures
        s@ == import_summary_text(r as nat, p as nat, n as nat, t as nat),
{
    let mut v = chars_of("Imported ");
    append_chars(&mut v, decimal_chars(r as u64));
    append_chars(&mut v, chars_of(" routers, "));
    append_chars(&mut v, decimal_chars(p as u64));
    append_chars(&mut v, chars_of(" projects, "));
    append_chars(&mut v, decimal_chars(n as u64));
    append_chars(&mut v, chars_of(" neighbors, "));
    append_chars(&mut v, decimal_chars(t as u64));
    append_chars(&mut v, chars_of(" templates"));
    string_of(&v)
}

/// Exporting a router and importing it back gives the same router but for
/// the id, password and router id (which the document leaves out).
pub proof fn law_router_export_import(r: RouterModel, e: ExportRouter, id: u128)
    requires
        router_exported(r, e),
    ensures
        imported_router(e, id) == (RouterModel { id, password: None, router_id: None, ..r }),
{
    law_vendor_label_roundtrip(r.vendor);
}

/// Exporting a stored neighbor and importing it back keeps every exported
/// field; the router id is the importing router's, the family follows the
/// address, and the password, ids, times and the other fields start anew.
pub proof fn law_neighbor_export_import(router: Seq<char>, d: DraftModel, e: ExportNeighbor, rid: u128)
    requires
        neighbor_exported(router, d, e),
    ensures
        imported_neighbor(e, rid) == (DraftModel {
            router_id: Some(rid),
            neighbor_ip: d.neighbor_ip,
            remote_as: d.remote_as,
            description: d.description,
            update_source: d.update_source,
            next_hop_self: d.next_hop_self,
            route_reflector_client: d.route_reflector_client,
            hold_time: d.hold_time,
            keepalive: d.keepalive,
            bfd: d.bfd,
            soft_reconfiguration_inbound: d.soft_reconfiguration_inbound,
            address_family: family_of_text(d.neighbor_ip),
            ..default_draft()
        }),
{
}

} // verus!

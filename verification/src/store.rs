//! The values the router store writes for a record, and the record it reads
//! back from them. The SQL itself is done by the front end; passwords are
//! sealed with `crate::crypto` under the store key.

use vstd::prelude::*;
use vstd::utf8::*;
use crate::crypto::{
    aes_gcm_plain_max, decrypt, encrypt, opened_text, seal_fits, sealed_text, CryptoError,
    NONCE_LEN,
};
use crate::net::{ip_text, law_ip_text_parses, parse_ip, parse_ip_text, IpAddress};
use crate::router::{
    law_vendor_label_roundtrip, vendor_read, vendor_label, RouterConfig, RouterModel,
    RouterVendor,
};
use crate::bgp::neighbor_draft::{
    family_of_text, AddressFamily, DraftModel, NeighborDraft, PeerTemplate, TemplateModel,
};
use crate::text::{
    chars_of, copy_opt_string, copy_string, decimal, opt_view, parse_unsigned,
    parse_unsigned_chars, signed_decimal, signed_decimal_chars, string_of, trim, trim_chars,
};

verus! {

broadcast use vstd::utf8::group_utf8_lib;

// ─── Routers ─────────────────────────────────────────────────────────────────

/// A row of the `routers` table.
pub struct RouterRow {
    pub id: u128,
    pub name: String,
    pub hostname: String,
    pub vendor: String,
    pub ssh_port: u16,
    pub username: String,
    pub password_enc: Option<String>,
    pub local_as: Option<u32>,
    pub router_id: Option<String>,
    pub vdom: Option<String>,
}

pub struct RouterRowModel {
    pub id: u128,
    pub name: Seq<char>,
    pub hostname: Seq<char>,
    pub vendor: Seq<char>,
    pub ssh_port: u16,
    pub username: Seq<char>,
    pub password_enc: Option<Seq<char>>,
    pub local_as: Option<u32>,
    pub router_id: Option<Seq<char>>,
    pub vdom: Option<Seq<char>>,
}

impl View for RouterRow {
    type V = RouterRowModel;

    open spec fn view(&self) -> RouterRowModel {
        RouterRowModel {
            id: self.id,
            name: self.name@,
            hostname: self.hostname@,
            vendor: self.vendor@,
            ssh_port: self.ssh_port,
            username: self.username@,
            password_enc: opt_view(self.password_enc),
            local_as: self.local_as,
            router_id: opt_view(self.router_id),
            vdom: opt_view(self.vdom),
        }
    }
}

/// The row a router is written as, given what its password was sealed to.
pub open spec fn router_row_of(r: RouterModel, password_enc: Option<Seq<char>>) -> RouterRowModel {
    RouterRowModel {
        id: r.id,
        name: r.name,
        hostname: r.hostname,
        vendor: vendor_label(r.vendor),
        ssh_port: r.ssh_port,
        username: r.username,
        password_enc,
        local_as: r.local_as,
        router_id: match r.router_id {
            Some(ip) => Some(ip_text(ip)),
            None => None,
        },
        vdom: r.vdom,
    }
}

/// The row for `r` when its password (if any) is sealed with `nonce`.
pub open spec fn stored_router(key: Seq<u8>, r: RouterModel, nonce: Seq<u8>) -> RouterRowModel {
    router_row_of(
        r,
        match r.password {
            Some(p) => Some(sealed_text(key, nonce, p)),
            None => None,
        },
    )
}

/// The password (if any) fits the sealed text's length in a `usize`.
pub open spec fn password_fits(p: Option<Seq<char>>) -> bool {
    match p {
        Some(t) => seal_fits(t),
        None => true,
    }
}

/// AES-GCM takes the password (if any): at most 2^36 bytes of UTF-8.
pub open spec fn password_sealable(p: Option<Seq<char>>) -> bool {
    match p {
        Some(t) => encode_utf8(t).len() <= aes_gcm_plain_max(),
        None => true,
    }
}

/// The router a row reads back as.
pub open spec fn router_read(key: Seq<u8>, row: RouterRowModel) -> RouterModel {
    RouterModel {
        id: row.id,
        name: row.name,
        hostname: row.hostname,
        vendor: vendor_read(row.vendor),
        ssh_port: row.ssh_port,
        username: row.username,
        password: match row.password_enc {
            Some(enc) => opened_text(key, enc),
            None => None,
        },
        local_as: row.local_as,
        router_id: match row.router_id {
            Some(t) => parse_ip_text(t),
            None => None,
        },
        vdom: row.vdom,
    }
}

/// The row `upsert` writes for a router: the password sealed under a fresh
/// nonce, the vendor by its name, the router id as text.
pub fn router_row(key: &[u8; 32], r: &RouterConfig) -> (res: Result<RouterRow, CryptoError>)
    requires
        password_fits(r@.password),
    ensures
        password_sealable(r@.password) ==> (res matches Ok(row) && exists|n: Seq<u8>|
            n.len() == NONCE_LEN && row@ == #[trigger] stored_router(key@, r@, n)),
        !password_sealable(r@.password) ==> res matches Err(CryptoError::Encrypt),
{
    let password_enc = match &r.password {
        Some(pw) => match encrypt(key, pw.as_str()) {
            Ok(s) => Some(s),
            Err(e) => return Err(e),
        },
        None => None,
    };
    let router_id = match &r.router_id {
        Some(ip) => Some(string_of(&ip.text())),
        None => None,
    };
    let row = RouterRow {
        id: r.id,
        name: copy_string(&r.name),
        hostname: copy_string(&r.hostname),
        vendor: String::from_str(r.vendor.label()),
        ssh_port: r.ssh_port,
        username: copy_string(&r.username),
        password_enc,
        local_as: r.local_as,
        router_id,
        vdom: copy_opt_string(&r.vdom),
    };
    proof {
        if password_sealable(r@.password) {
            match r@.password {
                Some(p) => {
                    let n = choose|n: Seq<u8>| n.len() == NONCE_LEN
                        && password_enc.unwrap()@ == #[trigger] sealed_text(key@, n, p);
                    assert(row@ == stored_router(key@, r@, n));
                },
                None => {
                    assert(row@ == stored_router(key@, r@, seq![0u8; 12]));
                },
            }
        }
    }
    Ok(row)
}

/// The router `load_all` reads from a row: the vendor by name (unknown names
/// read as Cisco), the password opened (a password that does not open reads
/// as none), the router id parsed (text that does not parse reads as none).
/// A router written by `router_row` reads back as itself.
pub fn router_from_row(key: &[u8; 32], row: &RouterRow) -> (r: RouterConfig)
    ensures
        r@ == router_read(key@, row@),
        forall|m: RouterModel, n: Seq<u8>|
            n.len() == NONCE_LEN && password_sealable(m.password) && row@ == #[trigger] stored_router(
                key@,
                m,
                n,
            ) ==> r@ == m,
{
    let vendor = RouterVendor::from_text(row.vendor.as_str());
    let password = match &row.password_enc {
        Some(enc) => match decrypt(key, enc.as_str()) {
            Ok(p) => Some(p),
            Err(_) => None,
        },
        None => None,
    };
    let router_id = match &row.router_id {
        Some(t) => parse_ip(&chars_of(t.as_str())),
        None => None,
    };
    let r = RouterConfig {
        id: row.id,
        name: copy_string(&row.name),
        hostname: copy_string(&row.hostname),
        vendor,
        ssh_port: row.ssh_port,
        username: copy_string(&row.username),
        password,
        local_as: row.local_as,
        router_id,
        vdom: copy_opt_string(&row.vdom),
    };
    proof {
        assert forall|m: RouterModel, n: Seq<u8>|
            n.len() == NONCE_LEN && password_sealable(m.password) && row@ == #[trigger] stored_router(
                key@,
                m,
                n,
            ) implies r@ == m by {
            law_vendor_label_roundtrip(m.vendor);
            match m.password {
                Some(p) => {
                    assert(sealed_text(key@, n, p) == row@.password_enc.unwrap());
                },
                None => {},
            }
            match m.router_id {
                Some(ip) => law_ip_text_parses(ip),
                None => {},
            }
        }
    }
    r
}

// ─── Desired-state neighbors ─────────────────────────────────────────────────

/// A number typed in a draft as the store reads it: trimmed and parsed as an
/// unsigned integer up to `max`, with `default` where that fails.
pub open spec fn number_or(s: Seq<char>, max: nat, default: nat) -> nat {
    match parse_unsigned(trim(s), max) {
        Some(v) => v,
        None => default,
    }
}

fn number_or_exec(s: &String, max: u64, default: u64) -> (r: u64)
    requires
        default <= max,
    ensures
        r as nat == number_or(s@, max as nat, default as nat),
        r <= max,
{
    match parse_unsigned_chars(&trim_chars(&chars_of(s.as_str())), max) {
        Some(v) => v,
        None => default,
    }
}

fn trimmed(s: &String) -> (r: String)
    ensures
        r@ == trim(s@),
{
    string_of(&trim_chars(&chars_of(s.as_str())))
}

/// The values `upsert_neighbor` writes for a draft.
pub struct NeighborRow {
    pub id: u128,
    pub router_id: u128,
    pub neighbor_ip: String,
    pub remote_as: u32,
    pub description: String,
    pub update_source: Option<String>,
    pub next_hop_self: bool,
    pub route_reflector_client: bool,
    pub hold_time: u16,
    pub keepalive: u16,
    pub password_enc: Option<String>,
    pub bfd: bool,
    pub soft_reconfiguration_inbound: bool,
    /// Microseconds since the Unix epoch.
    pub created_at: i64,
    /// Microseconds since the Unix epoch.
    pub updated_at: i64,
}

pub struct NeighborRowModel {
    pub id: u128,
    pub router_id: u128,
    pub neighbor_ip: Seq<char>,
    pub remote_as: u32,
    pub description: Seq<char>,
    pub update_source: Option<Seq<char>>,
    pub next_hop_self: bool,
    pub route_reflector_client: bool,
    pub hold_time: u16,
    pub keepalive: u16,
    pub password_enc: Option<Seq<char>>,
    pub bfd: bool,
    pub soft_reconfiguration_inbound: bool,
    pub created_at: i64,
    pub updated_at: i64,
}

impl View for NeighborRow {
    type V = NeighborRowModel;

    open spec fn view(&self) -> NeighborRowModel {
        NeighborRowModel {
            id: self.id,
            router_id: self.router_id,
            neighbor_ip: self.neighbor_ip@,
            remote_as: self.remote_as,
            description: self.description@,
            update_source: opt_view(self.update_source),
            next_hop_self: self.next_hop_self,
            route_reflector_client: self.route_reflector_client,
            hold_time: self.hold_time,
            keepalive: self.keepalive,
            password_enc: opt_view(self.password_enc),
            bfd: self.bfd,
            soft_reconfiguration_inbound: self.soft_reconfiguration_inbound,
            created_at: self.created_at,
            updated_at: self.updated_at,
        }
    }
}

/// The row for a draft of router `router_id`, written at `now`: a new draft
/// takes `fresh_id`; texts are trimmed; an empty update source is stored as
/// none; the AS reads as 0 and the timers as 180 and 60 where they do not
/// parse; the creation time is kept, or `now` for a new draft.
pub open spec fn neighbor_row_of(
    router_id: u128,
    d: DraftModel,
    fresh_id: u128,
    now: i64,
    password_enc: Option<Seq<char>>,
) -> NeighborRowModel {
    NeighborRowModel {
        id: match d.id {
            Some(i) => i,
            None => fresh_id,
        },
        router_id,
        neighbor_ip: trim(d.neighbor_ip),
        remote_as: number_or(d.remote_as, 0xFFFF_FFFF, 0) as u32,
        description: trim(d.description),
        update_source: if d.update_source.len() == 0 {
            None
        } else {
            Some(trim(d.update_source))
        },
        next_hop_self: d.next_hop_self,
        route_reflector_client: d.route_reflector_client,
        hold_time: number_or(d.hold_time, 65535, 180) as u16,
        keepalive: number_or(d.keepalive, 65535, 60) as u16,
        password_enc,
        bfd: d.bfd,
        soft_reconfiguration_inbound: d.soft_reconfiguration_inbound,
        created_at: match d.created_at {
            Some(t) => t,
            None => now,
        },
        updated_at: now,
    }
}

/// The row `upsert_neighbor` writes: as `neighbor_row_of`, with a non-empty
/// password sealed under a fresh nonce.
pub fn neighbor_row(
    key: &[u8; 32],
    router_id: u128,
    draft: &NeighborDraft,
    fresh_id: u128,
    now: i64,
) -> (res: Result<NeighborRow, CryptoError>)
    requires
        seal_fits(draft@.password),
    ensures
        draft@.password.len() == 0 ==> (res matches Ok(row) && row@ == neighbor_row_of(
            router_id,
            draft@,
            fresh_id,
            now,
            None,
        )),
        draft@.password.len() > 0 && encode_utf8(draft@.password).len() <= aes_gcm_plain_max() ==> (
        res matches Ok(row) && exists|n: Seq<u8>|
            n.len() == NONCE_LEN && row@ == #[trigger] neighbor_row_of(
                router_id,
                draft@,
                fresh_id,
                now,
                Some(sealed_text(key@, n, draft@.password)),
            )),
        encode_utf8(draft@.password).len() > aes_gcm_plain_max() ==> res matches Err(
            CryptoError::Encrypt,
        ),
{
    let password_enc = if draft.password.as_str().is_empty() {
        None
    } else {
        match encrypt(key, draft.password.as_str()) {
            Ok(s) => Some(s),
            Err(e) => return Err(e),
        }
    };
    let update_source = if draft.update_source.as_str().is_empty() {
        None
    } else {
        Some(trimmed(&draft.update_source))
    };
    let row = NeighborRow {
        id: match draft.id {
            Some(i) => i,
            None => fresh_id,
        },
        router_id,
        neighbor_ip: trimmed(&draft.neighbor_ip),
        remote_as: number_or_exec(&draft.remote_as, 0xFFFF_FFFF, 0) as u32,
        description: trimmed(&draft.description),
        update_source,
        next_hop_self: draft.next_hop_self,
        route_reflector_client: draft.route_reflector_client,
        hold_time: number_or_exec(&draft.hold_time, 65535, 180) as u16,
        keepalive: number_or_exec(&draft.keepalive, 65535, 60) as u16,
        password_enc,
        bfd: draft.bfd,
        soft_reconfiguration_inbound: draft.soft_reconfiguration_inbound,
        created_at: match draft.created_at {
            Some(t) => t,
            None => now,
        },
        updated_at: now,
    };
    proof {
        if draft@.password.len() > 0 && encode_utf8(draft@.password).len() <= aes_gcm_plain_max() {
            let n = choose|n: Seq<u8>| n.len() == NONCE_LEN
                && password_enc.unwrap()@ == #[trigger] sealed_text(key@, n, draft@.password);
            assert(row@ == neighbor_row_of(router_id, draft@, fresh_id, now, Some(sealed_text(key@, n, draft@.password))));
        }
    }
    Ok(row)
}

/// A row of the `neighbors` table as the query reads it.
pub struct StoredNeighbor {
    /// The row id, where its text parses as a UUID.
    pub id: Option<u128>,
    pub neighbor_ip: String,
    pub remote_as: u32,
    pub description: String,
    pub update_source: Option<String>,
    pub next_hop_self: i32,
    pub route_reflector_client: i32,
    pub hold_time: i32,
    pub keepalive: i32,
    pub password_enc: Option<String>,
    pub bfd: i32,
    pub soft_reconfiguration_inbound: i32,
    /// Where the stored time parses: microseconds since the Unix epoch.
    pub created_at: Option<i64>,
    pub updated_at: Option<i64>,
}

/// The stored password as the loader reads it: opened under `key`, or empty
/// where there is none or it does not open.
pub open spec fn password_read(key: Seq<u8>, enc: Option<Seq<char>>) -> Seq<char> {
    match enc {
        Some(e) => match opened_text(key, e) {
            Some(p) => p,
            None => seq![],
        },
        None => seq![],
    }
}

pub struct StoredNeighborModel {
    pub id: Option<u128>,
    pub neighbor_ip: Seq<char>,
    pub remote_as: u32,
    pub description: Seq<char>,
    pub update_source: Option<Seq<char>>,
    pub next_hop_self: i32,
    pub route_reflector_client: i32,
    pub hold_time: i32,
    pub keepalive: i32,
    pub password_enc: Option<Seq<char>>,
    pub bfd: i32,
    pub soft_reconfiguration_inbound: i32,
    pub created_at: Option<i64>,
    pub updated_at: Option<i64>,
}

impl View for StoredNeighbor {
    type V = StoredNeighborModel;

    open spec fn view(&self) -> StoredNeighborModel {
        StoredNeighborModel {
            id: self.id,
            neighbor_ip: self.neighbor_ip@,
            remote_as: self.remote_as,
            description: self.description@,
            update_source: opt_view(self.update_source),
            next_hop_self: self.next_hop_self,
            route_reflector_client: self.route_reflector_client,
            hold_time: self.hold_time,
            keepalive: self.keepalive,
            password_enc: opt_view(self.password_enc),
            bfd: self.bfd,
            soft_reconfiguration_inbound: self.soft_reconfiguration_inbound,
            created_at: self.created_at,
            updated_at: self.updated_at,
        }
    }
}

/// The flag a boolean is stored as.
pub open spec fn flag(b: bool) -> i32 {
    if b {
        1
    } else {
        0
    }
}

/// A written row as the query reads it back.
pub open spec fn stored_row(r: NeighborRowModel) -> StoredNeighborModel {
    StoredNeighborModel {
        id: Some(r.id),
        neighbor_ip: r.neighbor_ip,
        remote_as: r.remote_as,
        description: r.description,
        update_source: r.update_source,
        next_hop_self: flag(r.next_hop_self),
        route_reflector_client: flag(r.route_reflector_client),
        hold_time: r.hold_time as i32,
        keepalive: r.keepalive as i32,
        password_enc: r.password_enc,
        bfd: flag(r.bfd),
        soft_reconfiguration_inbound: flag(r.soft_reconfiguration_inbound),
        created_at: Some(r.created_at),
        updated_at: Some(r.updated_at),
    }
}

/// A draft whose texts are what the store keeps of them: trimmed, and the
/// numbers written as the values they read as.
pub open spec fn draft_normalized(d: DraftModel) -> bool {
    &&& trim(d.neighbor_ip) == d.neighbor_ip
    &&& trim(d.description) == d.description
    &&& d.update_source.len() > 0 ==> trim(d.update_source) == d.update_source
    &&& d.remote_as == decimal(number_or(d.remote_as, 0xFFFF_FFFF, 0))
    &&& d.hold_time == decimal(number_or(d.hold_time, 65535, 180))
    &&& d.keepalive == decimal(number_or(d.keepalive, 65535, 60))
}

/// The stored password of a draft sealed with `nonce` (none when empty).
pub open spec fn sealed_password(key: Seq<u8>, p: Seq<char>, nonce: Seq<u8>) -> Option<Seq<char>> {
    if p.len() == 0 {
        None
    } else {
        Some(sealed_text(key, nonce, p))
    }
}

/// The draft read back after writing `d` for router `router_id`: the id it
/// was stored under, the family its address suggests, the creation and
/// update times, and defaults for the fields the store does not keep.
pub open spec fn draft_reread(d: DraftModel, router_id: u128, fresh_id: u128, now: i64) -> DraftModel {
    DraftModel {
        id: Some(
            match d.id {
                Some(i) => i,
                None => fresh_id,
            },
        ),
        router_id: Some(router_id),
        address_family: family_of_text(d.neighbor_ip),
        maximum_prefix: seq![],
        maximum_prefix_warning: true,
        weight: seq![],
        default_local_pref: seq![],
        created_at: Some(
            match d.created_at {
                Some(t) => t,
                None => now,
            },
        ),
        updated_at: Some(now),
        ..d
    }
}

/// The draft `load_neighbors` builds from a row of router `router_id`.
pub open spec fn neighbor_read(key: Seq<u8>, router_id: u128, row: StoredNeighborModel) -> DraftModel {
    DraftModel {
        id: row.id,
        router_id: Some(router_id),
        neighbor_ip: row.neighbor_ip,
        remote_as: decimal(row.remote_as as nat),
        description: row.description,
        update_source: match row.update_source {
            Some(s) => s,
            None => seq![],
        },
        next_hop_self: row.next_hop_self != 0,
        route_reflector_client: row.route_reflector_client != 0,
        hold_time: signed_decimal(row.hold_time as int),
        keepalive: signed_decimal(row.keepalive as int),
        password: password_read(key, row.password_enc),
        bfd: row.bfd != 0,
        soft_reconfiguration_inbound: row.soft_reconfiguration_inbound != 0,
        address_family: family_of_text(row.neighbor_ip),
        maximum_prefix: seq![],
        maximum_prefix_warning: true,
        weight: seq![],
        default_local_pref: seq![],
        created_at: row.created_at,
        updated_at: row.updated_at,
    }
}

fn read_password(key: &[u8; 32], enc: &Option<String>) -> (r: String)
    ensures
        r@ == password_read(key@, opt_view(*enc)),
        forall|n: Seq<u8>, p: Seq<char>|
            n.len() == NONCE_LEN && encode_utf8(p).len() <= aes_gcm_plain_max() && opt_view(*enc)
                == Some(#[trigger] sealed_text(key@, n, p)) ==> r@ == p,
{
    match enc {
        Some(e) => match decrypt(key, e.as_str()) {
            Ok(p) => p,
            Err(_) => String::new(),
        },
        None => String::new(),
    }
}

/// The draft read back from a stored row. A draft written by `neighbor_row`
/// whose texts are already normalized reads back as itself, but for the
/// store's id and times, the family its address suggests and the fields
/// the store does not keep.
pub fn draft_from_row(key: &[u8; 32], router_id: u128, row: &StoredNeighbor) -> (d: NeighborDraft)
    ensures
        d@ == neighbor_read(key@, router_id, row@),
        forall|w: DraftModel, fresh_id: u128, now: i64, n: Seq<u8>|
            n.len() == NONCE_LEN && encode_utf8(w.password).len() <= aes_gcm_plain_max()
                && draft_normalized(w) && row@ == #[trigger] stored_row(
                neighbor_row_of(router_id, w, fresh_id, now, sealed_password(key@, w.password, n)),
            ) ==> d@ == draft_reread(w, router_id, fresh_id, now),
{
    let d = NeighborDraft {
        id: row.id,
        router_id: Some(router_id),
        neighbor_ip: copy_string(&row.neighbor_ip),
        remote_as: string_of(&crate::text::decimal_chars(row.remote_as as u64)),
        description: copy_string(&row.description),
        update_source: match &row.update_source {
            Some(s) => copy_string(s),
            None => String::new(),
        },
        next_hop_self: row.next_hop_self != 0,
        route_reflector_client: row.route_reflector_client != 0,
        hold_time: string_of(&signed_decimal_chars(row.hold_time)),
        keepalive: string_of(&signed_decimal_chars(row.keepalive)),
        password: read_password(key, &row.password_enc),
        bfd: row.bfd != 0,
        soft_reconfiguration_inbound: row.soft_reconfiguration_inbound != 0,
        address_family: AddressFamily::from_ip(row.neighbor_ip.as_str()),
        maximum_prefix: String::new(),
        maximum_prefix_warning: true,
        weight: String::new(),
        default_local_pref: String::new(),
        created_at: row.created_at,
        updated_at: row.updated_at,
    };
    proof {
        assert forall|w: DraftModel, fresh_id: u128, now: i64, n: Seq<u8>|
            n.len() == NONCE_LEN && encode_utf8(w.password).len() <= aes_gcm_plain_max()
                && draft_normalized(w) && row@ == #[trigger] stored_row(
                neighbor_row_of(router_id, w, fresh_id, now, sealed_password(key@, w.password, n)),
            ) implies d@ == draft_reread(w, router_id, fresh_id, now) by {
            let e = draft_reread(w, router_id, fresh_id, now);
            if w.password.len() > 0 {
                assert(opt_view(row.password_enc) == Some(sealed_text(key@, n, w.password)));
            } else {
                assert(w.password =~= Seq::<char>::empty());
            }
            if w.update_source.len() == 0 {
                assert(w.update_source =~= Seq::<char>::empty());
            }
            assert(d@.password == e.password);
        }
    }
    d
}

// ─── Peer templates ──────────────────────────────────────────────────────────

/// The values `upsert_peer_template` writes.
pub struct TemplateRow {
    pub id: u128,
    pub name: String,
    pub remote_as: Option<String>,
    pub description_prefix: Option<String>,
    pub update_source: Option<String>,
    pub next_hop_self: bool,
    pub route_reflector_client: bool,
    pub hold_time: u16,
    pub keepalive: u16,
    pub bfd: bool,
    pub soft_reconfiguration_inbound: bool,
}

/// The row for a template: an empty update source is stored as none, and
/// timers that do not parse as 180 and 60.
pub open spec fn template_row_matches(row: TemplateRow, t: TemplateModel) -> bool {
    &&& row.id == t.id
    &&& row.name@ == t.name
    &&& opt_view(row.remote_as) == t.remote_as
    &&& opt_view(row.description_prefix) == t.description_prefix
    &&& opt_view(row.update_source) == (if t.update_source.len() == 0 {
        None
    } else {
        Some(t.update_source)
    })
    &&& row.next_hop_self == t.next_hop_self
    &&& row.route_reflector_client == t.route_reflector_client
    &&& row.hold_time == number_or(t.hold_time, 65535, 180)
    &&& row.keepalive == number_or(t.keepalive, 65535, 60)
    &&& row.bfd == t.bfd
    &&& row.soft_reconfiguration_inbound == t.soft_reconfiguration_inbound
}

pub fn template_row(t: &PeerTemplate) -> (row: TemplateRow)
    ensures
        template_row_matches(row, t@),
{
    TemplateRow {
        id: t.id,
        name: copy_string(&t.name),
        remote_as: copy_opt_string(&t.remote_as),
        description_prefix: copy_opt_string(&t.description_prefix),
        update_source: if t.update_source.as_str().is_empty() {
            None
        } else {
            Some(copy_string(&t.update_source))
        },
        next_hop_self: t.next_hop_self,
        route_reflector_client: t.route_reflector_client,
        hold_time: number_or_exec(&t.hold_time, 65535, 180) as u16,
        keepalive: number_or_exec(&t.keepalive, 65535, 60) as u16,
        bfd: t.bfd,
        soft_reconfiguration_inbound: t.soft_reconfiguration_inbound,
    }
}

/// A row of the `peer_templates` table as the query reads it.
pub struct StoredTemplate {
    pub id: u128,
    pub name: String,
    pub remote_as: Option<String>,
    pub description_prefix: Option<String>,
    pub update_source: Option<String>,
    pub next_hop_self: i32,
    pub route_reflector_client: i32,
    pub hold_time: i32,
    pub keepalive: i32,
    pub bfd: i32,
    pub soft_reconfiguration_inbound: i32,
}

/// The template `load_peer_templates` builds from a row.
pub open spec fn template_read(row: StoredTemplate) -> TemplateModel {
    TemplateModel {
        id: row.id,
        name: row.name@,
        remote_as: opt_view(row.remote_as),
        description_prefix: opt_view(row.description_prefix),
        update_source: match row.update_source {
            Some(s) => s@,
            None => seq![],
        },
        next_hop_self: row.next_hop_self != 0,
        route_reflector_client: row.route_reflector_client != 0,
        hold_time: signed_decimal(row.hold_time as int),
        keepalive: signed_decimal(row.keepalive as int),
        bfd: row.bfd != 0,
        soft_reconfiguration_inbound: row.soft_reconfiguration_inbound != 0,
    }
}

/// A written template row as the query reads it back.
pub open spec fn template_stored_as(row: TemplateRow, stored: StoredTemplate) -> bool {
    &&& stored.id == row.id
    &&& stored.name@ == row.name@
    &&& opt_view(stored.remote_as) == opt_view(row.remote_as)
    &&& opt_view(stored.description_prefix) == opt_view(row.description_prefix)
    &&& opt_view(stored.update_source) == opt_view(row.update_source)
    &&& stored.next_hop_self == flag(row.next_hop_self)
    &&& stored.route_reflector_client == flag(row.route_reflector_client)
    &&& stored.hold_time == row.hold_time as i32
    &&& stored.keepalive == row.keepalive as i32
    &&& stored.bfd == flag(row.bfd)
    &&& stored.soft_reconfiguration_inbound == flag(row.soft_reconfiguration_inbound)
}

/// A template whose timers are written as the values they read as.
pub open spec fn template_normalized(t: TemplateModel) -> bool {
    &&& t.hold_time == decimal(number_or(t.hold_time, 65535, 180))
    &&& t.keepalive == decimal(number_or(t.keepalive, 65535, 60))
}

/// A template written to the store and read back is the same template,
/// when its timers are written as the numbers they read as.
pub proof fn law_template_store_roundtrip(t: TemplateModel, row: TemplateRow, stored: StoredTemplate)
    requires
        template_row_matches(row, t),
        template_stored_as(row, stored),
        template_normalized(t),
    ensures
        template_read(stored) == t,
{
    if t.update_source.len() == 0 {
        assert(t.update_source =~= Seq::<char>::empty());
    }
}

pub fn template_from_row(row: &StoredTemplate) -> (t: PeerTemplate)
    ensures
        t@ == template_read(*row),
{
    PeerTemplate {
        id: row.id,
        name: copy_string(&row.name),
        remote_as: copy_opt_string(&row.remote_as),
        description_prefix: copy_opt_string(&row.description_prefix),
        update_source: match &row.update_source {
            Some(s) => copy_string(s),
            None => String::new(),
        },
        next_hop_self: row.next_hop_self != 0,
        route_reflector_client: row.route_reflector_client != 0,
        hold_time: string_of(&signed_decimal_chars(row.hold_time)),
        keepalive: string_of(&signed_decimal_chars(row.keepalive)),
        bfd: row.bfd != 0,
        soft_reconfiguration_inbound: row.soft_reconfiguration_inbound != 0,
    }
}

} // verus!

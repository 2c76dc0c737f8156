//! Router records, their vendors, and projects (named groups of routers).
//! Routers and projects are identified by 128-bit ids.

use vstd::prelude::*;

use crate::net::IpAddress;
use crate::text::{
    ascii_lower, chars_of, copy_opt_string, copy_string, decimal, decimal_chars, is_ascii_text,
    lemma_decimal_nonempty, lemma_decimal_roundtrip, opt_view, parse_unsigned,
    parse_unsigned_chars, str_lowercase, string_of, to_lowercase, trim, trim_chars,
};

verus! {

/// The router platforms the commands are generated for.
#[derive(Debug, Clone, Copy, PartialEq, Eq, Structural)]
pub enum RouterVendor {
    Cisco,
    VyOs,
    CitrixVpx,
    PfSense,
    FortiGate,
    A10,
}

pub open spec fn vendor_label(v: RouterVendor) -> Seq<char> {
    match v {
        RouterVendor::Cisco => "Cisco"@,
        RouterVendor::VyOs => "VyOS"@,
        RouterVendor::CitrixVpx => "CitrixVPX"@,
        RouterVendor::PfSense => "pfSense"@,
        RouterVendor::FortiGate => "FortiGate"@,
        RouterVendor::A10 => "A10"@,
    }
}

/// The vendor a lower-cased name selects; anything unknown is Cisco.
pub open spec fn vendor_from_lower(l: Seq<char>) -> RouterVendor {
    if l == "vyos"@ {
        RouterVendor::VyOs
    } else if l == "citrixvpx"@ || l == "citrix"@ {
        RouterVendor::CitrixVpx
    } else if l == "pfsense"@ {
        RouterVendor::PfSense
    } else if l == "fortigate"@ {
        RouterVendor::FortiGate
    } else if l == "a10"@ {
        RouterVendor::A10
    } else {
        RouterVendor::Cisco
    }
}

/// The vendor a typed name selects, case-insensitively.
pub open spec fn vendor_from_text(s: Seq<char>) -> RouterVendor {
    vendor_from_lower(str_lowercase(s))
}

/// The vendor a stored or typed name reads as: for an ASCII name, by its
/// ASCII lower-casing (what the Unicode lower-casing gives on ASCII text).
pub open spec fn vendor_read(s: Seq<char>) -> RouterVendor {
    if is_ascii_text(s) {
        vendor_from_lower(ascii_lowered(s))
    } else {
        vendor_from_text(s)
    }
}

pub open spec fn ascii_lowered(s: Seq<char>) -> Seq<char> {
    s.map_values(|c: char| ascii_lower(c))
}

/// The vendor after `v` in the editor's cycle.
pub open spec fn vendor_after(v: RouterVendor) -> RouterVendor {
    match v {
        RouterVendor::Cisco => RouterVendor::VyOs,
        RouterVendor::VyOs => RouterVendor::CitrixVpx,
        RouterVendor::CitrixVpx => RouterVendor::PfSense,
        RouterVendor::PfSense => RouterVendor::FortiGate,
        RouterVendor::FortiGate => RouterVendor::A10,
        RouterVendor::A10 => RouterVendor::Cisco,
    }
}

impl RouterVendor {
    /// The name that `Display` writes.
    pub fn label(&self) -> (r: &'static str)
        ensures
            r@ == vendor_label(*self),
    {
        match self {
            RouterVendor::Cisco => "Cisco",
            RouterVendor::VyOs => "VyOS",
            RouterVendor::CitrixVpx => "CitrixVPX",
            RouterVendor::PfSense => "pfSense",
            RouterVendor::FortiGate => "FortiGate",
            RouterVendor::A10 => "A10",
        }
    }

    /// The vendor a typed (or stored) name selects.
    pub fn from_text(s: &str) -> (r: RouterVendor)
        ensures
            r == vendor_from_text(s@),
            r == vendor_read(s@),
    {
        let l = to_lowercase(&chars_of(s));
        let t = string_of(&l);
        if t.eq(&String::from_str("vyos")) {
            RouterVendor::VyOs
        } else if t.eq(&String::from_str("citrixvpx")) || t.eq(&String::from_str("citrix")) {
            RouterVendor::CitrixVpx
        } else if t.eq(&String::from_str("pfsense")) {
            RouterVendor::PfSense
        } else if t.eq(&String::from_str("fortigate")) {
            RouterVendor::FortiGate
        } else if t.eq(&String::from_str("a10")) {
            RouterVendor::A10
        } else {
            RouterVendor::Cisco
        }
    }

    /// The next vendor in the editor's cycle (Space on the vendor field).
    pub fn cycled(&self) -> (r: RouterVendor)
        ensures
            r == vendor_after(*self),
    {
        match self {
            RouterVendor::Cisco => RouterVendor::VyOs,
            RouterVendor::VyOs => RouterVendor::CitrixVpx,
            RouterVendor::CitrixVpx => RouterVendor::PfSense,
            RouterVendor::PfSense => RouterVendor::FortiGate,
            RouterVendor::FortiGate => RouterVendor::A10,
            RouterVendor::A10 => RouterVendor::Cisco,
        }
    }
}

/// Space on the vendor field goes through all six vendors and comes back.
pub proof fn law_vendor_cycle(v: RouterVendor)
    ensures
        vendor_after(vendor_after(vendor_after(vendor_after(vendor_after(vendor_after(v)))))) == v,
        vendor_after(v) != v,
{
}

/// A vendor's own name reads back as the vendor.
pub proof fn law_vendor_label_roundtrip(v: RouterVendor)
    ensures
        is_ascii_text(vendor_label(v)),
        vendor_from_lower(ascii_lowered(vendor_label(v))) == v,
        vendor_read(vendor_label(v)) == v,
{
    reveal_strlit("Cisco");
    reveal_strlit("VyOS");
    reveal_strlit("CitrixVPX");
    reveal_strlit("pfSense");
    reveal_strlit("FortiGate");
    reveal_strlit("A10");
    reveal_strlit("cisco");
    reveal_strlit("vyos");
    reveal_strlit("citrixvpx");
    reveal_strlit("citrix");
    reveal_strlit("pfsense");
    reveal_strlit("fortigate");
    reveal_strlit("a10");
    let s = vendor_label(v);
    let low = ascii_lowered(s);
    match v {
        RouterVendor::Cisco => {
            assert(low =~= "cisco"@);
            assert(low != "vyos"@ && low != "citrixvpx"@ && low != "citrix"@ && low != "pfsense"@
                && low != "fortigate"@ && low != "a10"@) by {
                assert(low.len() == 5);
                assert(low[0] == 'c' && low[2] == 's');
            }
        },
        RouterVendor::VyOs => {
            assert(low =~= "vyos"@);
        },
        RouterVendor::CitrixVpx => {
            assert(low =~= "citrixvpx"@);
            assert(low.len() != "vyos"@.len());
        },
        RouterVendor::PfSense => {
            assert(low =~= "pfsense"@);
            assert(low.len() != "vyos"@.len() && low.len() != "citrixvpx"@.len() && low.len()
                != "citrix"@.len());
        },
        RouterVendor::FortiGate => {
            assert(low =~= "fortigate"@);
            assert(low.len() != "vyos"@.len() && low[0] != 'c' && low.len() != "pfsense"@.len());
        },
        RouterVendor::A10 => {
            assert(low =~= "a10"@);
            assert(low.len() != "vyos"@.len() && low.len() != "citrixvpx"@.len() && low.len()
                != "citrix"@.len() && low.len() != "pfsense"@.len() && low.len()
                != "fortigate"@.len());
        },
    }
}

/// How a router was last seen: reachable, not reachable, or failing with a
/// short error text.
#[derive(Debug, Clone)]
pub enum ConnectionStatus {
    Disconnected,
    Connected,
    Error(String),
}

pub enum ConnectionModel {
    Disconnected,
    Connected,
    Error(Seq<char>),
}

impl View for ConnectionStatus {
    type V = ConnectionModel;

    open spec fn view(&self) -> ConnectionModel {
        match self {
            ConnectionStatus::Disconnected => ConnectionModel::Disconnected,
            ConnectionStatus::Connected => ConnectionModel::Connected,
            ConnectionStatus::Error(e) => ConnectionModel::Error(e@),
        }
    }
}

pub open spec fn connection_text(c: ConnectionModel) -> Seq<char> {
    match c {
        ConnectionModel::Disconnected => "Disconnected"@,
        ConnectionModel::Connected => "Connected"@,
        ConnectionModel::Error(e) => "Error: "@ + e,
    }
}

impl ConnectionStatus {
    pub fn is_connected(&self) -> (r: bool)
        ensures
            r == (self@ is Connected),
    {
        match self {
            ConnectionStatus::Connected => true,
            _ => false,
        }
    }

    /// The text that `Display` writes.
    pub fn text(&self) -> (r: String)
        ensures
            r@ == connection_text(self@),
    {
        match self {
            ConnectionStatus::Disconnected => String::from_str("Disconnected"),
            ConnectionStatus::Connected => String::from_str("Connected"),
            ConnectionStatus::Error(e) => {
                let mut v = chars_of("Error: ");
                crate::text::append_chars(&mut v, chars_of(e.as_str()));
                string_of(&v)
            },
        }
    }
}

// ─── Router records ──────────────────────────────────────────────────────────

/// A managed router: how to reach it and what it runs.
#[derive(Debug, Clone)]
pub struct RouterConfig {
    pub id: u128,
    pub name: String,
    pub hostname: String,
    pub vendor: RouterVendor,
    pub ssh_port: u16,
    pub username: String,
    pub password: Option<String>,
    pub local_as: Option<u32>,
    pub router_id: Option<IpAddress>,
    /// FortiGate virtual domain.
    pub vdom: Option<String>,
}

/// A router record by its characters.
pub struct RouterModel {
    pub id: u128,
    pub name: Seq<char>,
    pub hostname: Seq<char>,
    pub vendor: RouterVendor,
    pub ssh_port: u16,
    pub username: Seq<char>,
    pub password: Option<Seq<char>>,
    pub local_as: Option<u32>,
    pub router_id: Option<IpAddress>,
    pub vdom: Option<Seq<char>>,
}

impl View for RouterConfig {
    type V = RouterModel;

    open spec fn view(&self) -> RouterModel {
        RouterModel {
            id: self.id,
            name: self.name@,
            hostname: self.hostname@,
            vendor: self.vendor,
            ssh_port: self.ssh_port,
            username: self.username@,
            password: opt_view(self.password),
            local_as: self.local_as,
            router_id: self.router_id,
            vdom: opt_view(self.vdom),
        }
    }
}

/// A new router record: no id yet (0), empty texts, Cisco on the SSH port.
pub open spec fn default_router() -> RouterModel {
    RouterModel {
        id: 0,
        name: seq![],
        hostname: seq![],
        vendor: RouterVendor::Cisco,
        ssh_port: 22,
        username: seq![],
        password: None,
        local_as: None,
        router_id: None,
        vdom: None,
    }
}

impl Default for RouterConfig {
    fn default() -> (r: Self)
        ensures
            r@ == default_router(),
    {
        RouterConfig {
            id: 0,
            name: String::new(),
            hostname: String::new(),
            vendor: RouterVendor::Cisco,
            ssh_port: 22,
            username: String::new(),
            password: None,
            local_as: None,
            router_id: None,
            vdom: None,
        }
    }
}

impl RouterConfig {
    /// A copy with the same contents.
    pub fn duplicate(&self) -> (r: RouterConfig)
        ensures
            r@ == self@,
    {
        RouterConfig {
            id: self.id,
            name: copy_string(&self.name),
            hostname: copy_string(&self.hostname),
            vendor: self.vendor,
            ssh_port: self.ssh_port,
            username: copy_string(&self.username),
            password: copy_opt_string(&self.password),
            local_as: self.local_as,
            router_id: self.router_id,
            vdom: copy_opt_string(&self.vdom),
        }
    }
}

// ─── Projects ────────────────────────────────────────────────────────────────

/// A named group of routers.
#[derive(Debug, Clone)]
pub struct Project {
    pub id: u128,
    pub name: String,
    pub router_ids: Vec<u128>,
}

/// Draws a fresh random id (a version-4 UUID as a 128-bit number). Nothing
/// is stated of the value: it is random.
#[verifier::external_body]
fn random_id() -> (r: u128) {
    uuid::Uuid::new_v4().as_u128()
}

impl Project {
    /// A new, empty project with a fresh random id.
    pub fn new(name: String) -> (r: Project)
        ensures
            r.name@ == name@,
            r.router_ids@.len() == 0,
    {
        Project { id: random_id(), name, router_ids: Vec::new() }
    }
}

/// Whether `ids` holds `id`.
pub open spec fn has_id(ids: Seq<u128>, id: u128) -> bool {
    exists|i: int| 0 <= i < ids.len() && ids[i] == id
}

/// The members after a toggle of `id`: its first occurrence goes, or it is
/// added at the end when absent.
pub open spec fn toggled_members(ids: Seq<u128>, id: u128) -> Seq<u128> {
    match first_index(ids, id, 0) {
        Some(p) => ids.remove(p),
        None => ids.push(id),
    }
}

pub open spec fn first_index(ids: Seq<u128>, id: u128, i: int) -> Option<int>
    decreases ids.len() - i,
{
    if i < 0 || i >= ids.len() {
        None
    } else if ids[i] == id {
        Some(i)
    } else {
        first_index(ids, id, i + 1)
    }
}

pub proof fn lemma_first_index(ids: Seq<u128>, id: u128, i: int)
    requires
        0 <= i,
    ensures
        first_index(ids, id, i) matches Some(p) ==> i <= p < ids.len() && ids[p] == id && forall|
            q: int,
        | i <= q < p ==> ids[q] != id,
        first_index(ids, id, i) is None ==> forall|q: int| i <= q < ids.len() ==> ids[q] != id,
    decreases ids.len() - i,
{
    if i < ids.len() && ids[i] != id {
        lemma_first_index(ids, id, i + 1);
    }
}

/// No id occurs twice.
pub open spec fn distinct_ids(ids: Seq<u128>) -> bool {
    forall|a: int, b: int| 0 <= a < ids.len() && 0 <= b < ids.len() && a != b ==> ids[a] != ids[b]
}

/// Toggles the membership of a router in a project.
pub fn toggle_member(ids: &mut Vec<u128>, id: u128)
    ensures
        final(ids)@ == toggled_members(old(ids)@, id),
{
    let mut i: usize = 0;
    while i < ids.len()
        invariant
            i <= ids.len(),
            ids@ == old(ids)@,
            first_index(ids@, id, 0) == first_index(ids@, id, i as int),
        decreases ids.len() - i,
    {
        if ids[i] == id {
            ids.remove(i);
            return;
        }
        i = i + 1;
    }
    ids.push(id);
}

/// Toggling flips membership and keeps ids distinct; toggling twice gives
/// the same members back.
pub proof fn law_toggle_member(ids: Seq<u128>, id: u128)
    requires
        distinct_ids(ids),
    ensures
        has_id(toggled_members(ids, id), id) == !has_id(ids, id),
        distinct_ids(toggled_members(ids, id)),
        forall|x: u128| x != id ==> (has_id(toggled_members(ids, id), x) == has_id(ids, x)),
        forall|x: u128| has_id(toggled_members(toggled_members(ids, id), id), x) == has_id(ids, x),
{
    lemma_toggle_facts(ids, id);
    lemma_toggle_facts(toggled_members(ids, id), id);
}

proof fn lemma_toggle_facts(ids: Seq<u128>, id: u128)
    requires
        distinct_ids(ids),
    ensures
        has_id(toggled_members(ids, id), id) == !has_id(ids, id),
        distinct_ids(toggled_members(ids, id)),
        forall|x: u128| x != id ==> (has_id(toggled_members(ids, id), x) == has_id(ids, x)),
{
    lemma_first_index(ids, id, 0);
    let t = toggled_members(ids, id);
    match first_index(ids, id, 0) {
        Some(p) => {
            assert forall|q: int| 0 <= q < t.len() implies t[q] == (if q < p {
                ids[q]
            } else {
                ids[q + 1]
            }) by {}
            assert(has_id(ids, id));
            if has_id(t, id) {
                let w = choose|w: int| 0 <= w < t.len() && t[w] == id;
                if w < p {
                    assert(ids[w] == id);
                } else {
                    assert(ids[w + 1] == id);
                }
            }
            assert forall|x: u128| x != id implies (has_id(t, x) == has_id(ids, x)) by {
                if has_id(ids, x) {
                    let w = choose|w: int| 0 <= w < ids.len() && ids[w] == x;
                    if w < p {
                        assert(t[w] == x);
                    } else {
                        assert(w != p);
                        assert(t[w - 1] == x);
                    }
                }
                if has_id(t, x) {
                    let w = choose|w: int| 0 <= w < t.len() && t[w] == x;
                    if w < p {
                        assert(ids[w] == x);
                    } else {
                        assert(ids[w + 1] == x);
                    }
                }
            }
        },
        None => {
            assert(t[ids.len() as int] == id);
            assert(!has_id(ids, id));
            assert forall|x: u128| x != id implies (has_id(t, x) == has_id(ids, x)) by {
                if has_id(ids, x) {
                    let w = choose|w: int| 0 <= w < ids.len() && ids[w] == x;
                    assert(t[w] == x);
                }
                if has_id(t, x) {
                    let w = choose|w: int| 0 <= w < t.len() && t[w] == x;
                    assert(ids[w] == x);
                }
            }
        },
    }
}

} // verus!

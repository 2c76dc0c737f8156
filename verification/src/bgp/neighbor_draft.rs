//! The neighbor wizard's input: a draft of a BGP neighbor, its fields and
//! their validation, and peer templates that prefill drafts.

use vstd::prelude::*;

use crate::net::{is_v6, parse_ip, parse_ip_text, IpAddress};
use crate::text::{
    chars_of, copy_string, has_char, has_char_exec, parse_unsigned, parse_unsigned_chars,
    repeat_char, repeated, string_of, trim, trim_chars,
};

verus! {

// ─── Address Family ──────────────────────────────────────────────────────────

#[derive(Debug, Clone, Copy, PartialEq, Eq, Structural)]
pub enum AddressFamily {
    Ipv4Unicast,
    Ipv6Unicast,
}

impl Default for AddressFamily {
    fn default() -> (r: Self)
        ensures
            r == AddressFamily::Ipv4Unicast,
    {
        AddressFamily::Ipv4Unicast
    }
}

pub open spec fn family_label(f: AddressFamily) -> Seq<char> {
    match f {
        AddressFamily::Ipv4Unicast => "IPv4 Unicast"@,
        AddressFamily::Ipv6Unicast => "IPv6 Unicast"@,
    }
}

pub open spec fn family_of_text(ip: Seq<char>) -> AddressFamily {
    if has_char(ip, ':') {
        AddressFamily::Ipv6Unicast
    } else {
        AddressFamily::Ipv4Unicast
    }
}

pub open spec fn other_family(f: AddressFamily) -> AddressFamily {
    match f {
        AddressFamily::Ipv4Unicast => AddressFamily::Ipv6Unicast,
        AddressFamily::Ipv6Unicast => AddressFamily::Ipv4Unicast,
    }
}

impl AddressFamily {
    pub fn toggle(&self) -> (r: Self)
        ensures
            r == other_family(*self),
    {
        match self {
            AddressFamily::Ipv4Unicast => AddressFamily::Ipv6Unicast,
            AddressFamily::Ipv6Unicast => AddressFamily::Ipv4Unicast,
        }
    }

    /// The family that an address text suggests: IPv6 when it holds a colon.
    pub fn from_ip(ip: &str) -> (r: Self)
        ensures
            r == family_of_text(ip@),
    {
        if has_char_exec(&chars_of(ip), ':') {
            AddressFamily::Ipv6Unicast
        } else {
            AddressFamily::Ipv4Unicast
        }
    }

    /// The text that `Display` writes.
    pub fn label(&self) -> (r: &'static str)
        ensures
            r@ == family_label(*self),
    {
        match self {
            AddressFamily::Ipv4Unicast => "IPv4 Unicast",
            AddressFamily::Ipv6Unicast => "IPv6 Unicast",
        }
    }
}

// ─── Neighbor draft ──────────────────────────────────────────────────────────

#[derive(Debug, Clone)]
pub struct NeighborDraft {
    pub id: Option<u128>,
    pub router_id: Option<u128>,
    pub neighbor_ip: String,
    pub remote_as: String,
    pub description: String,
    pub update_source: String,
    pub next_hop_self: bool,
    pub route_reflector_client: bool,
    pub hold_time: String,
    pub keepalive: String,
    pub password: String,
    pub bfd: bool,
    pub soft_reconfiguration_inbound: bool,
    pub address_family: AddressFamily,
    pub maximum_prefix: String,
    pub maximum_prefix_warning: bool,
    pub weight: String,
    pub default_local_pref: String,
    /// Microseconds since the Unix epoch.
    pub created_at: Option<i64>,
    /// Microseconds since the Unix epoch.
    pub updated_at: Option<i64>,
}

/// A draft as a mathematical value.
pub struct DraftModel {
    pub id: Option<u128>,
    pub router_id: Option<u128>,
    pub neighbor_ip: Seq<char>,
    pub remote_as: Seq<char>,
    pub description: Seq<char>,
    pub update_source: Seq<char>,
    pub next_hop_self: bool,
    pub route_reflector_client: bool,
    pub hold_time: Seq<char>,
    pub keepalive: Seq<char>,
    pub password: Seq<char>,
    pub bfd: bool,
    pub soft_reconfiguration_inbound: bool,
    pub address_family: AddressFamily,
    pub maximum_prefix: Seq<char>,
    pub maximum_prefix_warning: bool,
    pub weight: Seq<char>,
    pub default_local_pref: Seq<char>,
    pub created_at: Option<i64>,
    pub updated_at: Option<i64>,
}

impl View for NeighborDraft {
    type V = DraftModel;

    open spec fn view(&self) -> DraftModel {
        DraftModel {
            id: self.id,
            router_id: self.router_id,
            neighbor_ip: self.neighbor_ip@,
            remote_as: self.remote_as@,
            description: self.description@,
            update_source: self.update_source@,
            next_hop_self: self.next_hop_self,
            route_reflector_client: self.route_reflector_client,
            hold_time: self.hold_time@,
            keepalive: self.keepalive@,
            password: self.password@,
            bfd: self.bfd,
            soft_reconfiguration_inbound: self.soft_reconfiguration_inbound,
            address_family: self.address_family,
            maximum_prefix: self.maximum_prefix@,
            maximum_prefix_warning: self.maximum_prefix_warning,
            weight: self.weight@,
            default_local_pref: self.default_local_pref@,
            created_at: self.created_at,
            updated_at: self.updated_at,
        }
    }
}

/// The draft a new neighbor starts from.
pub open spec fn default_draft() -> DraftModel {
    DraftModel {
        id: None,
        router_id: None,
        neighbor_ip: seq![],
        remote_as: seq![],
        description: seq![],
        update_source: seq![],
        next_hop_self: false,
        route_reflector_client: false,
        hold_time: "180"@,
        keepalive: "60"@,
        password: seq![],
        bfd: false,
        soft_reconfiguration_inbound: true,
        address_family: AddressFamily::Ipv4Unicast,
        maximum_prefix: seq![],
        maximum_prefix_warning: true,
        weight: seq![],
        default_local_pref: seq![],
        created_at: None,
        updated_at: None,
    }
}

impl Default for NeighborDraft {
    fn default() -> (r: Self)
        ensures
            r@ == default_draft(),
    {
        NeighborDraft {
            id: None,
            router_id: None,
            neighbor_ip: String::new(),
            remote_as: String::new(),
            description: String::new(),
            update_source: String::new(),
            next_hop_self: false,
            route_reflector_client: false,
            hold_time: String::from_str("180"),
            keepalive: String::from_str("60"),
            password: String::new(),
            bfd: false,
            soft_reconfiguration_inbound: true,
            address_family: AddressFamily::Ipv4Unicast,
            maximum_prefix: String::new(),
            maximum_prefix_warning: true,
            weight: String::new(),
            default_local_pref: String::new(),
            created_at: None,
            updated_at: None,
        }
    }
}

pub open spec fn yes_no(b: bool) -> Seq<char> {
    if b {
        "Yes"@
    } else {
        "No"@
    }
}

/// The text shown for field `idx` of the wizard form; the password is masked
/// with one bullet per UTF-8 byte.
pub open spec fn field_text(d: DraftModel, idx: int) -> Seq<char> {
    if idx == 0 {
        d.neighbor_ip
    } else if idx == 1 {
        d.remote_as
    } else if idx == 2 {
        d.description
    } else if idx == 3 {
        d.update_source
    } else if idx == 4 {
        family_label(d.address_family)
    } else if idx == 5 {
        yes_no(d.next_hop_self)
    } else if idx == 6 {
        yes_no(d.route_reflector_client)
    } else if idx == 7 {
        d.hold_time
    } else if idx == 8 {
        d.keepalive
    } else if idx == 9 {
        repeated('\u{25cf}', (vstd::utf8::encode_utf8(d.password).len() as usize) as nat)
    } else if idx == 10 {
        yes_no(d.bfd)
    } else if idx == 11 {
        yes_no(d.soft_reconfiguration_inbound)
    } else if idx == 12 {
        d.maximum_prefix
    } else if idx == 13 {
        yes_no(d.maximum_prefix_warning)
    } else if idx == 14 {
        d.weight
    } else if idx == 15 {
        d.default_local_pref
    } else {
        seq![]
    }
}

/// The draft after typing `val` into field `idx`; typing a neighbor address
/// also sets the family it suggests. Toggle fields take no text.
pub open spec fn with_field(d: DraftModel, idx: int, val: Seq<char>) -> DraftModel {
    if idx == 0 {
        DraftModel { neighbor_ip: val, address_family: family_of_text(val), ..d }
    } else if idx == 1 {
        DraftModel { remote_as: val, ..d }
    } else if idx == 2 {
        DraftModel { description: val, ..d }
    } else if idx == 3 {
        DraftModel { update_source: val, ..d }
    } else if idx == 7 {
        DraftModel { hold_time: val, ..d }
    } else if idx == 8 {
        DraftModel { keepalive: val, ..d }
    } else if idx == 9 {
        DraftModel { password: val, ..d }
    } else if idx == 12 {
        DraftModel { maximum_prefix: val, ..d }
    } else if idx == 14 {
        DraftModel { weight: val, ..d }
    } else if idx == 15 {
        DraftModel { default_local_pref: val, ..d }
    } else {
        d
    }
}

pub open spec fn is_toggle_index(idx: int) -> bool {
    idx == 4 || idx == 5 || idx == 6 || idx == 10 || idx == 11 || idx == 13
}

/// The draft after toggling field `idx`.
pub open spec fn toggled(d: DraftModel, idx: int) -> DraftModel {
    if idx == 4 {
        DraftModel { address_family: other_family(d.address_family), ..d }
    } else if idx == 5 {
        DraftModel { next_hop_self: !d.next_hop_self, ..d }
    } else if idx == 6 {
        DraftModel { route_reflector_client: !d.route_reflector_client, ..d }
    } else if idx == 10 {
        DraftModel { bfd: !d.bfd, ..d }
    } else if idx == 11 {
        DraftModel { soft_reconfiguration_inbound: !d.soft_reconfiguration_inbound, ..d }
    } else if idx == 13 {
        DraftModel { maximum_prefix_warning: !d.maximum_prefix_warning, ..d }
    } else {
        d
    }
}

/// A timer value as the draft reads it: unparsable text counts as 0.
pub open spec fn timer_value(s: Seq<char>) -> nat {
    match parse_unsigned(trim(s), 65535) {
        Some(v) => v,
        None => 0,
    }
}

/// Validation of a draft, in order: the neighbor address, its family, the
/// remote AS, the description, then hold time against keepalive.
pub open spec fn draft_check(d: DraftModel) -> Result<(), Seq<char>> {
    match parse_ip_text(trim(d.neighbor_ip)) {
        None => Err("Invalid neighbor IP address (IPv4 or IPv6)"@),
        Some(ip) => if is_v6(ip) && d.address_family == AddressFamily::Ipv4Unicast {
            Err("IPv6 address requires IPv6 Unicast address family"@)
        } else if !is_v6(ip) && d.address_family == AddressFamily::Ipv6Unicast {
            Err("IPv4 address requires IPv4 Unicast address family"@)
        } else {
            match parse_unsigned(trim(d.remote_as), 0xffff_ffff) {
                None => Err("Remote AS must be a number"@),
                Some(a) => if a == 0 {
                    Err("Remote AS cannot be 0"@)
                } else if trim(d.description).len() == 0 {
                    Err("Description is required (drives naming convention)"@)
                } else {
                    let hold = timer_value(d.hold_time);
                    let keep = timer_value(d.keepalive);
                    if hold > 0 && keep > 0 && hold < keep * 3 {
                        Err("Hold time must be >= 3x keepalive"@)
                    } else {
                        Ok(())
                    }
                },
            }
        },
    }
}

/// Whether validation reaches the timer check with a keepalive whose triple
/// does not fit in 16 bits (where the computation overflows).
pub open spec fn timer_check_overflows(d: DraftModel) -> bool {
    match parse_ip_text(trim(d.neighbor_ip)) {
        None => false,
        Some(ip) => if is_v6(ip) && d.address_family == AddressFamily::Ipv4Unicast {
            false
        } else if !is_v6(ip) && d.address_family == AddressFamily::Ipv6Unicast {
            false
        } else {
            match parse_unsigned(trim(d.remote_as), 0xffff_ffff) {
                None => false,
                Some(a) => a != 0 && trim(d.description).len() != 0 && timer_value(d.hold_time) > 0
                    && timer_value(d.keepalive) > 0 && timer_value(d.keepalive) * 3 > 65535,
            }
        },
    }
}

fn yes_no_string(b: bool) -> (r: String)
    ensures
        r@ == yes_no(b),
{
    if b {
        String::from_str("Yes")
    } else {
        String::from_str("No")
    }
}

fn timer_exec(s: &String) -> (r: u16)
    ensures
        r as nat == timer_value(s@),
{
    match parse_unsigned_chars(&trim_chars(&chars_of(s.as_str())), 65535) {
        Some(v) => v as u16,
        None => 0,
    }
}

/// The label of a field of the wizard form.
pub open spec fn field_name(idx: int) -> Seq<char> {
    if idx == 0 {
        "Neighbor IP"@
    } else if idx == 1 {
        "Remote AS"@
    } else if idx == 2 {
        "Description"@
    } else if idx == 3 {
        "Update Source"@
    } else if idx == 4 {
        "Addr Family"@
    } else if idx == 5 {
        "Next-hop-self"@
    } else if idx == 6 {
        "RR Client"@
    } else if idx == 7 {
        "Hold Time"@
    } else if idx == 8 {
        "Keepalive"@
    } else if idx == 9 {
        "Password"@
    } else if idx == 10 {
        "BFD"@
    } else if idx == 11 {
        "Soft-reconfig"@
    } else if idx == 12 {
        "Max-Prefix"@
    } else if idx == 13 {
        "Max-Pfx Warn"@
    } else if idx == 14 {
        "Weight"@
    } else {
        "Local-Pref"@
    }
}

impl NeighborDraft {
    pub const NFIELDS: usize = 16;

    /// Label of field `idx` of the wizard form.
    pub fn field_label(idx: usize) -> (r: &'static str)
        requires
            idx < 16,
        ensures
            r@ == field_name(idx as int),
    {
        if idx == 0 {
            "Neighbor IP"
        } else if idx == 1 {
            "Remote AS"
        } else if idx == 2 {
            "Description"
        } else if idx == 3 {
            "Update Source"
        } else if idx == 4 {
            "Addr Family"
        } else if idx == 5 {
            "Next-hop-self"
        } else if idx == 6 {
            "RR Client"
        } else if idx == 7 {
            "Hold Time"
        } else if idx == 8 {
            "Keepalive"
        } else if idx == 9 {
            "Password"
        } else if idx == 10 {
            "BFD"
        } else if idx == 11 {
            "Soft-reconfig"
        } else if idx == 12 {
            "Max-Prefix"
        } else if idx == 13 {
            "Max-Pfx Warn"
        } else if idx == 14 {
            "Weight"
        } else {
            "Local-Pref"
        }
    }

    pub fn field_value(&self, idx: usize) -> (r: String)
        ensures
            r@ == field_text(self@, idx as int),
    {
        if idx == 0 {
            copy_string(&self.neighbor_ip)
        } else if idx == 1 {
            copy_string(&self.remote_as)
        } else if idx == 2 {
            copy_string(&self.description)
        } else if idx == 3 {
            copy_string(&self.update_source)
        } else if idx == 4 {
            String::from_str(self.address_family.label())
        } else if idx == 5 {
            yes_no_string(self.next_hop_self)
        } else if idx == 6 {
            yes_no_string(self.route_reflector_client)
        } else if idx == 7 {
            copy_string(&self.hold_time)
        } else if idx == 8 {
            copy_string(&self.keepalive)
        } else if idx == 9 {
            let n = self.password.as_str().len();
            string_of(&repeat_char('\u{25cf}', n))
        } else if idx == 10 {
            yes_no_string(self.bfd)
        } else if idx == 11 {
            yes_no_string(self.soft_reconfiguration_inbound)
        } else if idx == 12 {
            copy_string(&self.maximum_prefix)
        } else if idx == 13 {
            yes_no_string(self.maximum_prefix_warning)
        } else if idx == 14 {
            copy_string(&self.weight)
        } else if idx == 15 {
            copy_string(&self.default_local_pref)
        } else {
            String::new()
        }
    }

    pub fn set_field(&mut self, idx: usize, val: &str)
        ensures
            final(self)@ == with_field(old(self)@, idx as int, val@),
    {
        if idx == 0 {
            self.neighbor_ip = String::from_str(val);
            self.address_family = AddressFamily::from_ip(val);
        } else if idx == 1 {
            self.remote_as = String::from_str(val);
        } else if idx == 2 {
            self.description = String::from_str(val);
        } else if idx == 3 {
            self.update_source = String::from_str(val);
        } else if idx == 7 {
            self.hold_time = String::from_str(val);
        } else if idx == 8 {
            self.keepalive = String::from_str(val);
        } else if idx == 9 {
            self.password = String::from_str(val);
        } else if idx == 12 {
            self.maximum_prefix = String::from_str(val);
        } else if idx == 14 {
            self.weight = String::from_str(val);
        } else if idx == 15 {
            self.default_local_pref = String::from_str(val);
        }
    }

    /// A copy with the same contents.
    pub fn clone_draft(&self) -> (r: NeighborDraft)
        ensures
            r@ == self@,
    {
        NeighborDraft {
            id: self.id,
            router_id: self.router_id,
            neighbor_ip: copy_string(&self.neighbor_ip),
            remote_as: copy_string(&self.remote_as),
            description: copy_string(&self.description),
            update_source: copy_string(&self.update_source),
            next_hop_self: self.next_hop_self,
            route_reflector_client: self.route_reflector_client,
            hold_time: copy_string(&self.hold_time),
            keepalive: copy_string(&self.keepalive),
            password: copy_string(&self.password),
            bfd: self.bfd,
            soft_reconfiguration_inbound: self.soft_reconfiguration_inbound,
            address_family: self.address_family,
            maximum_prefix: copy_string(&self.maximum_prefix),
            maximum_prefix_warning: self.maximum_prefix_warning,
            weight: copy_string(&self.weight),
            default_local_pref: copy_string(&self.default_local_pref),
            created_at: self.created_at,
            updated_at: self.updated_at,
        }
    }

    pub fn is_toggle_field(idx: usize) -> (r: bool)
        ensures
            r == is_toggle_index(idx as int),
    {
        idx == 4 || idx == 5 || idx == 6 || idx == 10 || idx == 11 || idx == 13
    }

    pub fn toggle_field(&mut self, idx: usize)
        ensures
            final(self)@ == toggled(old(self)@, idx as int),
    {
        if idx == 4 {
            self.address_family = self.address_family.toggle();
        } else if idx == 5 {
            self.next_hop_self = !self.next_hop_self;
        } else if idx == 6 {
            self.route_reflector_client = !self.route_reflector_client;
        } else if idx == 10 {
            self.bfd = !self.bfd;
        } else if idx == 11 {
            self.soft_reconfiguration_inbound = !self.soft_reconfiguration_inbound;
        } else if idx == 13 {
            self.maximum_prefix_warning = !self.maximum_prefix_warning;
        }
    }

    pub fn parsed_ip(&self) -> (r: Option<IpAddress>)
        ensures
            r == parse_ip_text(trim(self.neighbor_ip@)),
    {
        parse_ip(&trim_chars(&chars_of(self.neighbor_ip.as_str())))
    }

    pub fn parsed_as(&self) -> (r: Option<u32>)
        ensures
            r matches Some(a) ==> parse_unsigned(trim(self.remote_as@), 0xffff_ffff) == Some(
                a as nat,
            ),
            r is None ==> parse_unsigned(trim(self.remote_as@), 0xffff_ffff) is None,
    {
        match parse_unsigned_chars(&trim_chars(&chars_of(self.remote_as.as_str())), 0xffff_ffff) {
            Some(v) => Some(v as u32),
            None => None,
        }
    }

    /// Whether `validate` would overflow on this draft (its `requires`).
    pub fn timer_check_would_overflow(&self) -> (r: bool)
        ensures
            r == timer_check_overflows(self@),
    {
        let ip = match self.parsed_ip() {
            Some(ip) => ip,
            None => return false,
        };
        let v6 = ip.is_ipv6();
        if v6 && self.address_family == AddressFamily::Ipv4Unicast {
            return false;
        }
        if !v6 && self.address_family == AddressFamily::Ipv6Unicast {
            return false;
        }
        match self.parsed_as() {
            None => false,
            Some(a) => a != 0 && trim_chars(&chars_of(self.description.as_str())).len() != 0
                && timer_exec(&self.hold_time) > 0 && timer_exec(&self.keepalive) > 0 && (
            timer_exec(&self.keepalive) as u32) * 3 > 65535,
        }
    }

    pub fn validate(&self) -> (r: Result<(), String>)
        requires
            !timer_check_overflows(self@),
        ensures
            r matches Ok(()) ==> draft_check(self@) is Ok,
            r matches Err(e) ==> draft_check(self@) == Err::<(), Seq<char>>(e@),
    {
        let ip = match self.parsed_ip() {
            Some(ip) => ip,
            None => return Err(String::from_str("Invalid neighbor IP address (IPv4 or IPv6)")),
        };
        let v6 = ip.is_ipv6();
        if v6 && self.address_family == AddressFamily::Ipv4Unicast {
            return Err(String::from_str("IPv6 address requires IPv6 Unicast address family"));
        }
        if !v6 && self.address_family == AddressFamily::Ipv6Unicast {
            return Err(String::from_str("IPv4 address requires IPv4 Unicast address family"));
        }
        match self.parsed_as() {
            None => return Err(String::from_str("Remote AS must be a number")),
            Some(0) => return Err(String::from_str("Remote AS cannot be 0")),
            _ => {},
        }
        if trim_chars(&chars_of(self.description.as_str())).len() == 0 {
            return Err(String::from_str("Description is required (drives naming convention)"));
        }
        let hold: u16 = timer_exec(&self.hold_time);
        let keep: u16 = timer_exec(&self.keepalive);
        if hold > 0 && keep > 0 && hold < keep * 3 {
            return Err(String::from_str("Hold time must be >= 3x keepalive"));
        }
        Ok(())
    }

    /// Prefills the draft from a peer template: the remote AS when the
    /// template has one, the description prefix only into an empty
    /// description, and the template's session settings.
    pub fn apply_template(&mut self, t: &PeerTemplate)
        ensures
            final(self)@ == template_applied(old(self)@, t@),
    {
        if let Some(ras) = &t.remote_as {
            self.remote_as = copy_string(ras);
        }
        if let Some(prefix) = &t.description_prefix {
            if chars_of(self.description.as_str()).len() == 0 {
                self.description = copy_string(prefix);
            }
        }
        self.update_source = copy_string(&t.update_source);
        self.next_hop_self = t.next_hop_self;
        self.route_reflector_client = t.route_reflector_client;
        self.hold_time = copy_string(&t.hold_time);
        self.keepalive = copy_string(&t.keepalive);
        self.bfd = t.bfd;
        self.soft_reconfiguration_inbound = t.soft_reconfiguration_inbound;
    }
}

// ─── Peer Template ───────────────────────────────────────────────────────────

#[derive(Debug, Clone)]
pub struct PeerTemplate {
    pub id: u128,
    pub name: String,
    pub remote_as: Option<String>,
    pub description_prefix: Option<String>,
    pub update_source: String,
    pub next_hop_self: bool,
    pub route_reflector_client: bool,
    pub hold_time: String,
    pub keepalive: String,
    pub bfd: bool,
    pub soft_reconfiguration_inbound: bool,
}

pub struct TemplateModel {
    pub id: u128,
    pub name: Seq<char>,
    pub remote_as: Option<Seq<char>>,
    pub description_prefix: Option<Seq<char>>,
    pub update_source: Seq<char>,
    pub next_hop_self: bool,
    pub route_reflector_client: bool,
    pub hold_time: Seq<char>,
    pub keepalive: Seq<char>,
    pub bfd: bool,
    pub soft_reconfiguration_inbound: bool,
}

impl View for PeerTemplate {
    type V = TemplateModel;

    open spec fn view(&self) -> TemplateModel {
        TemplateModel {
            id: self.id,
            name: self.name@,
            remote_as: crate::text::opt_view(self.remote_as),
            description_prefix: crate::text::opt_view(self.description_prefix),
            update_source: self.update_source@,
            next_hop_self: self.next_hop_self,
            route_reflector_client: self.route_reflector_client,
            hold_time: self.hold_time@,
            keepalive: self.keepalive@,
            bfd: self.bfd,
            soft_reconfiguration_inbound: self.soft_reconfiguration_inbound,
        }
    }
}

/// A draft prefilled from a template.
pub open spec fn template_applied(d: DraftModel, t: TemplateModel) -> DraftModel {
    DraftModel {
        remote_as: match t.remote_as {
            Some(r) => r,
            None => d.remote_as,
        },
        description: match t.description_prefix {
            Some(p) => if d.description.len() == 0 {
                p
            } else {
                d.description
            },
            None => d.description,
        },
        update_source: t.update_source,
        next_hop_self: t.next_hop_self,
        route_reflector_client: t.route_reflector_client,
        hold_time: t.hold_time,
        keepalive: t.keepalive,
        bfd: t.bfd,
        soft_reconfiguration_inbound: t.soft_reconfiguration_inbound,
        ..d
    }
}

impl PeerTemplate {
    /// The template that a new one starts from, under a fresh id.
    pub fn with_id(id: u128) -> (r: Self)
        ensures
            r@ == (TemplateModel {
                id,
                name: seq![],
                remote_as: None,
                description_prefix: None,
                update_source: seq![],
                next_hop_self: false,
                route_reflector_client: false,
                hold_time: "180"@,
                keepalive: "60"@,
                bfd: false,
                soft_reconfiguration_inbound: true,
            }),
    {
        PeerTemplate {
            id,
            name: String::new(),
            remote_as: None,
            description_prefix: None,
            update_source: String::new(),
            next_hop_self: false,
            route_reflector_client: false,
            hold_time: String::from_str("180"),
            keepalive: String::from_str("60"),
            bfd: false,
            soft_reconfiguration_inbound: true,
        }
    }
}

/// Whether field `idx` of the wizard form takes typed text.
pub open spec fn is_text_index(idx: int) -> bool {
    idx == 0 || idx == 1 || idx == 2 || idx == 3 || idx == 7 || idx == 8 || idx == 9 || idx == 12
        || idx == 14 || idx == 15
}

/// Typing text into a text field shows that text in the field afterwards
/// (the password is kept as typed and shown masked) and leaves what every
/// other field shows as it was, but for the address family, which a typed
/// neighbor address sets: IPv6 when it holds a `:`, else IPv4.
pub proof fn law_draft_field_roundtrip(d: DraftModel, idx: int, val: Seq<char>, j: int)
    requires
        is_text_index(idx),
        0 <= j < 16,
        j != idx,
    ensures
        idx != 9 ==> field_text(with_field(d, idx, val), idx) == val,
        idx == 9 ==> with_field(d, idx, val).password == val,
        (idx != 0 || j != 4) ==> field_text(with_field(d, idx, val), j) == field_text(d, j),
        idx == 0 ==> with_field(d, idx, val).address_family == (if has_char(val, ':') {
            AddressFamily::Ipv6Unicast
        } else {
            AddressFamily::Ipv4Unicast
        }),
{
}

/// Toggling a yes/no field or the address family changes what that field
/// shows, leaves every other field as it was, and a second toggle gives the
/// draft back.
pub proof fn law_draft_toggle_twice(d: DraftModel, idx: int, j: int)
    requires
        is_toggle_index(idx),
        0 <= j < 16,
        j != idx,
    ensures
        toggled(toggled(d, idx), idx) == d,
        field_text(toggled(d, idx), idx) != field_text(d, idx),
        field_text(toggled(d, idx), j) == field_text(d, j),
{
    reveal_strlit("Yes");
    reveal_strlit("No");
    reveal_strlit("IPv4 Unicast");
    reveal_strlit("IPv6 Unicast");
    assert("Yes"@.len() != "No"@.len());
    assert("IPv4 Unicast"@[3] != "IPv6 Unicast"@[3]);
}

/// A draft passes validation exactly when its trimmed address parses, its
/// address family is IPv6 Unicast for an IPv6 address and IPv4 Unicast for
/// an IPv4 one, its trimmed remote AS is a non-zero 32-bit number, its
/// trimmed description is not empty, and, where both timers are set, the
/// hold time is at least three keepalives.
pub proof fn law_draft_check_accepts(d: DraftModel)
    ensures
        draft_check(d) is Ok <==> ({
            let ip = parse_ip_text(trim(d.neighbor_ip));
            let asn = parse_unsigned(trim(d.remote_as), 0xffff_ffff);
            let hold = timer_value(d.hold_time);
            let keep = timer_value(d.keepalive);
            &&& ip is Some
            &&& (d.address_family == AddressFamily::Ipv6Unicast) == is_v6(ip->0)
            &&& asn is Some
            &&& asn->0 != 0
            &&& trim(d.description).len() > 0
            &&& (hold == 0 || keep == 0 || hold >= 3 * keep)
        }),
{
}

} // verus!

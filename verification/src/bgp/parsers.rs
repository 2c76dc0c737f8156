//! Parser for Cisco/FRR `show ip bgp summary` output.
//!
//! The header line gives the router-id and local AS:
//! `BGP router identifier 1.2.3.4, local AS number 65001`. A line holding
//! `table version is N` gives the table version (the last such line wins).
//! Each neighbor row reads
//! `Neighbor V AS MsgRcvd MsgSent TblVer InQ OutQ Up/Down State/PfxRcd [PfxSnt] ...`.

use vstd::prelude::*;

use crate::bgp::scan::{lines, rdigit, run, run_exec, split_lines, Class};
use crate::bgp::types::{state_from_text, BgpPeer, BgpState, BgpSummary};
use crate::net::{parse_ip, parse_ip_text, unspecified_v4, IpAddress};
use crate::text::{
    chars_of, contains, matches_at, occurs_at, opt_view, parse_unsigned, parse_unsigned_chars,
    slice_chars, split_words, string_of, words,
};

verus! {

pub open spec fn u32_max() -> nat {
    0xffff_ffff
}

pub open spec fn u64_max() -> nat {
    0xffff_ffff_ffff_ffff
}

/// A number as the parser reads it: text that does not parse counts as 0.
pub open spec fn num_or_zero(t: Seq<char>, max: nat) -> nat {
    match parse_unsigned(t, max) {
        Some(v) => v,
        None => 0,
    }
}

// ─── Header ──────────────────────────────────────────────────────────────────

/// The header match that starts at `p`: `BGP router identifier`, spaces, a
/// word that ends in a comma, spaces, `local AS number`, spaces, digits.
/// Gives the word without its comma and the digits.
pub open spec fn header_at(s: Seq<char>, p: int) -> Option<(Seq<char>, Seq<char>)> {
    let l1 = "BGP router identifier"@;
    let l2 = "local AS number"@;
    let q = p + l1.len();
    let w1 = run(s, q, Class::Space);
    let t = q + w1;
    let n = run(s, t, Class::NonSpace);
    let u = t + n;
    let w2 = run(s, u, Class::Space);
    let v = u + w2;
    let x = v + l2.len();
    let w3 = run(s, x, Class::Space);
    let y = x + w3;
    let d = run(s, y, Class::Digit);
    if occurs_at(s, l1, p) && w1 > 0 && n >= 2 && s[t + n - 1] == ',' && w2 > 0 && occurs_at(
        s,
        l2,
        v,
    ) && w3 > 0 && d > 0 {
        Some((s.subrange(t, t + n - 1), s.subrange(y, y + d)))
    } else {
        None
    }
}

/// The leftmost header match at or after `p`.
pub open spec fn header_search(s: Seq<char>, p: int) -> Option<(Seq<char>, Seq<char>)>
    decreases s.len() + 1 - p,
{
    if p < 0 || p > s.len() {
        None
    } else {
        match header_at(s, p) {
            Some(c) => Some(c),
            None => header_search(s, p + 1),
        }
    }
}

/// Router-id and local AS from the header; `0.0.0.0` and 0 when there is
/// no header or a value does not parse.
pub open spec fn header_values(s: Seq<char>) -> (IpAddress, nat) {
    match header_search(s, 0) {
        Some((rid, las)) => (
            match parse_ip_text(rid) {
                Some(ip) => ip,
                None => unspecified_v4(),
            },
            num_or_zero(las, u32_max()),
        ),
        None => (unspecified_v4(), 0),
    }
}

fn header_at_exec(s: &Vec<char>, p: usize, l1: &Vec<char>, l2: &Vec<char>) -> (r: Option<
    (Vec<char>, Vec<char>),
>)
    requires
        p <= s.len(),
        l1@ == "BGP router identifier"@,
        l2@ == "local AS number"@,
    ensures
        r matches Some((a, b)) ==> header_at(s@, p as int) == Some((a@, b@)),
        r is None ==> header_at(s@, p as int) is None,
{
    if !matches_at(s, l1, p) {
        return None;
    }
    let q = p + l1.len();
    let w1 = run_exec(s, q, 0);
    let t = q + w1;
    let n = run_exec(s, t, 1);
    let u = t + n;
    let w2 = run_exec(s, u, 0);
    let v = u + w2;
    if !(w1 > 0 && n >= 2 && s[t + n - 1] == ',' && w2 > 0) {
        return None;
    }
    if !matches_at(s, l2, v) {
        return None;
    }
    let x = v + l2.len();
    let w3 = run_exec(s, x, 0);
    let y = x + w3;
    let d = run_exec(s, y, 2);
    if !(w3 > 0 && d > 0) {
        return None;
    }
    Some((slice_chars(s, t, t + n - 1), slice_chars(s, y, y + d)))
}

fn header_search_exec(s: &Vec<char>) -> (r: Option<(Vec<char>, Vec<char>)>)
    ensures
        r matches Some((a, b)) ==> header_search(s@, 0) == Some((a@, b@)),
        r is None ==> header_search(s@, 0) is None,
{
    let l1 = chars_of("BGP router identifier");
    let l2 = chars_of("local AS number");
    let mut p: usize = 0;
    while p < s.len()
        invariant
            p <= s.len(),
            l1@ == "BGP router identifier"@,
            l2@ == "local AS number"@,
            header_search(s@, 0) == header_search(s@, p as int),
        decreases s.len() - p,
    {
        match header_at_exec(s, p, &l1, &l2) {
            Some(c) => {
                return Some(c);
            },
            None => {},
        }
        p = p + 1;
    }
    assert(header_search(s@, p + 1) is None);
    header_at_exec(s, p, &l1, &l2)
}

// ─── Table version ───────────────────────────────────────────────────────────

/// `table version is ` followed by digits, at `p`: the digits.
pub open spec fn version_at(l: Seq<char>, p: int) -> Option<Seq<char>> {
    let lit = "table version is "@;
    let x = p + lit.len();
    let d = run(l, x, Class::Digit);
    if occurs_at(l, lit, p) && d > 0 {
        Some(l.subrange(x, x + d))
    } else {
        None
    }
}

/// The leftmost table-version match at or after `p`.
pub open spec fn version_search(l: Seq<char>, p: int) -> Option<Seq<char>>
    decreases l.len() + 1 - p,
{
    if p < 0 || p > l.len() {
        None
    } else {
        match version_at(l, p) {
            Some(c) => Some(c),
            None => version_search(l, p + 1),
        }
    }
}

/// Table version after reading these lines: that of the last line that
/// states one, 0 if none does (or its number does not parse).
pub open spec fn table_version_of(ls: Seq<Seq<char>>) -> nat
    decreases ls.len(),
{
    if ls.len() == 0 {
        0
    } else {
        match version_search(ls.last(), 0) {
            Some(cap) => num_or_zero(cap, u64_max()),
            None => table_version_of(ls.drop_last()),
        }
    }
}

fn version_search_exec(l: &Vec<char>, lit: &Vec<char>) -> (r: Option<Vec<char>>)
    requires
        lit@ == "table version is "@,
    ensures
        r matches Some(a) ==> version_search(l@, 0) == Some(a@),
        r is None ==> version_search(l@, 0) is None,
{
    let mut p: usize = 0;
    while p <= l.len()
        invariant
            p <= l.len() + 1,
            lit@ == "table version is "@,
            version_search(l@, 0) == version_search(l@, p as int),
        decreases l.len() + 1 - p,
    {
        if matches_at(l, lit, p) {
            let x = p + lit.len();
            let d = run_exec(l, x, 2);
            if d > 0 {
                return Some(slice_chars(l, x, x + d));
            }
        }
        if p == l.len() {
            assert(version_search(l@, p + 1) is None);
            return None;
        }
        p = p + 1;
    }
    None
}

// ─── Neighbor rows ───────────────────────────────────────────────────────────

pub open spec fn all_rdigits(t: Seq<char>) -> bool {
    forall|i: int| 0 <= i < t.len() ==> crate::bgp::scan::is_rdigit(#[trigger] t[i])
}

pub open spec fn dot_at(t: Seq<char>, i: int) -> bool {
    0 <= i < t.len() && t[i] == '.'
}

/// Four groups of one to three digits separated by dots, and nothing else.
pub open spec fn ip_shape(t: Seq<char>) -> bool {
    let a: int = run(t, 0, Class::Digit) as int;
    let b: int = run(t, a + 1, Class::Digit) as int;
    let c: int = run(t, a + b + 2, Class::Digit) as int;
    let d: int = run(t, a + b + c + 3, Class::Digit) as int;
    &&& 1 <= a <= 3
    &&& dot_at(t, a)
    &&& 1 <= b <= 3
    &&& dot_at(t, a + b + 1)
    &&& 1 <= c <= 3
    &&& dot_at(t, a + b + c + 2)
    &&& 1 <= d <= 3
    &&& a + b + c + d + 3 == t.len()
}

/// What a neighbor row yields.
pub struct RowCaps {
    pub ip: Seq<char>,
    pub asn: Seq<char>,
    pub rcvd: Seq<char>,
    pub sent: Seq<char>,
    pub uptime: Seq<char>,
    pub state_pfx: Seq<char>,
    pub adv: Option<Seq<char>>,
}

/// A neighbor row: the address, seven numeric columns, Up/Down,
/// State/PfxRcd, and, when the next word starts with digits, those digits
/// as PfxSnt.
pub open spec fn row_match(line: Seq<char>) -> Option<RowCaps> {
    let w = words(line);
    if row_shape(w) {
        Some(row_caps_of(w))
    } else {
        None
    }
}

/// The words of a neighbor row: at least ten, an address-shaped first word
/// and seven all-digit words after it.
pub open spec fn row_shape(w: Seq<Seq<char>>) -> bool {
    w.len() >= 10 && ip_shape(w[0]) && all_rdigits(w[1]) && all_rdigits(w[2]) && all_rdigits(
        w[3],
    ) && all_rdigits(w[4]) && all_rdigits(w[5]) && all_rdigits(w[6]) && all_rdigits(w[7])
}

/// The captures of a row from its words.
pub open spec fn row_caps_of(w: Seq<Seq<char>>) -> RowCaps {
    RowCaps {
        ip: w[0],
        asn: w[2],
        rcvd: w[3],
        sent: w[4],
        uptime: w[8],
        state_pfx: w[9],
        adv: if w.len() >= 11 && run(w[10], 0, Class::Digit) > 0 {
            Some(w[10].take(run(w[10], 0, Class::Digit) as int))
        } else {
            None
        },
    }
}

/// The rows of these lines, in order.
pub open spec fn row_caps(ls: Seq<Seq<char>>) -> Seq<RowCaps>
    decreases ls.len(),
{
    if ls.len() == 0 {
        seq![]
    } else {
        row_caps(ls.drop_last()) + match row_match(ls.last()) {
            Some(c) => seq![c],
            None => seq![],
        }
    }
}

/// The peer that a row describes, on a router with this local AS.
pub open spec fn peer_from_row(p: BgpPeer, c: RowCaps, local_as: u32) -> bool {
    &&& p.neighbor_ip == (match parse_ip_text(c.ip) {
        Some(ip) => ip,
        None => unspecified_v4(),
    })
    &&& p.remote_as == num_or_zero(c.asn, u32_max())
    &&& p.local_as == local_as
    &&& match parse_unsigned(c.state_pfx, u64_max()) {
        Some(n) => p.state@ is Established && p.prefixes_received == n,
        None => p.state@ == state_from_text(c.state_pfx) && p.prefixes_received == 0,
    }
    &&& opt_view(p.uptime) == Some(c.uptime)
    &&& p.prefixes_advertised == match c.adv {
        Some(a) => num_or_zero(a, u64_max()),
        None => 0,
    }
    &&& p.description is None
    &&& p.update_source is None
    &&& !p.next_hop_self
    &&& !p.route_reflector_client
    &&& !p.password_configured
    &&& p.msg_rcvd == num_or_zero(c.rcvd, u64_max())
    &&& p.msg_sent == num_or_zero(c.sent, u64_max())
    &&& p.hold_time == 90
    &&& p.keepalive == 30
    &&& p.communities@.len() == 0
    &&& p.route_map_in is None
    &&& p.route_map_out is None
    &&& p.reset_count == 0
    &&& p.last_reset_reason is None
    &&& p.notifs_sent == 0
    &&& p.notifs_rcvd == 0
    &&& p.bfd_state is None
    &&& p.mtu_probe is None
}

fn all_rdigits_exec(t: &Vec<char>) -> (r: bool)
    ensures
        r == all_rdigits(t@),
{
    let mut i: usize = 0;
    while i < t.len()
        invariant
            i <= t.len(),
            forall|k: int| 0 <= k < i ==> crate::bgp::scan::is_rdigit(#[trigger] t@[k]),
        decreases t.len() - i,
    {
        if !rdigit(t[i]) {
            return false;
        }
        i = i + 1;
    }
    true
}

fn dot_at_exec(t: &Vec<char>, i: usize) -> (r: bool)
    ensures
        r == dot_at(t@, i as int),
{
    i < t.len() && t[i] == '.'
}

fn ip_shape_exec(t: &Vec<char>) -> (r: bool)
    ensures
        r == ip_shape(t@),
{
    let a = run_exec(t, 0, 2);
    if !(1 <= a && a <= 3 && dot_at_exec(t, a)) {
        return false;
    }
    let b = run_exec(t, a + 1, 2);
    if !(1 <= b && b <= 3 && dot_at_exec(t, a + b + 1)) {
        return false;
    }
    let c = run_exec(t, a + b + 2, 2);
    if !(1 <= c && c <= 3 && dot_at_exec(t, a + b + c + 2)) {
        return false;
    }
    let d = run_exec(t, a + b + c + 3, 2);
    1 <= d && d <= 3 && a + b + c + d + 3 == t.len()
}

fn num_exec(t: &Vec<char>, max: u64) -> (r: u64)
    ensures
        r as nat == num_or_zero(t@, max as nat),
{
    match parse_unsigned_chars(t, max) {
        Some(v) => v,
        None => 0,
    }
}

fn peer_of_row(w: &Vec<Vec<char>>, local_as: u32) -> (r: BgpPeer)
    requires
        w.len() >= 10,
    ensures
        peer_from_row(r, row_caps_of(w.deep_view()), local_as),
{
    assert(w.deep_view()[0] == w@[0]@);
    assert(w.deep_view()[2] == w@[2]@);
    assert(w.deep_view()[3] == w@[3]@);
    assert(w.deep_view()[4] == w@[4]@);
    assert(w.deep_view()[8] == w@[8]@);
    assert(w.deep_view()[9] == w@[9]@);
    let neighbor_ip = match parse_ip(&w[0]) {
        Some(ip) => ip,
        None => IpAddress::V4(0, 0, 0, 0),
    };
    let remote_as = num_exec(&w[2], 0xffff_ffff) as u32;
    let msg_rcvd = num_exec(&w[3], 0xffff_ffff_ffff_ffff);
    let msg_sent = num_exec(&w[4], 0xffff_ffff_ffff_ffff);
    let uptime = string_of(&w[8]);
    let (state, prefixes_received) = match parse_unsigned_chars(&w[9], 0xffff_ffff_ffff_ffff) {
        Some(n) => (BgpState::Established, n),
        None => (BgpState::from_str(string_of(&w[9]).as_str()), 0),
    };
    let prefixes_advertised: u64 = if w.len() >= 11 {
        assert(w.deep_view()[10] == w@[10]@);
        let d = run_exec(&w[10], 0, 2);
        if d > 0 {
            let digits = slice_chars(&w[10], 0, d);
            assert(digits@ =~= w@[10]@.take(d as int));
            num_exec(&digits, 0xffff_ffff_ffff_ffff)
        } else {
            0
        }
    } else {
        0
    };
    BgpPeer {
        neighbor_ip,
        remote_as,
        local_as,
        state,
        uptime: Some(uptime),
        prefixes_received,
        prefixes_advertised,
        description: None,
        update_source: None,
        next_hop_self: false,
        route_reflector_client: false,
        password_configured: false,
        msg_rcvd,
        msg_sent,
        hold_time: 90,
        keepalive: 30,
        communities: Vec::new(),
        route_map_in: None,
        route_map_out: None,
        reset_count: 0,
        last_reset_reason: None,
        notifs_sent: 0,
        notifs_rcvd: 0,
        bfd_state: None,
        mtu_probe: None,
    }
}

/// The words of a neighbor row, or `None` when the line is not one.
fn row_words(line: &Vec<char>) -> (r: Option<Vec<Vec<char>>>)
    ensures
        r matches Some(w) ==> row_match(line@) is Some && w.deep_view() == words(line@) && w.len()
            >= 10,
        r is None ==> row_match(line@) is None,
{
    let w = split_words(line);
    if w.len() < 10 {
        return None;
    }
    assert(forall|i: int| 0 <= i < w.len() ==> w.deep_view()[i] == w@[i]@);
    if ip_shape_exec(&w[0]) && all_rdigits_exec(&w[1]) && all_rdigits_exec(&w[2])
        && all_rdigits_exec(&w[3]) && all_rdigits_exec(&w[4]) && all_rdigits_exec(&w[5])
        && all_rdigits_exec(&w[6]) && all_rdigits_exec(&w[7]) {
        Some(w)
    } else {
        None
    }
}

/// Summary of `show ip bgp summary` output on a router with this router-id
/// and local AS, fetched at `fetched_at`.
pub open spec fn summary_of(
    s: BgpSummary,
    output: Seq<char>,
    router_id: IpAddress,
    local_as: u32,
) -> bool {
    &&& s.router_id == router_id
    &&& s.local_as == local_as
    &&& s.table_version == table_version_of(lines(output))
    &&& s.peers.len() == row_caps(lines(output)).len()
    &&& forall|i: int|
        0 <= i < s.peers.len() ==> peer_from_row(
            #[trigger] s.peers@[i],
            row_caps(lines(output))[i],
            local_as,
        )
}

/// The summary parser, given the fetch time.
pub fn parse_cisco_bgp_summary_at(
    output: &str,
    router_id: IpAddress,
    local_as: u32,
    fetched_at: i64,
) -> (r: BgpSummary)
    ensures
        summary_of(r, output@, router_id, local_as),
        r.fetched_at == fetched_at,
{
    let text = chars_of(output);
    let ls = split_lines(&text);
    let ghost lv = ls.deep_view();
    let lit = chars_of("table version is ");
    let mut peers: Vec<BgpPeer> = Vec::new();
    let mut table_version: u64 = 0;
    let mut i: usize = 0;
    while i < ls.len()
        invariant
            i <= ls.len(),
            lv == ls.deep_view(),
            lv == lines(output@),
            lit@ == "table version is "@,
            table_version as nat == table_version_of(lv.take(i as int)),
            peers.len() == row_caps(lv.take(i as int)).len(),
            forall|k: int|
                0 <= k < peers.len() ==> peer_from_row(
                    #[trigger] peers@[k],
                    row_caps(lv.take(i as int))[k],
                    local_as,
                ),
        decreases ls.len() - i,
    {
        let line = &ls[i];
        proof {
            assert(lv[i as int] == line@);
            assert(lv.take(i + 1).drop_last() =~= lv.take(i as int));
            assert(lv.take(i + 1).last() == line@);
        }
        match version_search_exec(line, &lit) {
            Some(cap) => {
                table_version = num_exec(&cap, 0xffff_ffff_ffff_ffff);
            },
            None => {},
        }
        let ghost before = peers@;
        match row_words(line) {
            Some(w) => {
                let p = peer_of_row(&w, local_as);
                peers.push(p);
                proof {
                    let caps = row_caps(lv.take(i + 1));
                    assert(caps == row_caps(lv.take(i as int)) + seq![row_match(line@)->0]);
                    assert forall|k: int| 0 <= k < peers.len() implies peer_from_row(
                        #[trigger] peers@[k],
                        caps[k],
                        local_as,
                    ) by {
                        if k < before.len() {
                            assert(peers@[k] == before[k]);
                        }
                    }
                }
            },
            None => {
                proof {
                    assert(row_caps(lv.take(i + 1)) =~= row_caps(lv.take(i as int)));
                }
            },
        }
        i = i + 1;
    }
    proof {
        assert(lv.take(ls.len() as int) =~= lv);
    }
    BgpSummary { router_id, local_as, table_version, peers, fetched_at }
}

/// Microseconds since the Unix epoch now.
///
/// Calls `chrono::Utc::now` and `DateTime::timestamp_micros`; nothing is
/// stated of the value, which depends on the clock.
#[verifier::external_body]
pub(crate) fn now_micros() -> (r: i64) {
    chrono::Utc::now().timestamp_micros()
}

/// The summary parser for a router whose router-id and local AS are known;
/// the fetch time is the current time.
pub fn parse_cisco_bgp_summary(output: &str, router_id: IpAddress, local_as: u32) -> (r: BgpSummary)
    ensures
        summary_of(r, output@, router_id, local_as),
{
    parse_cisco_bgp_summary_at(output, router_id, local_as, now_micros())
}

/// The summary parser that also reads router-id and local AS from the
/// header, given the fetch time.
pub fn parse_bgp_summary_at(output: &str, fetched_at: i64) -> (r: BgpSummary)
    ensures
        summary_of(r, output@, header_values(output@).0, header_values(output@).1 as u32),
        header_values(output@).1 <= u32_max(),
        r.fetched_at == fetched_at,
{
    let text = chars_of(output);
    let (router_id, local_as) = match header_search_exec(&text) {
        Some((rid, las)) => (
            match parse_ip(&rid) {
                Some(ip) => ip,
                None => IpAddress::V4(0, 0, 0, 0),
            },
            num_exec(&las, 0xffff_ffff) as u32,
        ),
        None => (IpAddress::V4(0, 0, 0, 0), 0u32),
    };
    parse_cisco_bgp_summary_at(output, router_id, local_as, fetched_at)
}

/// The summary parser that reads router-id and local AS from the header;
/// the fetch time is the current time.
pub fn parse_bgp_summary(output: &str) -> (r: BgpSummary)
    ensures
        summary_of(r, output@, header_values(output@).0, header_values(output@).1 as u32),
        header_values(output@).1 <= u32_max(),
{
    parse_bgp_summary_at(output, now_micros())
}

/// The rows of two runs of lines are the rows of the first followed by
/// those of the second: each line yields its own row, or none, in order.
pub proof fn law_row_caps_concat(a: Seq<Seq<char>>, b: Seq<Seq<char>>)
    ensures
        row_caps(a + b) == row_caps(a) + row_caps(b),
    decreases b.len(),
{
    if b.len() == 0 {
        assert(a + b =~= a);
        assert(row_caps(a) + row_caps(b) =~= row_caps(a));
    } else {
        law_row_caps_concat(a, b.drop_last());
        assert((a + b).drop_last() =~= a + b.drop_last());
        assert((a + b).last() == b.last());
        let t = match row_match(b.last()) {
            Some(c) => seq![c],
            None => Seq::<RowCaps>::empty(),
        };
        assert(row_caps(a) + row_caps(b.drop_last()) + t =~= row_caps(a) + (row_caps(b.drop_last())
            + t));
    }
}

/// The last version wins: after two runs of lines, the table version is that
/// of the second run where one of its lines states a version, else that of
/// the first.
pub proof fn law_table_version_last_wins(a: Seq<Seq<char>>, b: Seq<Seq<char>>)
    ensures
        (exists|i: int| 0 <= i < b.len() && #[trigger] version_search(b[i], 0) is Some)
            ==> table_version_of(a + b) == table_version_of(b),
        (forall|i: int| 0 <= i < b.len() ==> #[trigger] version_search(b[i], 0) is None)
            ==> table_version_of(a + b) == table_version_of(a),
    decreases b.len(),
{
    if b.len() == 0 {
        assert(a + b =~= a);
    } else {
        let d = b.drop_last();
        law_table_version_last_wins(a, d);
        assert((a + b).drop_last() =~= a + d);
        assert((a + b).last() == b.last());
        assert(b.last() == b[b.len() - 1]);
        if version_search(b.last(), 0) is None {
            if exists|i: int| 0 <= i < b.len() && #[trigger] version_search(b[i], 0) is Some {
                let i = choose|i: int| 0 <= i < b.len() && #[trigger] version_search(b[i], 0) is Some;
                assert(d[i] == b[i]);
            }
            if forall|i: int| 0 <= i < b.len() ==> #[trigger] version_search(b[i], 0) is None {
                assert forall|i: int| 0 <= i < d.len() implies #[trigger] version_search(d[i], 0)
                    is None by {
                    assert(d[i] == b[i]);
                }
            }
        }
    }
}

} // verus!

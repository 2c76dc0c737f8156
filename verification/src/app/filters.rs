//! The filter bars of the list tabs: which rows a typed filter keeps, and
//! how the selection follows the filtered list.

use vstd::prelude::*;

use crate::bgp::types::{
    as_path_text, origin_symbol, state_label, BgpPeer, BgpRoute, RouteOrigin,
};
use crate::net::ip_text;
use crate::text::{
    chars_of, contains, contains_chars, decimal, decimal_chars, opt_view, str_lowercase,
    to_lowercase,
};

verus! {

/// The text of an optional string, empty when absent.
pub open spec fn opt_text(o: Option<String>) -> Seq<char> {
    match o {
        Some(s) => s@,
        None => seq![],
    }
}

pub open spec fn session_label(p: BgpPeer) -> Seq<char> {
    if p.remote_as == p.local_as {
        "iBGP"@
    } else {
        "eBGP"@
    }
}

/// A line passes the (already lower-cased) filter `f` when `f` is empty or
/// occurs in the lower-cased line.
pub open spec fn line_kept(line: Seq<char>, f: Seq<char>) -> bool {
    f.len() == 0 || contains(str_lowercase(line), f)
}

/// A peer passes the (already lower-cased) filter `f` when `f` is empty or
/// occurs in its address, its AS number, or the lower-cased state,
/// description, route-maps or session type.
pub open spec fn peer_kept(p: BgpPeer, f: Seq<char>) -> bool {
    ||| f.len() == 0
    ||| contains(ip_text(p.neighbor_ip), f)
    ||| contains(decimal(p.remote_as as nat), f)
    ||| contains(str_lowercase(state_label(p.state@)), f)
    ||| contains(str_lowercase(opt_text(p.description)), f)
    ||| contains(str_lowercase(opt_text(p.route_map_in)), f)
    ||| contains(str_lowercase(opt_text(p.route_map_out)), f)
    ||| contains(str_lowercase(session_label(p)), f)
}

/// Some community of the list holds `f` once lower-cased.
pub open spec fn some_community_has(cs: Seq<Seq<char>>, f: Seq<char>) -> bool {
    exists|i: int| 0 <= i < cs.len() && contains(str_lowercase(cs[i]), f)
}

/// A route passes the (already lower-cased) filter `f` when `f` is empty or
/// occurs in the lower-cased network, next hop, a community or origin code,
/// or in the AS path.
pub open spec fn route_kept(r: BgpRoute, f: Seq<char>) -> bool {
    ||| f.len() == 0
    ||| contains(str_lowercase(r.network@), f)
    ||| contains(str_lowercase(r.next_hop@), f)
    ||| contains(as_path_text(r.as_path@), f)
    ||| some_community_has(r.communities.deep_view(), f)
    ||| contains(str_lowercase(origin_symbol(r.origin)), f)
}

/// The indices below `n` of the lines that pass, in order.
pub open spec fn kept_lines(ls: Seq<Seq<char>>, f: Seq<char>, n: int) -> Seq<usize>
    decreases n,
{
    if n <= 0 {
        seq![]
    } else if line_kept(ls[n - 1], f) {
        kept_lines(ls, f, n - 1).push((n - 1) as usize)
    } else {
        kept_lines(ls, f, n - 1)
    }
}

/// The indices below `n` of the peers that pass, in order.
pub open spec fn kept_peers(ps: Seq<BgpPeer>, f: Seq<char>, n: int) -> Seq<usize>
    decreases n,
{
    if n <= 0 {
        seq![]
    } else if peer_kept(ps[n - 1], f) {
        kept_peers(ps, f, n - 1).push((n - 1) as usize)
    } else {
        kept_peers(ps, f, n - 1)
    }
}

/// The indices below `n` of the routes that pass, in order.
pub open spec fn kept_routes(rs: Seq<BgpRoute>, f: Seq<char>, n: int) -> Seq<usize>
    decreases n,
{
    if n <= 0 {
        seq![]
    } else if route_kept(rs[n - 1], f) {
        kept_routes(rs, f, n - 1).push((n - 1) as usize)
    } else {
        kept_routes(rs, f, n - 1)
    }
}

fn lower(s: &String) -> (r: Vec<char>)
    ensures
        r@ == str_lowercase(s@),
{
    to_lowercase(&chars_of(s.as_str()))
}

fn lower_opt(o: &Option<String>) -> (r: Vec<char>)
    ensures
        r@ == str_lowercase(opt_text(*o)),
{
    match o {
        Some(s) => lower(s),
        None => to_lowercase(&Vec::new()),
    }
}

/// Whether a line passes the lower-cased filter `f`.
pub fn line_passes(line: &String, f: &Vec<char>) -> (r: bool)
    ensures
        r == line_kept(line@, f@),
{
    f.len() == 0 || contains_chars(&lower(line), f)
}

/// Whether a peer passes the lower-cased filter `f`.
pub fn peer_passes(p: &BgpPeer, f: &Vec<char>) -> (r: bool)
    ensures
        r == peer_kept(*p, f@),
{
    f.len() == 0 || contains_chars(&p.neighbor_ip.text(), f) || contains_chars(
        &decimal_chars(p.remote_as as u64),
        f,
    ) || contains_chars(&to_lowercase(&chars_of(p.state.as_str())), f) || contains_chars(
        &lower_opt(&p.description),
        f,
    ) || contains_chars(&lower_opt(&p.route_map_in), f) || contains_chars(
        &lower_opt(&p.route_map_out),
        f,
    ) || contains_chars(&to_lowercase(&chars_of(p.session_type())), f)
}

/// Whether a route passes the lower-cased filter `f`.
pub fn route_passes(r: &BgpRoute, f: &Vec<char>) -> (b: bool)
    ensures
        b == route_kept(*r, f@),
{
    if f.len() == 0 || contains_chars(&lower(&r.network), f) || contains_chars(
        &lower(&r.next_hop),
        f,
    ) || contains_chars(&chars_of(r.as_path_str().as_str()), f) {
        return true;
    }
    let mut i: usize = 0;
    while i < r.communities.len()
        invariant
            i <= r.communities.len(),
            forall|j: int|
                0 <= j < i ==> !contains(str_lowercase(#[trigger] r.communities.deep_view()[j]), f@),
        decreases r.communities.len() - i,
    {
        assert(r.communities.deep_view()[i as int] == r.communities@[i as int]@);
        if contains_chars(&lower(&r.communities[i]), f) {
            return true;
        }
        i = i + 1;
    }
    contains_chars(&to_lowercase(&chars_of(r.origin.symbol())), f)
}

/// The indices of the lines that pass the filter (lower-cased first).
pub fn filter_lines(lines: &Vec<String>, filter: &String) -> (r: Vec<usize>)
    ensures
        r@ == kept_lines(lines.deep_view(), str_lowercase(filter@), lines.len() as int),
{
    let f = lower(filter);
    let mut r: Vec<usize> = Vec::new();
    let mut i: usize = 0;
    while i < lines.len()
        invariant
            i <= lines.len(),
            f@ == str_lowercase(filter@),
            r@ == kept_lines(lines.deep_view(), f@, i as int),
        decreases lines.len() - i,
    {
        assert(lines.deep_view()[i as int] == lines@[i as int]@);
        if line_passes(&lines[i], &f) {
            r.push(i);
        }
        i = i + 1;
    }
    r
}

/// The indices of the peers that pass the filter (lower-cased first).
pub fn filter_peers(peers: &Vec<BgpPeer>, filter: &String) -> (r: Vec<usize>)
    ensures
        r@ == kept_peers(peers@, str_lowercase(filter@), peers.len() as int),
{
    let f = lower(filter);
    let mut r: Vec<usize> = Vec::new();
    let mut i: usize = 0;
    while i < peers.len()
        invariant
            i <= peers.len(),
            f@ == str_lowercase(filter@),
            r@ == kept_peers(peers@, f@, i as int),
        decreases peers.len() - i,
    {
        if peer_passes(&peers[i], &f) {
            r.push(i);
        }
        i = i + 1;
    }
    r
}

/// The indices of the routes that pass the filter (lower-cased first).
pub fn filter_routes(routes: &Vec<BgpRoute>, filter: &String) -> (r: Vec<usize>)
    ensures
        r@ == kept_routes(routes@, str_lowercase(filter@), routes.len() as int),
{
    let f = lower(filter);
    let mut r: Vec<usize> = Vec::new();
    let mut i: usize = 0;
    while i < routes.len()
        invariant
            i <= routes.len(),
            f@ == str_lowercase(filter@),
            r@ == kept_routes(routes@, f@, i as int),
        decreases routes.len() - i,
    {
        if route_passes(&routes[i], &f) {
            r.push(i);
        }
        i = i + 1;
    }
    r
}

/// The selection after the filtered list was recomputed with `len` rows: a
/// selection past the end goes to the first row (or none on an empty list);
/// no selection becomes the first row when there is one.
pub open spec fn selection_kept(sel: Option<usize>, len: nat) -> Option<usize> {
    match sel {
        Some(i) => {
            if i >= len {
                if len == 0 {
                    None
                } else {
                    Some(0)
                }
            } else {
                sel
            }
        },
        None => {
            if len > 0 {
                Some(0)
            } else {
                None
            }
        },
    }
}

pub fn keep_selection(sel: Option<usize>, len: usize) -> (r: Option<usize>)
    ensures
        r == selection_kept(sel, len as nat),
        r is None <==> len == 0,
        r matches Some(i) ==> i < len,
{
    match sel {
        Some(i) => {
            if i >= len {
                if len == 0 {
                    None
                } else {
                    Some(0)
                }
            } else {
                sel
            }
        },
        None => {
            if len > 0 {
                Some(0)
            } else {
                None
            }
        },
    }
}

/// Every kept index is a row of the list that passes the filter, and the
/// indices rise.
pub proof fn law_kept_lines_in_range(ls: Seq<Seq<char>>, f: Seq<char>, n: int)
    requires
        0 <= n <= ls.len(),
        ls.len() <= usize::MAX,
    ensures
        forall|j: int|
            0 <= j < kept_lines(ls, f, n).len() ==> #[trigger] kept_lines(ls, f, n)[j] < n
                && line_kept(ls[kept_lines(ls, f, n)[j] as int], f),
        forall|a: int, b: int|
            0 <= a < b < kept_lines(ls, f, n).len() ==> kept_lines(ls, f, n)[a] < kept_lines(
                ls,
                f,
                n,
            )[b],
    decreases n,
{
    if n > 0 {
        law_kept_lines_in_range(ls, f, n - 1);
        let p = kept_lines(ls, f, n - 1);
        if line_kept(ls[n - 1], f) {
            let k = p.push((n - 1) as usize);
            assert(kept_lines(ls, f, n) == k);
            assert forall|j: int| 0 <= j < k.len() implies #[trigger] k[j] < n && line_kept(
                ls[k[j] as int],
                f,
            ) by {
                if j < p.len() {
                    assert(k[j] == p[j]);
                }
            }
            assert forall|a: int, b: int| 0 <= a < b < k.len() implies k[a] < k[b] by {
                assert(k[a] == p[a]);
                if b < p.len() {
                    assert(k[b] == p[b]);
                }
            }
        }
    }
}

/// An empty filter keeps every line.
pub proof fn law_empty_filter_keeps_all(ls: Seq<Seq<char>>, n: int)
    requires
        0 <= n <= ls.len(),
        ls.len() <= usize::MAX,
    ensures
        kept_lines(ls, Seq::<char>::empty(), n).len() == n,
        forall|j: int| 0 <= j < n ==> #[trigger] kept_lines(ls, Seq::<char>::empty(), n)[j] == j,
    decreases n,
{
    if n > 0 {
        law_empty_filter_keeps_all(ls, n - 1);
        let p = kept_lines(ls, Seq::<char>::empty(), n - 1);
        let k = p.push((n - 1) as usize);
        assert(line_kept(ls[n - 1], Seq::<char>::empty()));
        assert(kept_lines(ls, Seq::<char>::empty(), n) == k);
        assert forall|j: int| 0 <= j < n implies #[trigger] k[j] == j by {
            if j < n - 1 {
                assert(k[j] == p[j]);
            }
        }
    }
}

/// The rows below `n` that `kept_routes` lists are exactly those that pass.
proof fn lemma_kept_routes_member(rs: Seq<BgpRoute>, f: Seq<char>, n: int, i: int)
    requires
        0 <= i < n <= rs.len(),
        rs.len() <= usize::MAX,
    ensures
        kept_routes(rs, f, n).contains(i as usize) <==> route_kept(rs[i], f),
    decreases n,
{
    let p = kept_routes(rs, f, n - 1);
    if i < n - 1 {
        lemma_kept_routes_member(rs, f, n - 1, i);
        if route_kept(rs[n - 1], f) {
            let k = p.push((n - 1) as usize);
            assert(kept_routes(rs, f, n) == k);
            if p.contains(i as usize) {
                let j = choose|j: int| 0 <= j < p.len() && p[j] == i as usize;
                assert(k[j] == i as usize);
            }
            if k.contains(i as usize) {
                let j = choose|j: int| 0 <= j < k.len() && k[j] == i as usize;
                if j < p.len() {
                    assert(k[j] == p[j]);
                }
            }
        }
    } else {
        if route_kept(rs[n - 1], f) {
            let k = p.push((n - 1) as usize);
            assert(k[p.len() as int] == i as usize);
        } else {
            lemma_kept_routes_below(rs, f, n - 1);
            if p.contains(i as usize) {
                let j = choose|j: int| 0 <= j < p.len() && p[j] == i as usize;
                assert(p[j] < n - 1);
            }
        }
    }
}

/// Every index that `kept_routes` lists is below `n`.
proof fn lemma_kept_routes_below(rs: Seq<BgpRoute>, f: Seq<char>, n: int)
    requires
        0 <= n <= rs.len(),
        rs.len() <= usize::MAX,
    ensures
        forall|j: int| 0 <= j < kept_routes(rs, f, n).len() ==> #[trigger] kept_routes(rs, f, n)[j] < n,
    decreases n,
{
    if n > 0 {
        lemma_kept_routes_below(rs, f, n - 1);
        let p = kept_routes(rs, f, n - 1);
        if route_kept(rs[n - 1], f) {
            let k = p.push((n - 1) as usize);
            assert forall|j: int| 0 <= j < k.len() implies #[trigger] k[j] < n by {
                if j < p.len() {
                    assert(k[j] == p[j]);
                }
            }
        }
    }
}

/// A route is among the rows that the routes filter keeps exactly when the
/// lower-cased filter is empty or occurs in the route's lower-cased network,
/// its lower-cased next hop, its AS path text, one of its lower-cased
/// communities or its lower-cased origin code.
pub proof fn law_route_filter_fields(rs: Seq<BgpRoute>, filter: Seq<char>, i: int)
    requires
        0 <= i < rs.len(),
        rs.len() <= usize::MAX,
    ensures
        ({
            let f = str_lowercase(filter);
            let r = rs[i];
            kept_routes(rs, f, rs.len() as int).contains(i as usize) <==> (f.len() == 0
                || contains(str_lowercase(r.network@), f) || contains(
                str_lowercase(r.next_hop@),
                f,
            ) || contains(as_path_text(r.as_path@), f) || (exists|c: int|
                0 <= c < r.communities.len() && contains(
                    str_lowercase(#[trigger] r.communities[c]@),
                    f,
                )) || contains(str_lowercase(origin_symbol(r.origin)), f))
        }),
{
    let f = str_lowercase(filter);
    let r = rs[i];
    lemma_kept_routes_member(rs, f, rs.len() as int, i);
    let cs = r.communities.deep_view();
    if some_community_has(cs, f) {
        let c = choose|c: int| 0 <= c < cs.len() && contains(str_lowercase(cs[c]), f);
        assert(cs[c] == r.communities[c]@);
    }
    if exists|c: int|
        0 <= c < r.communities.len() && contains(str_lowercase(#[trigger] r.communities[c]@), f) {
        let c = choose|c: int|
            0 <= c < r.communities.len() && contains(str_lowercase(#[trigger] r.communities[c]@), f);
        assert(cs[c] == r.communities[c]@);
    }
}

/// The rows below `n` that `kept_peers` lists are exactly those that pass.
proof fn lemma_kept_peers_member(ps: Seq<BgpPeer>, f: Seq<char>, n: int, i: int)
    requires
        0 <= i < n <= ps.len(),
        ps.len() <= usize::MAX,
    ensures
        kept_peers(ps, f, n).contains(i as usize) <==> peer_kept(ps[i], f),
    decreases n,
{
    let p = kept_peers(ps, f, n - 1);
    if i < n - 1 {
        lemma_kept_peers_member(ps, f, n - 1, i);
        if peer_kept(ps[n - 1], f) {
            let k = p.push((n - 1) as usize);
            assert(kept_peers(ps, f, n) == k);
            if p.contains(i as usize) {
                let j = choose|j: int| 0 <= j < p.len() && p[j] == i as usize;
                assert(k[j] == i as usize);
            }
            if k.contains(i as usize) {
                let j = choose|j: int| 0 <= j < k.len() && k[j] == i as usize;
                if j < p.len() {
                    assert(k[j] == p[j]);
                }
            }
        }
    } else {
        if peer_kept(ps[n - 1], f) {
            let k = p.push((n - 1) as usize);
            assert(k[p.len() as int] == i as usize);
        } else {
            lemma_kept_peers_below(ps, f, n - 1);
            if p.contains(i as usize) {
                let j = choose|j: int| 0 <= j < p.len() && p[j] == i as usize;
                assert(p[j] < n - 1);
            }
        }
    }
}

/// Every index that `kept_peers` lists is below `n`.
proof fn lemma_kept_peers_below(ps: Seq<BgpPeer>, f: Seq<char>, n: int)
    requires
        0 <= n <= ps.len(),
        ps.len() <= usize::MAX,
    ensures
        forall|j: int| 0 <= j < kept_peers(ps, f, n).len() ==> #[trigger] kept_peers(ps, f, n)[j] < n,
    decreases n,
{
    if n > 0 {
        lemma_kept_peers_below(ps, f, n - 1);
        let p = kept_peers(ps, f, n - 1);
        if peer_kept(ps[n - 1], f) {
            let k = p.push((n - 1) as usize);
            assert forall|j: int| 0 <= j < k.len() implies #[trigger] k[j] < n by {
                if j < p.len() {
                    assert(k[j] == p[j]);
                }
            }
        }
    }
}

/// A peer is among the rows that the peers filter keeps exactly when the
/// lower-cased filter is empty or occurs in the peer's address, its AS
/// number in decimal, or the lower-cased text of its state, description,
/// inbound or outbound route-map, or session type (`iBGP` when both AS
/// numbers agree, else `eBGP`).
pub proof fn law_peer_filter_fields(ps: Seq<BgpPeer>, filter: Seq<char>, i: int)
    requires
        0 <= i < ps.len(),
        ps.len() <= usize::MAX,
    ensures
        ({
            let f = str_lowercase(filter);
            let p = ps[i];
            kept_peers(ps, f, ps.len() as int).contains(i as usize) <==> (f.len() == 0
                || contains(ip_text(p.neighbor_ip), f) || contains(decimal(p.remote_as as nat), f)
                || contains(str_lowercase(state_label(p.state@)), f) || contains(
                str_lowercase(opt_text(p.description)),
                f,
            ) || contains(str_lowercase(opt_text(p.route_map_in)), f) || contains(
                str_lowercase(opt_text(p.route_map_out)),
                f,
            ) || contains(
                str_lowercase(
                    if p.remote_as == p.local_as {
                        "iBGP"@
                    } else {
                        "eBGP"@
                    },
                ),
                f,
            ))
        }),
{
    lemma_kept_peers_member(ps, str_lowercase(filter), ps.len() as int, i);
}

/// The rows below `n` that `kept_lines` lists are exactly those that pass.
proof fn lemma_kept_lines_member(ls: Seq<Seq<char>>, f: Seq<char>, n: int, i: int)
    requires
        0 <= i < n <= ls.len(),
        ls.len() <= usize::MAX,
    ensures
        kept_lines(ls, f, n).contains(i as usize) <==> line_kept(ls[i], f),
    decreases n,
{
    let p = kept_lines(ls, f, n - 1);
    if i < n - 1 {
        lemma_kept_lines_member(ls, f, n - 1, i);
        if line_kept(ls[n - 1], f) {
            let k = p.push((n - 1) as usize);
            assert(kept_lines(ls, f, n) == k);
            if p.contains(i as usize) {
                let j = choose|j: int| 0 <= j < p.len() && p[j] == i as usize;
                assert(k[j] == i as usize);
            }
            if k.contains(i as usize) {
                let j = choose|j: int| 0 <= j < k.len() && k[j] == i as usize;
                if j < p.len() {
                    assert(k[j] == p[j]);
                }
            }
        }
    } else {
        if line_kept(ls[n - 1], f) {
            let k = p.push((n - 1) as usize);
            assert(k[p.len() as int] == i as usize);
        } else {
            law_kept_lines_in_range(ls, f, n - 1);
            if p.contains(i as usize) {
                let j = choose|j: int| 0 <= j < p.len() && p[j] == i as usize;
                assert(p[j] < n - 1);
            }
        }
    }
}

/// A configuration line is among the rows that the lines filter keeps
/// exactly when the lower-cased filter is empty or occurs in the lower-cased
/// line.
pub proof fn law_line_filter_match(ls: Seq<Seq<char>>, filter: Seq<char>, i: int)
    requires
        0 <= i < ls.len(),
        ls.len() <= usize::MAX,
    ensures
        kept_lines(ls, str_lowercase(filter), ls.len() as int).contains(i as usize) <==> (
        str_lowercase(filter).len() == 0 || contains(str_lowercase(ls[i]), str_lowercase(filter))),
{
    lemma_kept_lines_member(ls, str_lowercase(filter), ls.len() as int, i);
}

} // verus!

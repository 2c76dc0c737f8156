//! Route-map, prefix-list and community-list entries and their validation.

use vstd::prelude::*;

use crate::net::{parse_ipv4, parse_ipv4_text, parse_ipv6, parse_ipv6_text};
use crate::text::{
    append_chars, chars_of, decimal, decimal_chars, find_char, find_char_exec, has_char,
    has_char_exec, is_text, parse_unsigned, parse_unsigned_chars, slice_chars, split_words,
    string_of, trim, trim_chars, words,
};

verus! {

#[derive(Debug, Clone)]
pub struct RouteMapEntry {
    pub sequence: u32,
    /// "permit" | "deny"
    pub action: String,
    pub match_clauses: Vec<String>,
    pub set_clauses: Vec<String>,
}

#[derive(Debug, Clone)]
pub struct PrefixListEntry {
    pub seq: u32,
    pub action: String,
    pub prefix: String,
}

#[derive(Debug, Clone)]
pub struct CommunityListEntry {
    pub seq: u32,
    pub action: String,
    pub community: String,
}

#[derive(Debug, Clone)]
pub struct RouteMapDetail {
    pub name: String,
    pub entries: Vec<RouteMapEntry>,
    /// prefix-list name → entries
    pub prefix_lists: std::collections::HashMap<String, Vec<PrefixListEntry>>,
    /// community-list name → raw permit/deny lines
    pub community_lists: std::collections::HashMap<String, Vec<String>>,
}

/// A prefix-list or community-list entry as the editors see it: number,
/// action and the one text value (prefix or community).
pub struct TextEntryView {
    pub seq: u32,
    pub action: Seq<char>,
    pub value: Seq<char>,
}

/// A route-map entry by its characters.
pub struct RouteMapEntryView {
    pub seq: u32,
    pub action: Seq<char>,
    pub matches: Seq<Seq<char>>,
    pub sets: Seq<Seq<char>>,
}

impl View for RouteMapEntry {
    type V = RouteMapEntryView;

    open spec fn view(&self) -> RouteMapEntryView {
        RouteMapEntryView {
            seq: self.sequence,
            action: self.action@,
            matches: self.match_clauses.deep_view(),
            sets: self.set_clauses.deep_view(),
        }
    }
}

impl View for PrefixListEntry {
    type V = TextEntryView;

    open spec fn view(&self) -> TextEntryView {
        TextEntryView { seq: self.seq, action: self.action@, value: self.prefix@ }
    }
}

impl View for CommunityListEntry {
    type V = TextEntryView;

    open spec fn view(&self) -> TextEntryView {
        TextEntryView { seq: self.seq, action: self.action@, value: self.community@ }
    }
}

/// The message for an action that is neither `permit` nor `deny`.
pub open spec fn bad_action_msg(action: Seq<char>) -> Seq<char> {
    "Action must be 'permit' or 'deny', got '"@ + action + "'"@
}

pub open spec fn action_ok(action: Seq<char>) -> bool {
    action == "permit"@ || action == "deny"@
}

/// Validation of a community-list entry.
pub open spec fn community_entry_check(action: Seq<char>, community: Seq<char>) -> Result<
    (),
    Seq<char>,
> {
    if !action_ok(action) {
        Err(bad_action_msg(action))
    } else if trim(community).len() == 0 {
        Err("Community value is required"@)
    } else {
        Ok(())
    }
}

fn bad_action(action: &String) -> (r: String)
    ensures
        r@ == bad_action_msg(action@),
{
    let mut v = chars_of("Action must be 'permit' or 'deny', got '");
    append_chars(&mut v, chars_of(action.as_str()));
    append_chars(&mut v, chars_of("'"));
    string_of(&v)
}

pub open spec fn result_view(r: Result<(), String>) -> Result<(), Seq<char>> {
    match r {
        Ok(()) => Ok(()),
        Err(e) => Err(e@),
    }
}

impl CommunityListEntry {
    pub fn validate(&self) -> (r: Result<(), String>)
        ensures
            result_view(r) == community_entry_check(self.action@, self.community@),
    {
        let a = chars_of(self.action.as_str());
        if !is_text(&a, "permit") && !is_text(&a, "deny") {
            return Err(bad_action(&self.action));
        }
        if trim_chars(&chars_of(self.community.as_str())).len() == 0 {
            return Err(String::from_str("Community value is required"));
        }
        Ok(())
    }
}

// ─── Prefix-list validation ──────────────────────────────────────────────────

/// `'` + text + `'`.
pub open spec fn quoted(s: Seq<char>) -> Seq<char> {
    "'"@ + s + "'"@
}

/// Scan of the `ge N` / `le N` modifiers that follow the prefix: the words
/// are read in pairs from index `i`; a later modifier replaces an earlier one
/// of the same kind and other pairs are skipped.
pub open spec fn modifier_scan(parts: Seq<Seq<char>>, i: int, ge: Option<nat>, le: Option<nat>) -> Result<
    (Option<nat>, Option<nat>),
    Seq<char>,
>
    decreases parts.len() - i,
{
    if i < 1 || i + 1 >= parts.len() {
        Ok((ge, le))
    } else if parts[i] == "ge"@ {
        match parse_unsigned(parts[i + 1], 255) {
            Some(g) => modifier_scan(parts, i + 2, Some(g), le),
            None => Err("Invalid ge value: "@ + quoted(parts[i + 1])),
        }
    } else if parts[i] == "le"@ {
        match parse_unsigned(parts[i + 1], 255) {
            Some(l) => modifier_scan(parts, i + 2, ge, Some(l)),
            None => Err("Invalid le value: "@ + quoted(parts[i + 1])),
        }
    } else {
        modifier_scan(parts, i + 2, ge, le)
    }
}

/// The checks of the `ge` / `le` bounds against the prefix length.
pub open spec fn bounds_check(ge: Option<nat>, le: Option<nat>, plen: nat, max: nat) -> Result<
    (),
    Seq<char>,
> {
    if ge is Some && ge->0 < plen {
        Err(
            "ge ("@ + decimal(ge->0) + ") must be >= prefix length ("@ + decimal(plen) + ")"@,
        )
    } else if ge is Some && ge->0 > max {
        Err("ge ("@ + decimal(ge->0) + ") exceeds maximum "@ + decimal(max))
    } else if le is Some && le->0 > max {
        Err("le ("@ + decimal(le->0) + ") exceeds maximum "@ + decimal(max))
    } else if le is Some && le->0 < plen {
        Err(
            "le ("@ + decimal(le->0) + ") must be >= prefix length ("@ + decimal(plen) + ")"@,
        )
    } else if ge is Some && le is Some && ge->0 > le->0 {
        Err("ge ("@ + decimal(ge->0) + ") must be <= le ("@ + decimal(le->0) + ")"@)
    } else {
        Ok(())
    }
}

/// Validation of a prefix-list entry: the action, then `NET/LEN` with an
/// IPv4 or IPv6 network and a length within the family's maximum, then the
/// optional `ge` / `le` modifiers.
pub open spec fn prefix_entry_check(action: Seq<char>, prefix: Seq<char>) -> Result<(), Seq<char>> {
    let parts = words(prefix);
    if !action_ok(action) {
        Err(bad_action_msg(action))
    } else if parts.len() == 0 {
        Err("Prefix is required"@)
    } else {
        let cidr = parts[0];
        match find_char(cidr, '/', 0) {
            None => Err("Invalid CIDR: "@ + quoted(cidr) + " (expected x.x.x.x/N)"@),
            Some(k) => {
                let net = cidr.take(k);
                let bits = cidr.skip(k + 1);
                if parse_ipv4_text(net) is None && parse_ipv6_text(net) is None {
                    Err("Invalid network address: "@ + quoted(net))
                } else {
                    match parse_unsigned(bits, 255) {
                        None => Err("Invalid prefix length: "@ + quoted(bits)),
                        Some(plen) => {
                            let max: nat = if has_char(net, ':') {
                                128
                            } else {
                                32
                            };
                            if plen > max {
                                Err(
                                    "Prefix length "@ + decimal(plen) + " exceeds maximum "@
                                        + decimal(max),
                                )
                            } else {
                                match modifier_scan(parts, 1, None, None) {
                                    Err(e) => Err(e),
                                    Ok((ge, le)) => bounds_check(ge, le, plen, max),
                                }
                            }
                        },
                    }
                }
            },
        }
    }
}

fn lit(s: &str) -> (r: Vec<char>)
    ensures
        r@ == s@,
{
    chars_of(s)
}

fn quoted_chars(v: &Vec<char>) -> (r: Vec<char>)
    ensures
        r@ == quoted(v@),
{
    let mut r = lit("'");
    append_chars(&mut r, v.clone());
    append_chars(&mut r, lit("'"));
    r
}

fn num(n: u64) -> (r: Vec<char>)
    ensures
        r@ == decimal(n as nat),
{
    decimal_chars(n)
}

/// `a + b`
fn cat2(a: Vec<char>, b: Vec<char>) -> (r: Vec<char>)
    ensures
        r@ == a@ + b@,
{
    let mut a = a;
    append_chars(&mut a, b);
    a
}

fn modifier_scan_exec(parts: &Vec<Vec<char>>) -> (r: Result<(Option<u8>, Option<u8>), Vec<char>>)
    ensures
        match r {
            Ok((g, l)) => modifier_scan(parts.deep_view(), 1, None, None) == Ok::<
                (Option<nat>, Option<nat>),
                Seq<char>,
            >(
                (
                    match g {
                        Some(x) => Some(x as nat),
                        None => None,
                    },
                    match l {
                        Some(x) => Some(x as nat),
                        None => None,
                    },
                ),
            ),
            Err(e) => modifier_scan(parts.deep_view(), 1, None, None) == Err::<
                (Option<nat>, Option<nat>),
                Seq<char>,
            >(e@),
        },
{
    let ghost pv = parts.deep_view();
    let mut ge: Option<u8> = None;
    let mut le: Option<u8> = None;
    let mut i: usize = 1;
    while i < parts.len() && parts.len() - i > 1
        invariant
            1 <= i,
            pv == parts.deep_view(),
            modifier_scan(pv, 1, None, None) == modifier_scan(
                pv,
                i as int,
                match ge {
                    Some(x) => Some(x as nat),
                    None => None,
                },
                match le {
                    Some(x) => Some(x as nat),
                    None => None,
                },
            ),
        decreases parts.len() - i,
    {
        assert(pv[i as int] == parts@[i as int]@);
        assert(pv[i + 1] == parts@[i + 1]@);
        if is_text(&parts[i], "ge") {
            match parse_unsigned_chars(&parts[i + 1], 255) {
                Some(g) => {
                    ge = Some(g as u8);
                },
                None => {
                    return Err(cat2(lit("Invalid ge value: "), quoted_chars(&parts[i + 1])));
                },
            }
        } else if is_text(&parts[i], "le") {
            match parse_unsigned_chars(&parts[i + 1], 255) {
                Some(l) => {
                    le = Some(l as u8);
                },
                None => {
                    return Err(cat2(lit("Invalid le value: "), quoted_chars(&parts[i + 1])));
                },
            }
        }
        i = i + 2;
    }
    Ok((ge, le))
}

fn bounds_check_exec(ge: Option<u8>, le: Option<u8>, plen: u8, max: u8) -> (r: Result<(), Vec<char>>)
    ensures
        match r {
            Ok(()) => bounds_check(
                match ge {
                    Some(x) => Some(x as nat),
                    None => None,
                },
                match le {
                    Some(x) => Some(x as nat),
                    None => None,
                },
                plen as nat,
                max as nat,
            ) is Ok,
            Err(e) => bounds_check(
                match ge {
                    Some(x) => Some(x as nat),
                    None => None,
                },
                match le {
                    Some(x) => Some(x as nat),
                    None => None,
                },
                plen as nat,
                max as nat,
            ) == Err::<(), Seq<char>>(e@),
        },
{
    if let Some(g) = ge {
        if g < plen {
            return Err(
                cat2(
                    cat2(cat2(cat2(lit("ge ("), num(g as u64)), lit(") must be >= prefix length (")), num(plen as u64)),
                    lit(")"),
                ),
            );
        }
        if g > max {
            return Err(cat2(cat2(cat2(lit("ge ("), num(g as u64)), lit(") exceeds maximum ")), num(max as u64)));
        }
    }
    if let Some(l) = le {
        if l > max {
            return Err(cat2(cat2(cat2(lit("le ("), num(l as u64)), lit(") exceeds maximum ")), num(max as u64)));
        }
        if l < plen {
            return Err(
                cat2(
                    cat2(cat2(cat2(lit("le ("), num(l as u64)), lit(") must be >= prefix length (")), num(plen as u64)),
                    lit(")"),
                ),
            );
        }
    }
    if let (Some(g), Some(l)) = (ge, le) {
        if g > l {
            return Err(
                cat2(cat2(cat2(cat2(lit("ge ("), num(g as u64)), lit(") must be <= le (")), num(l as u64)), lit(")")),
            );
        }
    }
    Ok(())
}

impl PrefixListEntry {
    /// Validate a prefix-list entry: `Ok(())` or a human-readable error.
    pub fn validate(&self) -> (r: Result<(), String>)
        ensures
            result_view(r) == prefix_entry_check(self.action@, self.prefix@),
    {
        let a = chars_of(self.action.as_str());
        if !is_text(&a, "permit") && !is_text(&a, "deny") {
            return Err(bad_action(&self.action));
        }
        let parts = split_words(&chars_of(self.prefix.as_str()));
        if parts.len() == 0 {
            return Err(String::from_str("Prefix is required"));
        }
        let cidr = &parts[0];
        assert(parts.deep_view()[0] == cidr@);
        let k = match find_char_exec(cidr, '/') {
            Some(k) => k,
            None => {
                return Err(
                    string_of(&cat2(cat2(lit("Invalid CIDR: "), quoted_chars(cidr)), lit(" (expected x.x.x.x/N)"))),
                );
            },
        };
        let net = slice_chars(cidr, 0, k);
        let bits = slice_chars(cidr, k + 1, cidr.len());
        assert(net@ =~= cidr@.take(k as int));
        assert(bits@ =~= cidr@.skip(k + 1));
        if parse_ipv4(&net).is_none() && parse_ipv6(&net).is_none() {
            return Err(string_of(&cat2(lit("Invalid network address: "), quoted_chars(&net))));
        }
        let plen: u8 = match parse_unsigned_chars(&bits, 255) {
            Some(p) => p as u8,
            None => {
                return Err(string_of(&cat2(lit("Invalid prefix length: "), quoted_chars(&bits))));
            },
        };
        let max: u8 = if has_char_exec(&net, ':') {
            128
        } else {
            32
        };
        if plen > max {
            return Err(
                string_of(
                    &cat2(cat2(cat2(lit("Prefix length "), num(plen as u64)), lit(" exceeds maximum ")), num(max as u64)),
                ),
            );
        }
        match modifier_scan_exec(&parts) {
            Err(e) => Err(string_of(&e)),
            Ok((ge, le)) => match bounds_check_exec(ge, le, plen, max) {
                Err(e) => Err(string_of(&e)),
                Ok(()) => Ok(()),
            },
        }
    }
}

/// An entry validates exactly when its action is `permit` or `deny`, its
/// first word is `NET/LEN` with an IPv4 or IPv6 network `NET` and a length
/// `plen` no greater than the family maximum (128 when the network holds a
/// `:`, else 32), the `ge` / `le` modifiers read, and the values they give,
/// where present, satisfy `plen <= ge <= max`, `plen <= le <= max` and
/// `ge <= le`.
pub proof fn law_prefix_entry_accepted(action: Seq<char>, prefix: Seq<char>)
    ensures
        prefix_entry_check(action, prefix) is Ok <==> ({
            let parts = words(prefix);
            let cidr = parts[0];
            let k = find_char(cidr, '/', 0)->0;
            let net = cidr.take(k);
            let plen = parse_unsigned(cidr.skip(k + 1), 255)->0;
            let max: nat = if has_char(net, ':') {
                128
            } else {
                32
            };
            let bounds = modifier_scan(parts, 1, None, None)->Ok_0;
            let ge = bounds.0;
            let le = bounds.1;
            &&& action_ok(action)
            &&& parts.len() > 0
            &&& find_char(cidr, '/', 0) is Some
            &&& (parse_ipv4_text(net) is Some || parse_ipv6_text(net) is Some)
            &&& parse_unsigned(cidr.skip(k + 1), 255) is Some
            &&& plen <= max
            &&& modifier_scan(parts, 1, None, None) is Ok
            &&& (ge is Some ==> plen <= ge->0 <= max)
            &&& (le is Some ==> plen <= le->0 <= max)
            &&& (ge is Some && le is Some ==> ge->0 <= le->0)
        }),
{
}

/// The modifiers after the prefix are read in pairs: `ge N` sets the lower
/// bound and `le N` the upper one, both together set both, a later pair of
/// the same kind replaces an earlier one, and a value that is not a number
/// up to 255 is refused with its own message.
pub proof fn law_modifier_pairs(cidr: Seq<char>, x: Seq<char>, y: Seq<char>)
    ensures
        modifier_scan(seq![cidr, "ge"@, x], 1, None, None) == match parse_unsigned(x, 255) {
            Some(g) => Ok((Some(g), None::<nat>)),
            None => Err("Invalid ge value: "@ + quoted(x)),
        },
        modifier_scan(seq![cidr, "le"@, x], 1, None, None) == match parse_unsigned(x, 255) {
            Some(l) => Ok((None::<nat>, Some(l))),
            None => Err("Invalid le value: "@ + quoted(x)),
        },
        (parse_unsigned(x, 255) is Some && parse_unsigned(y, 255) is Some) ==> modifier_scan(
            seq![cidr, "ge"@, x, "le"@, y],
            1,
            None,
            None,
        ) == Ok::<(Option<nat>, Option<nat>), Seq<char>>(
            (Some(parse_unsigned(x, 255)->0), Some(parse_unsigned(y, 255)->0)),
        ),
        (parse_unsigned(x, 255) is Some && parse_unsigned(y, 255) is Some) ==> modifier_scan(
            seq![cidr, "le"@, x, "le"@, y],
            1,
            None,
            None,
        ) == Ok::<(Option<nat>, Option<nat>), Seq<char>>(
            (None, Some(parse_unsigned(y, 255)->0)),
        ),
{
    reveal_strlit("ge");
    reveal_strlit("le");
    assert("ge"@ != "le"@) by {
        assert("ge"@[0] != "le"@[0]);
    }
    let s1 = seq![cidr, "ge"@, x];
    let s2 = seq![cidr, "le"@, x];
    let s3 = seq![cidr, "ge"@, x, "le"@, y];
    let s4 = seq![cidr, "le"@, x, "le"@, y];
    assert(s1[1] == "ge"@ && s1[2] == x);
    assert(s2[1] == "le"@ && s2[2] == x);
    if let Some(v) = parse_unsigned(x, 255) {
        assert(modifier_scan(s1, 3, Some(v), None) == Ok::<(Option<nat>, Option<nat>), Seq<char>>(
            (Some(v), None),
        ));
        assert(modifier_scan(s2, 3, None, Some(v)) == Ok::<(Option<nat>, Option<nat>), Seq<char>>(
            (None, Some(v)),
        ));
    }
    assert(s3[1] == "ge"@ && s3[2] == x && s3[3] == "le"@ && s3[4] == y);
    assert(s4[1] == "le"@ && s4[2] == x && s4[3] == "le"@ && s4[4] == y);
    if parse_unsigned(x, 255) is Some && parse_unsigned(y, 255) is Some {
        let g = parse_unsigned(x, 255)->0;
        let l = parse_unsigned(y, 255)->0;
        assert(modifier_scan(s3, 5, Some(g), Some(l)) == Ok::<(Option<nat>, Option<nat>), Seq<char>>(
            (Some(g), Some(l)),
        ));
        assert(modifier_scan(s3, 3, Some(g), None) == modifier_scan(s3, 5, Some(g), Some(l)));
        assert(modifier_scan(s4, 5, None, Some(l)) == Ok::<(Option<nat>, Option<nat>), Seq<char>>(
            (None, Some(l)),
        ));
        assert(modifier_scan(s4, 3, None, Some(g)) == modifier_scan(s4, 5, None, Some(l)));
    }
}

} // verus!

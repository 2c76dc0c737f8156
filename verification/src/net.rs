//! IP addresses as plain values: the textual grammar that `str::parse` reads
//! for `IpAddr`, `Ipv4Addr` and `Ipv6Addr`, and the text that `Display`
//! writes, both specified and verified here.

use vstd::prelude::*;

use crate::text::{
    append_chars, decimal, decimal_chars, digit_char, digits_value, is_ascii_digit,
    lemma_decimal_nonempty, lemma_decimal_roundtrip,
};

verus! {

/// An IPv4 or IPv6 address, by its octets or 16-bit segments.
#[derive(Clone, Copy, Debug, PartialEq, Eq, Structural)]
pub enum IpAddress {
    V4(u8, u8, u8, u8),
    V6(u16, u16, u16, u16, u16, u16, u16, u16),
}

// ─── Numbers ─────────────────────────────────────────────────────────────────

/// Value of `c` as a digit in base 10 or 16.
pub open spec fn digit_val(c: char, radix: nat) -> Option<nat> {
    let v = c as u32;
    if 48 <= v && v <= 57 {
        Some((v - 48) as nat)
    } else if radix == 16 && 97 <= v && v <= 102 {
        Some((v - 87) as nat)
    } else if radix == 16 && 65 <= v && v <= 70 {
        Some((v - 55) as nat)
    } else {
        None
    }
}

/// Number of consecutive digits starting at `pos`.
pub open spec fn run_len(s: Seq<char>, pos: int, radix: nat) -> nat
    decreases s.len() - pos,
{
    if 0 <= pos < s.len() && digit_val(s[pos], radix) is Some {
        1 + run_len(s, pos + 1, radix)
    } else {
        0
    }
}

/// Value of the `n` digits starting at `pos`.
pub open spec fn run_value(s: Seq<char>, pos: int, n: nat, radix: nat) -> nat
    decreases n,
{
    if n == 0 {
        0
    } else {
        run_value(s, pos, (n - 1) as nat, radix) * radix + digit_val(
            s[pos + n - 1],
            radix,
        )->0
    }
}

/// One number: all the digits that follow `pos`, at most `max_digits` of
/// them, with a value of at most `max`, and, unless `zero_prefix`, no
/// leading `0` before further digits. Gives the value and the next position.
pub open spec fn read_number(
    s: Seq<char>,
    pos: int,
    radix: nat,
    max_digits: nat,
    zero_prefix: bool,
    max: nat,
) -> Option<(nat, int)> {
    let n = run_len(s, pos, radix);
    if n == 0 || n > max_digits || run_value(s, pos, n, radix) > max || (!zero_prefix && s[pos]
        == '0' && n > 1) {
        None
    } else {
        Some((run_value(s, pos, n, radix), pos + n))
    }
}

pub open spec fn char_at(s: Seq<char>, pos: int, c: char) -> bool {
    0 <= pos < s.len() && s[pos] == c
}

/// A dotted IPv4 address starting at `pos`: its octets and the next position.
pub open spec fn read_ipv4(s: Seq<char>, pos: int) -> Option<(Seq<u8>, int)> {
    match read_number(s, pos, 10, 3, false, 255) {
        None => None,
        Some((a, p1)) => if !char_at(s, p1, '.') {
            None
        } else {
            match read_number(s, p1 + 1, 10, 3, false, 255) {
                None => None,
                Some((b, p2)) => if !char_at(s, p2, '.') {
                    None
                } else {
                    match read_number(s, p2 + 1, 10, 3, false, 255) {
                        None => None,
                        Some((c, p3)) => if !char_at(s, p3, '.') {
                            None
                        } else {
                            match read_number(s, p3 + 1, 10, 3, false, 255) {
                                None => None,
                                Some((d, p4)) => Some(
                                    (seq![a as u8, b as u8, c as u8, d as u8], p4),
                                ),
                            }
                        },
                    }
                },
            }
        },
    }
}

/// Position after the separator of group `i` (none before the first group).
pub open spec fn after_sep(s: Seq<char>, pos: int, i: nat) -> Option<int> {
    if i == 0 {
        Some(pos)
    } else if char_at(s, pos, ':') {
        Some(pos + 1)
    } else {
        None
    }
}

/// Colon-separated hexadecimal groups, from group `i` on, at most `limit` in
/// all, where a dotted IPv4 address may stand for the last two: the groups
/// read, whether an IPv4 address ended them, and the next position.
pub open spec fn read_groups(s: Seq<char>, pos: int, i: nat, limit: nat, acc: Seq<u16>) -> (
    Seq<u16>,
    bool,
    int,
)
    decreases limit - i,
{
    if i >= limit {
        (acc, false, pos)
    } else {
        let v4 = if i + 1 < limit {
            match after_sep(s, pos, i) {
                Some(p) => read_ipv4(s, p),
                None => None,
            }
        } else {
            None
        };
        match v4 {
            Some((o, p2)) => (
                acc + seq![(o[0] as u16 * 256 + o[1] as u16) as u16, (o[2] as u16 * 256 + o[3] as u16) as u16],
                true,
                p2,
            ),
            None => match after_sep(s, pos, i) {
                None => (acc, false, pos),
                Some(p) => match read_number(s, p, 16, 4, true, 0xffff) {
                    None => (acc, false, pos),
                    Some((g, p2)) => read_groups(s, p2, i + 1, limit, acc.push(g as u16)),
                },
            },
        }
    }
}

/// An IPv6 address starting at `pos`: its segments and the next position.
pub open spec fn read_ipv6(s: Seq<char>, pos: int) -> Option<(Seq<u16>, int)> {
    let (head, head_v4, p1) = read_groups(s, pos, 0, 8, seq![]);
    if head.len() == 8 {
        Some((head, p1))
    } else if head_v4 {
        None
    } else if !(char_at(s, p1, ':') && char_at(s, p1 + 1, ':')) {
        None
    } else {
        let limit = (8 - (head.len() + 1)) as nat;
        let (tail, _, p2) = read_groups(s, p1 + 2, 0, limit, seq![]);
        Some(
            (
                head + Seq::new((8 - head.len() - tail.len()) as nat, |k: int| 0u16) + tail,
                p2,
            ),
        )
    }
}

pub open spec fn v4_of(o: Seq<u8>) -> IpAddress {
    IpAddress::V4(o[0], o[1], o[2], o[3])
}

pub open spec fn v6_of(g: Seq<u16>) -> IpAddress {
    IpAddress::V6(g[0], g[1], g[2], g[3], g[4], g[5], g[6], g[7])
}

/// What `str::parse::<Ipv4Addr>()` accepts: the whole text is one address.
pub open spec fn parse_ipv4_text(s: Seq<char>) -> Option<IpAddress> {
    match read_ipv4(s, 0) {
        Some((o, p)) => if p == s.len() {
            Some(v4_of(o))
        } else {
            None
        },
        None => None,
    }
}

/// What `str::parse::<Ipv6Addr>()` accepts.
pub open spec fn parse_ipv6_text(s: Seq<char>) -> Option<IpAddress> {
    match read_ipv6(s, 0) {
        Some((g, p)) => if p == s.len() {
            Some(v6_of(g))
        } else {
            None
        },
        None => None,
    }
}

/// What `str::parse::<IpAddr>()` accepts: an IPv4 address is tried first; if
/// it reads but text is left over, the parse fails.
pub open spec fn parse_ip_text(s: Seq<char>) -> Option<IpAddress> {
    match read_ipv4(s, 0) {
        Some((o, p)) => if p == s.len() {
            Some(v4_of(o))
        } else {
            None
        },
        None => parse_ipv6_text(s),
    }
}


// ─── Executable parser ───────────────────────────────────────────────────────

fn digit_value(c: char, radix: u32) -> (r: Option<u32>)
    requires
        radix == 10 || radix == 16,
    ensures
        r matches Some(v) ==> digit_val(c, radix as nat) == Some(v as nat),
        r is None ==> digit_val(c, radix as nat) is None,
{
    let v = c as u32;
    if 48 <= v && v <= 57 {
        Some(v - 48)
    } else if radix == 16 && 97 <= v && v <= 102 {
        Some(v - 87)
    } else if radix == 16 && 65 <= v && v <= 70 {
        Some(v - 55)
    } else {
        None
    }
}

proof fn lemma_run_len_exact(s: Seq<char>, pos: int, n: int, radix: nat)
    requires
        0 <= pos,
        0 <= n,
        pos + n <= s.len(),
        forall|k: int| pos <= k < pos + n ==> digit_val(#[trigger] s[k], radix) is Some,
        pos + n < s.len() ==> digit_val(s[pos + n], radix) is None,
    ensures
        run_len(s, pos, radix) == n,
    decreases n,
{
    if n > 0 {
        lemma_run_len_exact(s, pos + 1, n - 1, radix);
    }
}

proof fn lemma_run_value_grows(s: Seq<char>, pos: int, n: nat, m: nat, radix: nat)
    requires
        n <= m,
        radix >= 1,
    ensures
        run_value(s, pos, n, radix) <= run_value(s, pos, m, radix),
    decreases m - n,
{
    if n < m {
        lemma_run_value_grows(s, pos, n, (m - 1) as nat, radix);
        let prev = run_value(s, pos, (m - 1) as nat, radix);
        assert(prev * radix >= prev) by (nonlinear_arith)
            requires
                radix >= 1,
        ;
    }
}

fn read_number_exec(
    s: &Vec<char>,
    pos: usize,
    radix: u32,
    max_digits: usize,
    zero_prefix: bool,
    max: u32,
) -> (r: Option<(u32, usize)>)
    requires
        pos <= s.len(),
        radix == 10 || radix == 16,
    ensures
        r matches Some((v, q)) ==> read_number(
            s@,
            pos as int,
            radix as nat,
            max_digits as nat,
            zero_prefix,
            max as nat,
        ) == Some((v as nat, q as int)),
        r is None ==> read_number(
            s@,
            pos as int,
            radix as nat,
            max_digits as nat,
            zero_prefix,
            max as nat,
        ) is None,
        r matches Some((v, q)) ==> q <= s.len(),
{
    let mut k: usize = pos;
    let mut val: u64 = 0;
    let mut big: bool = false;
    while k < s.len() && digit_value(s[k], radix).is_some()
        invariant
            pos <= k <= s.len(),
            radix == 10 || radix == 16,
            forall|j: int| pos <= j < k ==> digit_val(#[trigger] s@[j], radix as nat) is Some,
            !big ==> val as nat == run_value(s@, pos as int, (k - pos) as nat, radix as nat),
            !big ==> val <= max,
            big ==> run_value(s@, pos as int, (k - pos) as nat, radix as nat) > max,
        decreases s.len() - k,
    {
        let d = digit_value(s[k], radix).unwrap();
        proof {
            assert(run_value(s@, pos as int, (k + 1 - pos) as nat, radix as nat) == run_value(
                s@,
                pos as int,
                (k - pos) as nat,
                radix as nat,
            ) * radix + d);
        }
        if !big {
            let next: u64 = val * (radix as u64) + (d as u64);
            if next > max as u64 {
                big = true;
            } else {
                val = next;
            }
        } else {
            proof {
                let prev = run_value(s@, pos as int, (k - pos) as nat, radix as nat);
                assert(prev * radix + d >= prev) by (nonlinear_arith)
                    requires
                        radix >= 1,
                ;
            }
        }
        k = k + 1;
    }
    proof {
        lemma_run_len_exact(s@, pos as int, (k - pos) as int, radix as nat);
    }
    let n = k - pos;
    if n == 0 || n > max_digits || big || (!zero_prefix && s[pos] == '0' && n > 1) {
        None
    } else {
        Some((val as u32, k))
    }
}

fn char_at_exec(s: &Vec<char>, pos: usize, c: char) -> (r: bool)
    ensures
        r == char_at(s@, pos as int, c),
{
    pos < s.len() && s[pos] == c
}

fn read_ipv4_exec(s: &Vec<char>, pos: usize) -> (r: Option<([u8; 4], usize)>)
    requires
        pos <= s.len(),
    ensures
        r matches Some((o, q)) ==> read_ipv4(s@, pos as int) == Some((o@, q as int)),
        r is None ==> read_ipv4(s@, pos as int) is None,
        r matches Some((o, q)) ==> q <= s.len(),
{
    let (a, p1) = match read_number_exec(s, pos, 10, 3, false, 255) {
        Some(x) => x,
        None => return None,
    };
    if !char_at_exec(s, p1, '.') {
        return None;
    }
    let (b, p2) = match read_number_exec(s, p1 + 1, 10, 3, false, 255) {
        Some(x) => x,
        None => return None,
    };
    if !char_at_exec(s, p2, '.') {
        return None;
    }
    let (c, p3) = match read_number_exec(s, p2 + 1, 10, 3, false, 255) {
        Some(x) => x,
        None => return None,
    };
    if !char_at_exec(s, p3, '.') {
        return None;
    }
    let (d, p4) = match read_number_exec(s, p3 + 1, 10, 3, false, 255) {
        Some(x) => x,
        None => return None,
    };
    let o: [u8; 4] = [a as u8, b as u8, c as u8, d as u8];
    assert(o@ =~= seq![a as u8, b as u8, c as u8, d as u8]);
    Some((o, p4))
}

fn after_sep_exec(s: &Vec<char>, pos: usize, i: usize) -> (r: Option<usize>)
    requires
        pos <= s.len(),
    ensures
        r matches Some(q) ==> after_sep(s@, pos as int, i as nat) == Some(q as int) && q <= s.len(),
        r is None ==> after_sep(s@, pos as int, i as nat) is None,
{
    if i == 0 {
        Some(pos)
    } else if char_at_exec(s, pos, ':') {
        Some(pos + 1)
    } else {
        None
    }
}

fn read_groups_exec(s: &Vec<char>, pos: usize, limit: usize) -> (r: (Vec<u16>, bool, usize))
    requires
        pos <= s.len(),
        limit <= 8,
    ensures
        read_groups(s@, pos as int, 0, limit as nat, seq![]) == (r.0@, r.1, r.2 as int),
        r.0.len() <= limit,
        r.2 <= s.len(),
{
    let mut acc: Vec<u16> = Vec::new();
    let mut i: usize = 0;
    let mut p: usize = pos;
    while i < limit
        invariant
            i <= limit <= 8,
            p <= s.len(),
            acc.len() == i,
            read_groups(s@, pos as int, 0, limit as nat, seq![]) == read_groups(
                s@,
                p as int,
                i as nat,
                limit as nat,
                acc@,
            ),
        decreases limit - i,
    {
        let v4 = if i + 1 < limit {
            match after_sep_exec(s, p, i) {
                Some(q) => read_ipv4_exec(s, q),
                None => None,
            }
        } else {
            None
        };
        match v4 {
            Some((o, p2)) => {
                let ghost before = acc@;
                acc.push((o[0] as u16) * 256 + (o[1] as u16));
                acc.push((o[2] as u16) * 256 + (o[3] as u16));
                assert(acc@ =~= before + seq![(o[0] as u16 * 256 + o[1] as u16) as u16, (o[2] as u16 * 256 + o[3] as u16) as u16]);
                return (acc, true, p2);
            },
            None => {},
        }
        match after_sep_exec(s, p, i) {
            None => {
                return (acc, false, p);
            },
            Some(q) => match read_number_exec(s, q, 16, 4, true, 0xffff) {
                None => {
                    return (acc, false, p);
                },
                Some((g, p2)) => {
                    acc.push(g as u16);
                    p = p2;
                    i = i + 1;
                },
            },
        }
    }
    (acc, false, p)
}

fn read_ipv6_exec(s: &Vec<char>, pos: usize) -> (r: Option<(IpAddress, usize)>)
    requires
        pos <= s.len(),
    ensures
        r matches Some((a, q)) ==> read_ipv6(s@, pos as int) matches Some((g, q2)) && a == v6_of(
            g,
        ) && q2 == q,
        r is None ==> read_ipv6(s@, pos as int) is None,
{
    let (head, head_v4, p1) = read_groups_exec(s, pos, 8);
    let mut g: Vec<u16> = Vec::new();
    let mut k: usize = 0;
    if head.len() == 8 {
        let a = IpAddress::V6(head[0], head[1], head[2], head[3], head[4], head[5], head[6], head[7]);
        return Some((a, p1));
    }
    if head_v4 {
        return None;
    }
    if !(char_at_exec(s, p1, ':') && char_at_exec(s, p1 + 1, ':')) {
        return None;
    }
    let limit: usize = 8 - (head.len() + 1);
    let (tail, _tv4, p2) = read_groups_exec(s, p1 + 2, limit);
    let zeros: usize = 8 - head.len() - tail.len();
    while k < head.len()
        invariant
            k <= head.len(),
            g@ =~= head@.take(k as int),
        decreases head.len() - k,
    {
        g.push(head[k]);
        k = k + 1;
    }
    let mut z: usize = 0;
    while z < zeros
        invariant
            z <= zeros,
            k == head.len(),
            g@ =~= head@ + Seq::new(z as nat, |j: int| 0u16),
        decreases zeros - z,
    {
        g.push(0);
        z = z + 1;
    }
    let mut t: usize = 0;
    while t < tail.len()
        invariant
            t <= tail.len(),
            g@ =~= head@ + Seq::new(zeros as nat, |j: int| 0u16) + tail@.take(t as int),
        decreases tail.len() - t,
    {
        g.push(tail[t]);
        t = t + 1;
    }
    assert(tail@.take(tail.len() as int) =~= tail@);
    assert(g.len() == 8);
    let a = IpAddress::V6(g[0], g[1], g[2], g[3], g[4], g[5], g[6], g[7]);
    Some((a, p2))
}

/// `str::parse::<IpAddr>()`.
pub fn parse_ip(s: &Vec<char>) -> (r: Option<IpAddress>)
    ensures
        r == parse_ip_text(s@),
{
    match read_ipv4_exec(s, 0) {
        Some((o, p)) => if p == s.len() {
            Some(IpAddress::V4(o[0], o[1], o[2], o[3]))
        } else {
            None
        },
        None => parse_ipv6(s),
    }
}

/// `str::parse::<Ipv4Addr>()`.
pub fn parse_ipv4(s: &Vec<char>) -> (r: Option<IpAddress>)
    ensures
        r == parse_ipv4_text(s@),
{
    match read_ipv4_exec(s, 0) {
        Some((o, p)) => if p == s.len() {
            Some(IpAddress::V4(o[0], o[1], o[2], o[3]))
        } else {
            None
        },
        None => None,
    }
}

/// `str::parse::<Ipv6Addr>()`.
pub fn parse_ipv6(s: &Vec<char>) -> (r: Option<IpAddress>)
    ensures
        r == parse_ipv6_text(s@),
{
    match read_ipv6_exec(s, 0) {
        Some((a, p)) => if p == s.len() {
            Some(a)
        } else {
            None
        },
        None => None,
    }
}


// ─── Display ─────────────────────────────────────────────────────────────────

pub open spec fn hex_digit(d: nat) -> char {
    if d < 10 {
        digit_char(d)
    } else if d == 10 {
        'a'
    } else if d == 11 {
        'b'
    } else if d == 12 {
        'c'
    } else if d == 13 {
        'd'
    } else if d == 14 {
        'e'
    } else {
        'f'
    }
}

/// Lower-case hexadecimal rendering (`{:x}`).
pub open spec fn hex(n: nat) -> Seq<char>
    decreases n,
{
    if n < 16 {
        seq![hex_digit(n)]
    } else {
        hex(n / 16).push(hex_digit(n % 16))
    }
}

/// Groups in hexadecimal separated by `:`.
pub open spec fn hex_join(g: Seq<u16>) -> Seq<char>
    decreases g.len(),
{
    if g.len() == 0 {
        seq![]
    } else if g.len() == 1 {
        hex(g[0] as nat)
    } else {
        hex_join(g.drop_last()) + seq![':'] + hex(g.last() as nat)
    }
}

/// The first longest run of zero groups, from group `i` on: its start and
/// length.
pub open spec fn zero_scan(g: Seq<u16>, i: int, bs: int, bl: int, cs: int, cl: int) -> (int, int)
    decreases g.len() - i,
{
    if i >= g.len() || i < 0 {
        (bs, bl)
    } else if g[i] == 0 {
        let s2 = if cl == 0 {
            i
        } else {
            cs
        };
        if cl + 1 > bl {
            zero_scan(g, i + 1, s2, cl + 1, s2, cl + 1)
        } else {
            zero_scan(g, i + 1, bs, bl, s2, cl + 1)
        }
    } else {
        zero_scan(g, i + 1, bs, bl, 0, 0)
    }
}

pub open spec fn ipv4_text(a: u8, b: u8, c: u8, d: u8) -> Seq<char> {
    decimal(a as nat) + seq!['.'] + decimal(b as nat) + seq!['.'] + decimal(c as nat) + seq!['.']
        + decimal(d as nat)
}

/// What `Display` of an IPv6 address writes: IPv4-mapped addresses as
/// `::ffff:a.b.c.d`, otherwise the first longest run of two or more zero
/// groups shortened to `::`.
pub open spec fn ipv6_text(g: Seq<u16>) -> Seq<char> {
    if g[0] == 0 && g[1] == 0 && g[2] == 0 && g[3] == 0 && g[4] == 0 && g[5] == 0xffff {
        "::ffff:"@ + ipv4_text(
            (g[6] / 256) as u8,
            (g[6] % 256) as u8,
            (g[7] / 256) as u8,
            (g[7] % 256) as u8,
        )
    } else {
        let (st, len) = zero_scan(g, 0, 0, 0, 0, 0);
        if len > 1 {
            hex_join(g.take(st)) + "::"@ + hex_join(g.skip(st + len))
        } else {
            hex_join(g)
        }
    }
}

/// What `ToString` on an address gives.
pub open spec fn ip_text(ip: IpAddress) -> Seq<char> {
    match ip {
        IpAddress::V4(a, b, c, d) => ipv4_text(a, b, c, d),
        IpAddress::V6(s0, s1, s2, s3, s4, s5, s6, s7) => ipv6_text(
            seq![s0, s1, s2, s3, s4, s5, s6, s7],
        ),
    }
}

pub open spec fn is_v6(ip: IpAddress) -> bool {
    ip is V6
}

/// The address `0.0.0.0`.
pub open spec fn unspecified_v4() -> IpAddress {
    IpAddress::V4(0, 0, 0, 0)
}

fn hex_digit_of(d: u16) -> (c: char)
    requires
        d < 16,
    ensures
        c == hex_digit(d as nat),
{
    if d < 10 {
        if d == 0 {
            '0'
        } else if d == 1 {
            '1'
        } else if d == 2 {
            '2'
        } else if d == 3 {
            '3'
        } else if d == 4 {
            '4'
        } else if d == 5 {
            '5'
        } else if d == 6 {
            '6'
        } else if d == 7 {
            '7'
        } else if d == 8 {
            '8'
        } else {
            '9'
        }
    } else if d == 10 {
        'a'
    } else if d == 11 {
        'b'
    } else if d == 12 {
        'c'
    } else if d == 13 {
        'd'
    } else if d == 14 {
        'e'
    } else {
        'f'
    }
}

fn hex_chars(n: u16) -> (r: Vec<char>)
    ensures
        r@ == hex(n as nat),
    decreases n,
{
    if n < 16 {
        let mut v: Vec<char> = Vec::new();
        v.push(hex_digit_of(n));
        v
    } else {
        let mut v = hex_chars(n / 16);
        v.push(hex_digit_of(n % 16));
        v
    }
}

fn hex_join_exec(g: &Vec<u16>, from: usize, to: usize) -> (r: Vec<char>)
    requires
        from <= to <= g.len(),
    ensures
        r@ == hex_join(g@.subrange(from as int, to as int)),
{
    let mut out: Vec<char> = Vec::new();
    let mut i: usize = from;
    while i < to
        invariant
            from <= i <= to <= g.len(),
            out@ == hex_join(g@.subrange(from as int, i as int)),
        decreases to - i,
    {
        let ghost before = out@;
        if i > from {
            out.push(':');
        }
        append_chars(&mut out, hex_chars(g[i]));
        i = i + 1;
        proof {
            let t = g@.subrange(from as int, i as int);
            assert(t.drop_last() =~= g@.subrange(from as int, i - 1));
            if i == from + 1 {
                assert(before =~= Seq::<char>::empty());
                assert(out@ =~= hex(t[0] as nat));
            } else {
                assert(out@ =~= before + seq![':'] + hex(t.last() as nat));
            }
        }
    }
    out
}

fn ipv4_chars(a: u8, b: u8, c: u8, d: u8) -> (r: Vec<char>)
    ensures
        r@ == ipv4_text(a, b, c, d),
{
    let mut v = decimal_chars(a as u64);
    v.push('.');
    append_chars(&mut v, decimal_chars(b as u64));
    v.push('.');
    append_chars(&mut v, decimal_chars(c as u64));
    v.push('.');
    append_chars(&mut v, decimal_chars(d as u64));
    assert(v@ =~= ipv4_text(a, b, c, d));
    v
}

fn ipv6_chars(g: &Vec<u16>) -> (r: Vec<char>)
    requires
        g.len() == 8,
    ensures
        r@ == ipv6_text(g@),
{
    if g[0] == 0 && g[1] == 0 && g[2] == 0 && g[3] == 0 && g[4] == 0 && g[5] == 0xffff {
        let mut v = crate::text::chars_of("::ffff:");
        append_chars(
            &mut v,
            ipv4_chars((g[6] / 256) as u8, (g[6] % 256) as u8, (g[7] / 256) as u8, (g[7] % 256) as u8),
        );
        return v;
    }
    let mut bs: usize = 0;
    let mut bl: usize = 0;
    let mut cs: usize = 0;
    let mut cl: usize = 0;
    let mut i: usize = 0;
    while i < 8
        invariant
            i <= 8,
            g.len() == 8,
            bl <= i,
            cl <= i,
            bs + bl <= i,
            cl > 0 ==> cs + cl == i,
            zero_scan(g@, 0, 0, 0, 0, 0) == zero_scan(
                g@,
                i as int,
                bs as int,
                bl as int,
                cs as int,
                cl as int,
            ),
        decreases 8 - i,
    {
        if g[i] == 0 {
            let s2 = if cl == 0 {
                i
            } else {
                cs
            };
            if cl + 1 > bl {
                bs = s2;
                bl = cl + 1;
            }
            cs = s2;
            cl = cl + 1;
        } else {
            cs = 0;
            cl = 0;
        }
        i = i + 1;
    }
    if bl > 1 {
        let mut v = hex_join_exec(g, 0, bs);
        append_chars(&mut v, crate::text::chars_of("::"));
        append_chars(&mut v, hex_join_exec(g, bs + bl, 8));
        proof {
            assert(g@.subrange(0, bs as int) =~= g@.take(bs as int));
            assert(g@.subrange(bs + bl, 8) =~= g@.skip(bs + bl));
            assert(v@ =~= hex_join(g@.take(bs as int)) + "::"@ + hex_join(g@.skip(bs + bl)));
        }
        v
    } else {
        let v = hex_join_exec(g, 0, 8);
        assert(g@.subrange(0, 8) =~= g@);
        v
    }
}

impl IpAddress {
    /// `ToString` on the address, as characters.
    pub fn text(&self) -> (r: Vec<char>)
        ensures
            r@ == ip_text(*self),
    {
        match self {
            IpAddress::V4(a, b, c, d) => ipv4_chars(*a, *b, *c, *d),
            IpAddress::V6(s0, s1, s2, s3, s4, s5, s6, s7) => {
                let mut g: Vec<u16> = Vec::new();
                g.push(*s0);
                g.push(*s1);
                g.push(*s2);
                g.push(*s3);
                g.push(*s4);
                g.push(*s5);
                g.push(*s6);
                g.push(*s7);
                assert(g@ =~= seq![*s0, *s1, *s2, *s3, *s4, *s5, *s6, *s7]);
                ipv6_chars(&g)
            },
        }
    }

    pub fn is_ipv6(&self) -> (r: bool)
        ensures
            r == is_v6(*self),
    {
        match self {
            IpAddress::V4(..) => false,
            IpAddress::V6(..) => true,
        }
    }
}

// ─── Display, then parse ─────────────────────────────────────────────────────

/// Decimal digits read as a run: the run's value is the digits' value.
proof fn lemma_run_value_digits(s: Seq<char>, pos: int, k: int)
    requires
        0 <= pos,
        0 <= k,
        pos + k <= s.len(),
        forall|j: int| pos <= j < pos + k ==> is_ascii_digit(#[trigger] s[j]),
    ensures
        run_value(s, pos, k as nat, 10) == digits_value(s.subrange(pos, pos + k)),
    decreases k,
{
    if k > 0 {
        lemma_run_value_digits(s, pos, k - 1);
        let t = s.subrange(pos, pos + k);
        assert(t.drop_last() =~= s.subrange(pos, pos + k - 1));
        assert(t.last() == s[pos + k - 1]);
        assert(is_ascii_digit(s[pos + k - 1]));
    }
}

/// The decimal rendering of a byte has at most three digits, and starts
/// with `0` only for 0 itself.
proof fn lemma_decimal_byte(n: nat)
    requires
        n <= 255,
    ensures
        1 <= decimal(n).len() <= 3,
        decimal(n)[0] == '0' ==> n == 0,
        decimal(n).len() > 1 ==> n >= 10,
{
    reveal_with_fuel(decimal, 3);
    if n >= 100 {
        assert(decimal(n / 10) == decimal(n / 10 / 10).push(digit_char(n / 10 % 10)));
        assert(decimal(n / 10 / 10) == seq![digit_char(n / 10 / 10)]);
        assert(decimal(n)[0] == digit_char(n / 10 / 10));
    } else if n >= 10 {
        assert(decimal(n / 10) == seq![digit_char(n / 10)]);
        assert(decimal(n)[0] == digit_char(n / 10));
    }
}

/// The number read at `pos` where the decimal rendering of a byte stands,
/// followed by a non-digit or the end of the text.
proof fn lemma_read_byte(s: Seq<char>, pos: int, n: nat)
    requires
        n <= 255,
        0 <= pos,
        pos + decimal(n).len() <= s.len(),
        s.subrange(pos, pos + decimal(n).len() as int) == decimal(n),
        pos + decimal(n).len() < s.len() ==> digit_val(s[pos + decimal(n).len()], 10) is None,
    ensures
        read_number(s, pos, 10, 3, false, 255) == Some((n, pos + decimal(n).len())),
{
    let d = decimal(n);
    let len = d.len() as int;
    lemma_decimal_nonempty(n);
    lemma_decimal_roundtrip(n);
    lemma_decimal_byte(n);
    assert forall|k: int| pos <= k < pos + len implies is_ascii_digit(#[trigger] s[k]) by {
        assert(s[k] == s.subrange(pos, pos + len)[k - pos]);
        assert(is_ascii_digit(d[k - pos]));
    }
    assert forall|k: int| pos <= k < pos + len implies digit_val(#[trigger] s[k], 10) is Some by {
        assert(is_ascii_digit(s[k]));
    }
    lemma_run_len_exact(s, pos, len, 10);
    lemma_run_value_digits(s, pos, len);
    assert(s[pos] == d[0]);
}

/// A dotted address read where `Display`'s text for it stands, followed by
/// a non-digit or the end of the text.
proof fn lemma_read_ipv4_at(s: Seq<char>, pos: int, a: u8, b: u8, c: u8, d: u8)
    requires
        0 <= pos,
        pos + ipv4_text(a, b, c, d).len() <= s.len(),
        s.subrange(pos, pos + ipv4_text(a, b, c, d).len()) == ipv4_text(a, b, c, d),
        pos + ipv4_text(a, b, c, d).len() < s.len() ==> digit_val(
            s[pos + ipv4_text(a, b, c, d).len()],
            10,
        ) is None,
    ensures
        read_ipv4(s, pos) == Some((seq![a, b, c, d], pos + ipv4_text(a, b, c, d).len())),
{
    let da = decimal(a as nat);
    let db = decimal(b as nat);
    let dc = decimal(c as nat);
    let dd = decimal(d as nat);
    let t = ipv4_text(a, b, c, d);
    lemma_decimal_byte(a as nat);
    lemma_decimal_byte(b as nat);
    lemma_decimal_byte(c as nat);
    lemma_decimal_byte(d as nat);
    let p1 = pos + da.len();
    let p2 = p1 + 1 + db.len();
    let p3 = p2 + 1 + dc.len();
    let p4 = p3 + 1 + dd.len();
    assert(t =~= da + seq!['.'] + db + seq!['.'] + dc + seq!['.'] + dd);
    assert(pos + t.len() == p4);
    let w = s.subrange(pos, p4);
    assert(s.subrange(pos, p1) =~= w.subrange(0, p1 - pos));
    assert(w.subrange(0, p1 - pos) =~= da);
    assert(s[p1] == w[p1 - pos]);
    assert(s.subrange(p1 + 1, p2) =~= w.subrange(p1 + 1 - pos, p2 - pos));
    assert(w.subrange(p1 + 1 - pos, p2 - pos) =~= db);
    assert(s[p2] == w[p2 - pos]);
    assert(s.subrange(p2 + 1, p3) =~= w.subrange(p2 + 1 - pos, p3 - pos));
    assert(w.subrange(p2 + 1 - pos, p3 - pos) =~= dc);
    assert(s[p3] == w[p3 - pos]);
    assert(s.subrange(p3 + 1, p4) =~= w.subrange(p3 + 1 - pos, p4 - pos));
    assert(w.subrange(p3 + 1 - pos, p4 - pos) =~= dd);
    lemma_read_byte(s, pos, a as nat);
    lemma_read_byte(s, p1 + 1, b as nat);
    lemma_read_byte(s, p2 + 1, c as nat);
    lemma_read_byte(s, p3 + 1, d as nat);
}

/// The text `Display` writes for an IPv4 address parses back to it.
pub proof fn law_ipv4_text_parses(a: u8, b: u8, c: u8, d: u8)
    ensures
        parse_ip_text(ipv4_text(a, b, c, d)) == Some(IpAddress::V4(a, b, c, d)),
{
    let s = ipv4_text(a, b, c, d);
    assert(s.subrange(0, s.len() as int) =~= s);
    lemma_read_ipv4_at(s, 0, a, b, c, d);
}

/// A hexadecimal digit reads back as its value.
proof fn lemma_hex_digit_val(d: nat)
    requires
        d < 16,
    ensures
        digit_val(hex_digit(d), 16) == Some(d),
        hex_digit(d) != '.',
        hex_digit(d) != ':',
{
}

/// The characters of `hex(n)`: hexadecimal digits, so neither `.` nor `:`.
proof fn lemma_hex_chars(n: nat)
    ensures
        hex(n).len() >= 1,
        forall|k: int| 0 <= k < hex(n).len() ==> digit_val(#[trigger] hex(n)[k], 16) is Some
            && hex(n)[k] != '.' && hex(n)[k] != ':',
    decreases n,
{
    lemma_hex_digit_val(n % 16);
    if n >= 16 {
        lemma_hex_chars(n / 16);
        assert forall|k: int| 0 <= k < hex(n).len() implies digit_val(#[trigger] hex(n)[k], 16)
            is Some && hex(n)[k] != '.' && hex(n)[k] != ':' by {
            if k < hex(n / 16).len() {
                assert(hex(n)[k] == hex(n / 16)[k]);
            }
        }
    } else {
        lemma_hex_digit_val(n);
    }
}

/// A segment's hexadecimal rendering has at most four digits.
proof fn lemma_hex_len(n: nat)
    requires
        n <= 0xffff,
    ensures
        hex(n).len() <= 4,
{
    if n >= 16 {
        assert(pow16(3) == 4096) by {
            reveal_with_fuel(pow16, 4);
        }
        lemma_hex_len_below(n / 16, 3);
    }
}

proof fn lemma_hex_len_below(n: nat, k: nat)
    requires
        n < pow16(k),
    ensures
        hex(n).len() <= k || (k == 0 && hex(n).len() == 1),
    decreases k,
{
    if k > 0 && n >= 16 {
        assert(n / 16 < pow16((k - 1) as nat));
        lemma_hex_len_below(n / 16, (k - 1) as nat);
    }
}

spec fn pow16(k: nat) -> nat
    decreases k,
{
    if k == 0 {
        1
    } else {
        16 * pow16((k - 1) as nat)
    }
}

/// The digits of `hex(n)` read as a run give `n`.
proof fn lemma_hex_run(s: Seq<char>, pos: int, n: nat)
    requires
        0 <= pos,
        pos + hex(n).len() <= s.len(),
        s.subrange(pos, pos + hex(n).len() as int) == hex(n),
    ensures
        run_value(s, pos, hex(n).len(), 16) == n,
    decreases n,
{
    lemma_hex_digit_val(n % 16);
    if n >= 16 {
        let m = n / 16;
        lemma_hex_chars(m);
        let k = hex(m).len() as int;
        assert(s.subrange(pos, pos + k) =~= s.subrange(pos, pos + hex(n).len() as int).take(k));
        assert(hex(n).take(k) =~= hex(m));
        lemma_hex_run(s, pos, m);
        assert(hex(n) == hex(m).push(hex_digit(n % 16)));
        assert(hex(n).len() == k + 1);
        assert(s[pos + k] == s.subrange(pos, pos + hex(n).len() as int)[k]);
        assert(s[pos + k] == hex_digit(n % 16));
        assert(run_value(s, pos, (k + 1) as nat, 16) == run_value(s, pos, k as nat, 16) * 16
            + digit_val(s[pos + k], 16)->0);
        assert(m * 16 + n % 16 == n);
    } else {
        assert(s[pos] == s.subrange(pos, pos + 1)[0]);
        lemma_hex_digit_val(n);
        assert(hex(n).len() == 1);
        assert(run_value(s, pos, 1, 16) == run_value(s, pos, 0, 16) * 16 + digit_val(s[pos], 16)->0);
    }
}

/// The segment read at `pos` where `hex(n)` stands, followed by a
/// non-digit or the end of the text.
proof fn lemma_read_hex(s: Seq<char>, pos: int, n: nat)
    requires
        n <= 0xffff,
        0 <= pos,
        pos + hex(n).len() <= s.len(),
        s.subrange(pos, pos + hex(n).len() as int) == hex(n),
        pos + hex(n).len() < s.len() ==> digit_val(s[pos + hex(n).len()], 16) is None,
    ensures
        read_number(s, pos, 16, 4, true, 0xffff) == Some((n, pos + hex(n).len())),
{
    lemma_hex_chars(n);
    lemma_hex_len(n);
    let k = hex(n).len() as int;
    assert forall|j: int| pos <= j < pos + k implies digit_val(#[trigger] s[j], 16) is Some by {
        assert(s[j] == s.subrange(pos, pos + k)[j - pos]);
    }
    lemma_run_len_exact(s, pos, k, 16);
    lemma_hex_run(s, pos, n);
}

/// Segments each preceded by `:`.
pub open spec fn sep_join(g: Seq<u16>) -> Seq<char>
    decreases g.len(),
{
    if g.len() == 0 {
        seq![]
    } else {
        seq![':'] + hex(g[0] as nat) + sep_join(g.drop_first())
    }
}

proof fn lemma_sep_join_push(g: Seq<u16>, x: u16)
    ensures
        sep_join(g.push(x)) == sep_join(g) + seq![':'] + hex(x as nat),
    decreases g.len(),
{
    if g.len() > 0 {
        lemma_sep_join_push(g.drop_first(), x);
        assert(g.push(x).drop_first() =~= g.drop_first().push(x));
        assert(g.push(x)[0] == g[0]);
        assert(sep_join(g.push(x)) =~= sep_join(g) + seq![':'] + hex(x as nat));
    } else {
        let e = g.push(x).drop_first();
        assert(e.len() == 0);
        assert(sep_join(e) =~= Seq::<char>::empty());
        assert(g.push(x)[0] == x);
        assert(sep_join(g) =~= Seq::<char>::empty());
        assert(sep_join(g.push(x)) == seq![':'] + hex(x as nat) + sep_join(e));
        assert(sep_join(g.push(x)) =~= sep_join(g) + seq![':'] + hex(x as nat));
    }
}

/// `hex_join` of a non-empty list: the first segment, then the others each
/// after a `:`.
proof fn lemma_hex_join_front(g: Seq<u16>)
    requires
        g.len() > 0,
    ensures
        hex_join(g) == hex(g[0] as nat) + sep_join(g.drop_first()),
    decreases g.len(),
{
    if g.len() == 1 {
        assert(g.drop_first() =~= Seq::<u16>::empty());
    } else {
        lemma_hex_join_front(g.drop_last());
        assert(g.drop_last().drop_first().push(g.last()) =~= g.drop_first());
        lemma_sep_join_push(g.drop_last().drop_first(), g.last());
    }
}

/// No `.` in segments joined by `:`.
proof fn lemma_sep_join_chars(g: Seq<u16>)
    ensures
        forall|k: int| 0 <= k < sep_join(g).len() ==> #[trigger] sep_join(g)[k] != '.',
    decreases g.len(),
{
    if g.len() > 0 {
        lemma_sep_join_chars(g.drop_first());
        lemma_hex_chars(g[0] as nat);
        let h = hex(g[0] as nat);
        assert forall|k: int| 0 <= k < sep_join(g).len() implies #[trigger] sep_join(g)[k] != '.' by {
            if k >= 1 && k < 1 + h.len() {
                assert(sep_join(g)[k] == h[k - 1]);
            } else if k >= 1 + h.len() {
                assert(sep_join(g)[k] == sep_join(g.drop_first())[k - 1 - h.len()]);
            }
        }
    }
}

/// Without a `.` in the text, no dotted IPv4 address reads anywhere.
proof fn lemma_no_dot_no_v4(s: Seq<char>, pos: int)
    requires
        forall|k: int| 0 <= k < s.len() ==> #[trigger] s[k] != '.',
    ensures
        read_ipv4(s, pos) is None,
{
}

/// Where reading segments stops: the end of the text, or a `::`.
pub open spec fn group_stop(s: Seq<char>, q: int) -> bool {
    q == s.len() || (0 <= q && q + 1 < s.len() && s[q] == ':' && s[q + 1] == ':')
}

/// Reading segments that each follow a `:`, from group `i` on: all of `gs`
/// are read, and reading stops at the end or at a `::`.
proof fn lemma_read_sep_groups(
    s: Seq<char>,
    pos: int,
    i: nat,
    limit: nat,
    acc: Seq<u16>,
    gs: Seq<u16>,
)
    requires
        i > 0,
        i + gs.len() <= limit,
        0 <= pos,
        pos + sep_join(gs).len() <= s.len(),
        s.subrange(pos, pos + sep_join(gs).len() as int) == sep_join(gs),
        forall|k: int| 0 <= k < s.len() ==> #[trigger] s[k] != '.',
        group_stop(s, pos + sep_join(gs).len()),
    ensures
        read_groups(s, pos, i, limit, acc) == (acc + gs, false, pos + sep_join(gs).len()),
    decreases gs.len(),
{
    if gs.len() == 0 {
        assert(acc + gs =~= acc);
        if pos < s.len() {
            lemma_no_dot_no_v4(s, pos + 1);
        }
    } else {
        let g0 = gs[0];
        let h = hex(g0 as nat);
        let rest = gs.drop_first();
        lemma_hex_chars(g0 as nat);
        let w = s.subrange(pos, pos + sep_join(gs).len() as int);
        assert(sep_join(gs) == seq![':'] + h + sep_join(rest));
        assert(s[pos] == w[0]);
        assert(s.subrange(pos + 1, pos + 1 + h.len()) =~= w.subrange(1, 1 + h.len() as int));
        assert(w.subrange(1, 1 + h.len() as int) =~= h);
        let q = pos + 1 + h.len();
        assert(s.subrange(q, q + sep_join(rest).len()) =~= w.subrange(
            1 + h.len() as int,
            sep_join(gs).len() as int,
        ));
        assert(w.subrange(1 + h.len() as int, sep_join(gs).len() as int) =~= sep_join(rest));
        if q < s.len() {
            if rest.len() > 0 {
                assert(sep_join(rest)[0] == ':');
                assert(s[q] == s.subrange(q, q + sep_join(rest).len())[0]);
            }
            assert(s[q] == ':');
        }
        lemma_no_dot_no_v4(s, pos + 1);
        lemma_read_hex(s, pos + 1, g0 as nat);
        lemma_read_sep_groups(s, q, i + 1, limit, acc.push(g0), rest);
        assert(acc.push(g0) + rest =~= acc + gs);
    }
}

/// Reading `:`-joined segments from group 0 on: all of them are read.
proof fn lemma_read_joined(s: Seq<char>, pos: int, limit: nat, gs: Seq<u16>)
    requires
        1 <= gs.len() <= limit,
        0 <= pos,
        pos + hex_join(gs).len() <= s.len(),
        s.subrange(pos, pos + hex_join(gs).len() as int) == hex_join(gs),
        forall|k: int| 0 <= k < s.len() ==> #[trigger] s[k] != '.',
        group_stop(s, pos + hex_join(gs).len()),
    ensures
        read_groups(s, pos, 0, limit, seq![]) == (gs, false, pos + hex_join(gs).len()),
{
    lemma_hex_join_front(gs);
    let g0 = gs[0];
    let h = hex(g0 as nat);
    let rest = gs.drop_first();
    lemma_hex_chars(g0 as nat);
    let w = s.subrange(pos, pos + hex_join(gs).len() as int);
    assert(s.subrange(pos, pos + h.len()) =~= w.subrange(0, h.len() as int));
    assert(w.subrange(0, h.len() as int) =~= h);
    let q = pos + h.len();
    assert(s.subrange(q, q + sep_join(rest).len()) =~= w.subrange(
        h.len() as int,
        hex_join(gs).len() as int,
    ));
    assert(w.subrange(h.len() as int, hex_join(gs).len() as int) =~= sep_join(rest));
    if q < s.len() {
        if rest.len() > 0 {
            assert(sep_join(rest)[0] == ':');
            assert(s[q] == s.subrange(q, q + sep_join(rest).len())[0]);
        }
        assert(s[q] == ':');
    }
    lemma_no_dot_no_v4(s, pos);
    lemma_read_hex(s, pos, g0 as nat);
    lemma_read_sep_groups(s, q, 1, limit, seq![g0], rest);
    assert(seq![g0] + rest =~= gs);
}

/// No `.` in `:`-joined segments.
proof fn lemma_hex_join_chars(g: Seq<u16>)
    ensures
        forall|k: int| 0 <= k < hex_join(g).len() ==> #[trigger] hex_join(g)[k] != '.',
{
    if g.len() > 0 {
        lemma_hex_join_front(g);
        lemma_hex_chars(g[0] as nat);
        lemma_sep_join_chars(g.drop_first());
        let h = hex(g[0] as nat);
        assert forall|k: int| 0 <= k < hex_join(g).len() implies #[trigger] hex_join(g)[k] != '.' by {
            if k < h.len() {
                assert(hex_join(g)[k] == h[k]);
            } else {
                assert(hex_join(g)[k] == sep_join(g.drop_first())[k - h.len()]);
            }
        }
    }
}

/// The run that `zero_scan` reports lies inside the segments and is all zeros.
proof fn lemma_zero_scan(g: Seq<u16>, i: int, bs: int, bl: int, cs: int, cl: int)
    requires
        0 <= i <= g.len(),
        0 <= bs,
        0 <= bl,
        bs + bl <= i,
        forall|k: int| bs <= k < bs + bl ==> #[trigger] g[k] == 0,
        0 <= cl,
        0 <= cs,
        cl > 0 ==> cs + cl == i,
        forall|k: int| cs <= k < cs + cl ==> #[trigger] g[k] == 0,
    ensures
        0 <= zero_scan(g, i, bs, bl, cs, cl).0,
        0 <= zero_scan(g, i, bs, bl, cs, cl).1,
        zero_scan(g, i, bs, bl, cs, cl).0 + zero_scan(g, i, bs, bl, cs, cl).1 <= g.len(),
        forall|k: int|
            zero_scan(g, i, bs, bl, cs, cl).0 <= k < zero_scan(g, i, bs, bl, cs, cl).0
                + zero_scan(g, i, bs, bl, cs, cl).1 ==> #[trigger] g[k] == 0,
    decreases g.len() - i,
{
    if i < g.len() {
        if g[i] == 0 {
            let s2 = if cl == 0 {
                i
            } else {
                cs
            };
            assert forall|k: int| s2 <= k < s2 + cl + 1 implies #[trigger] g[k] == 0 by {
                if k < i {
                    assert(cs <= k < cs + cl);
                }
            }
            if cl + 1 > bl {
                lemma_zero_scan(g, i + 1, s2, cl + 1, s2, cl + 1);
            } else {
                lemma_zero_scan(g, i + 1, bs, bl, s2, cl + 1);
            }
        } else {
            lemma_zero_scan(g, i + 1, bs, bl, 0, 0);
        }
    }
}

/// Reading at `pos` fails where a `:` stands: no number starts there.
proof fn lemma_colon_reads_nothing(s: Seq<char>, pos: int, radix: nat)
    requires
        0 <= pos < s.len(),
        s[pos] == ':',
    ensures
        run_len(s, pos, radix) == 0,
{
}

/// After `::ffff:`, the dotted address gives the last two segments.
proof fn lemma_mapped_tail(s: Seq<char>, a: u8, b: u8, c: u8, d: u8)
    requires
        s.len() > 7,
        s[6] == ':',
        s.subrange(7, s.len() as int) == ipv4_text(a, b, c, d),
    ensures
        read_groups(s, 6, 1, 7, seq![0xffffu16]) == (
            seq![0xffffu16, (a as u16 * 256 + b as u16) as u16, (c as u16 * 256 + d as u16) as u16],
            true,
            s.len() as int,
        ),
{
    lemma_read_ipv4_at(s, 7, a, b, c, d);
    assert(after_sep(s, 6, 1) == Some(7int));
}

/// After `::`: `ffff`, then the rest.
proof fn lemma_mapped_ffff(s: Seq<char>)
    requires
        s.len() > 7,
        s[2] == 'f' && s[3] == 'f' && s[4] == 'f' && s[5] == 'f' && s[6] == ':',
    ensures
        read_ipv4(s, 2) is None,
        read_number(s, 2, 16, 4, true, 0xffff) == Some((0xffffnat, 6int)),
{
    assert(hex(0xffff) =~= seq!['f', 'f', 'f', 'f']) by {
        reveal_with_fuel(hex, 4);
    }
    assert(s.subrange(2, 6) =~= hex(0xffff));
    lemma_read_hex(s, 2, 0xffff);
    assert(run_len(s, 2, 10) == 0);
}

/// `Display`'s text for an IPv4-mapped address parses back to it.
proof fn lemma_mapped_parses(g: Seq<u16>)
    requires
        g.len() == 8,
        g[0] == 0 && g[1] == 0 && g[2] == 0 && g[3] == 0 && g[4] == 0 && g[5] == 0xffff,
    ensures
        parse_ip_text(ipv6_text(g)) == Some(v6_of(g)),
{
    reveal_strlit("::ffff:");
    let a = (g[6] / 256) as u8;
    let b = (g[6] % 256) as u8;
    let c = (g[7] / 256) as u8;
    let d = (g[7] % 256) as u8;
    let t = ipv4_text(a, b, c, d);
    let s = ipv6_text(g);
    assert(s == "::ffff:"@ + t);
    assert(s[0] == ':' && s[1] == ':' && s[2] == 'f' && s[3] == 'f' && s[4] == 'f' && s[5] == 'f'
        && s[6] == ':');
    assert(s.subrange(7, s.len() as int) =~= t);
    lemma_colon_reads_nothing(s, 0, 10);
    lemma_colon_reads_nothing(s, 0, 16);
    assert(read_ipv4(s, 0) is None);
    assert(read_groups(s, 0, 0, 8, seq![]) == (Seq::<u16>::empty(), false, 0int));
    lemma_mapped_ffff(s);
    lemma_mapped_tail(s, a, b, c, d);
    let x = (a as u16 * 256 + b as u16) as u16;
    let y = (c as u16 * 256 + d as u16) as u16;
    assert(x == g[6]);
    assert(y == g[7]);
    let tail = seq![0xffffu16, x, y];
    assert(read_groups(s, 2, 0, 7, seq![]) == read_groups(s, 6, 1, 7, seq![0xffffu16]));
    let r = Seq::<u16>::empty() + Seq::new(5, |k: int| 0u16) + tail;
    assert(r =~= g);
    assert(read_ipv6(s, 0) == Some((r, s.len() as int)));
}

/// Reading the segments before a `::`: the first `st` segments.
proof fn lemma_compressed_head(s: Seq<char>, head: Seq<u16>, p1: int)
    requires
        head.len() <= 6,
        p1 == hex_join(head).len(),
        p1 + 2 <= s.len(),
        s.subrange(0, p1) == hex_join(head),
        s[p1] == ':' && s[p1 + 1] == ':',
        forall|k: int| 0 <= k < s.len() ==> #[trigger] s[k] != '.',
    ensures
        read_groups(s, 0, 0, 8, seq![]) == (head, false, p1),
{
    if head.len() > 0 {
        lemma_read_joined(s, 0, 8, head);
    } else {
        lemma_no_dot_no_v4(s, 0);
        lemma_colon_reads_nothing(s, 0, 16);
        assert(head =~= Seq::<u16>::empty());
    }
}

/// Reading the segments after a `::`: all of `tail`, to the end.
proof fn lemma_compressed_tail(s: Seq<char>, tail: Seq<u16>, q: int, limit: nat)
    requires
        tail.len() < limit,
        0 <= q <= s.len(),
        q + hex_join(tail).len() == s.len(),
        s.subrange(q, s.len() as int) == hex_join(tail),
        forall|k: int| 0 <= k < s.len() ==> #[trigger] s[k] != '.',
    ensures
        read_groups(s, q, 0, limit, seq![]) == (tail, false, s.len() as int),
{
    if tail.len() > 0 {
        lemma_read_joined(s, q, limit, tail);
    } else {
        lemma_no_dot_no_v4(s, q);
        assert(tail =~= Seq::<u16>::empty());
    }
}

/// `Display`'s text with a `::` run parses back to the address.
proof fn lemma_compressed_parses(g: Seq<u16>, st: int, len: int)
    requires
        g.len() == 8,
        0 <= st,
        1 < len,
        st + len <= 8,
        forall|k: int| st <= k < st + len ==> #[trigger] g[k] == 0,
    ensures
        ({
            let s = hex_join(g.take(st)) + "::"@ + hex_join(g.skip(st + len));
            read_ipv4(s, 0) is None && read_ipv6(s, 0) == Some((g, s.len() as int))
        }),
{
    reveal_strlit("::");
    let head = g.take(st);
    let tail = g.skip(st + len);
    let hh = hex_join(head);
    let ht = hex_join(tail);
    let s = hh + "::"@ + ht;
    lemma_hex_join_chars(head);
    lemma_hex_join_chars(tail);
    let p1 = hh.len() as int;
    assert(s[p1] == ':' && s[p1 + 1] == ':');
    assert forall|k: int| 0 <= k < s.len() implies #[trigger] s[k] != '.' by {
        if k < p1 {
            assert(s[k] == hh[k]);
        } else if k >= p1 + 2 {
            assert(s[k] == ht[k - p1 - 2]);
        }
    }
    lemma_no_dot_no_v4(s, 0);
    assert(s.subrange(0, p1) =~= hh);
    lemma_compressed_head(s, head, p1);
    let limit = (8 - (head.len() + 1)) as nat;
    assert(s.subrange(p1 + 2, s.len() as int) =~= ht);
    lemma_compressed_tail(s, tail, p1 + 2, limit);
    let r = head + Seq::new((8 - head.len() - tail.len()) as nat, |k: int| 0u16) + tail;
    assert(r =~= g);
}

/// `Display`'s text without a `::` run parses back to the address.
proof fn lemma_plain_parses(g: Seq<u16>)
    requires
        g.len() == 8,
    ensures
        read_ipv4(hex_join(g), 0) is None,
        read_ipv6(hex_join(g), 0) == Some((g, hex_join(g).len() as int)),
{
    let s = hex_join(g);
    lemma_hex_join_chars(g);
    lemma_no_dot_no_v4(s, 0);
    assert(s.subrange(0, s.len() as int) =~= s);
    lemma_read_joined(s, 0, 8, g);
}

/// `Display`'s text for an IPv6 address that is not IPv4-mapped parses
/// back to it.
proof fn lemma_hex_text_parses(g: Seq<u16>)
    requires
        g.len() == 8,
        !(g[0] == 0 && g[1] == 0 && g[2] == 0 && g[3] == 0 && g[4] == 0 && g[5] == 0xffff),
    ensures
        parse_ip_text(ipv6_text(g)) == Some(v6_of(g)),
{
    let (st, len) = zero_scan(g, 0, 0, 0, 0, 0);
    lemma_zero_scan(g, 0, 0, 0, 0, 0);
    if len > 1 {
        lemma_compressed_parses(g, st, len);
    } else {
        lemma_plain_parses(g);
    }
}

/// The text `Display` writes for an address parses back to it.
pub proof fn law_ip_text_parses(ip: IpAddress)
    ensures
        parse_ip_text(ip_text(ip)) == Some(ip),
{
    match ip {
        IpAddress::V4(a, b, c, d) => law_ipv4_text_parses(a, b, c, d),
        IpAddress::V6(s0, s1, s2, s3, s4, s5, s6, s7) => {
            let g = seq![s0, s1, s2, s3, s4, s5, s6, s7];
            if g[0] == 0 && g[1] == 0 && g[2] == 0 && g[3] == 0 && g[4] == 0 && g[5] == 0xffff {
                lemma_mapped_parses(g);
            } else {
                lemma_hex_text_parses(g);
            }
            assert(v6_of(g) == ip);
        },
    }
}

} // verus!

//! Small helpers of the front end: names read off configuration lines, the
//! router editor's field texts, and one-line error messages.

use vstd::prelude::*;

use crate::bgp::scan::{lines, split_lines};
use crate::router::{
    ascii_lowered, default_router, law_vendor_label_roundtrip, vendor_from_lower,
    vendor_read, vendor_label, RouterConfig, RouterModel, RouterVendor,
};
use crate::text::{
    contains, contains_chars, trim, trim_chars, chars_of, decimal, decimal_chars, is_ascii_text, lemma_decimal_nonempty,
    lemma_decimal_roundtrip, parse_unsigned, parse_unsigned_chars, split_words, string_of, words,
};

verus! {

// ─── Names on configuration lines ────────────────────────────────────────────

/// The index of the first word from `i` on that equals `w`.
pub open spec fn find_word(ws: Seq<Seq<char>>, w: Seq<char>, i: int) -> Option<int>
    decreases ws.len() - i,
{
    if i < 0 || i >= ws.len() {
        None
    } else if ws[i] == w {
        Some(i)
    } else {
        find_word(ws, w, i + 1)
    }
}

/// The word after the first occurrence of the keyword `k`, if there is one.
pub open spec fn word_after(ws: Seq<Seq<char>>, k: Seq<char>) -> Option<Seq<char>> {
    match find_word(ws, k, 0) {
        Some(p) => {
            if p + 1 < ws.len() {
                Some(ws[p + 1])
            } else {
                None
            }
        },
        None => None,
    }
}

/// `trim_end_matches(c)`: every trailing `c` goes.
pub open spec fn trim_end_char(s: Seq<char>, c: char) -> Seq<char>
    decreases s.len(),
{
    if s.len() > 0 && s.last() == c {
        trim_end_char(s.drop_last(), c)
    } else {
        s
    }
}

/// The name of a community list on a line: the word after
/// `community-list`, or after its `standard` / `expanded` type word.
pub open spec fn community_list_name(ws: Seq<Seq<char>>) -> Option<Seq<char>> {
    match find_word(ws, "community-list"@, 0) {
        Some(p) => {
            let q = if p + 1 < ws.len() && (ws[p + 1] == "standard"@ || ws[p + 1] == "expanded"@) {
                p + 2
            } else {
                p + 1
            };
            if q < ws.len() {
                Some(ws[q])
            } else {
                None
            }
        },
        None => None,
    }
}

fn find_word_exec(ws: &Vec<Vec<char>>, w: &str) -> (r: Option<usize>)
    ensures
        r matches Some(p) ==> find_word(ws.deep_view(), w@, 0) == Some(p as int) && p < ws.len(),
        r is None ==> find_word(ws.deep_view(), w@, 0) is None,
{
    let key = chars_of(w);
    let mut i: usize = 0;
    while i < ws.len()
        invariant
            i <= ws.len(),
            ws.deep_view().len() == ws.len(),
            key@ == w@,
            find_word(ws.deep_view(), w@, 0) == find_word(ws.deep_view(), w@, i as int),
        decreases ws.len() - i,
    {
        assert(ws.deep_view()[i as int] =~= ws@[i as int]@);
        if crate::text::chars_eq(&ws[i], &key) {
            return Some(i);
        }
        i = i + 1;
    }
    None
}

fn word_at(ws: &Vec<Vec<char>>, i: usize) -> (r: String)
    requires
        i < ws.len(),
    ensures
        r@ == ws.deep_view()[i as int],
{
    assert(ws.deep_view()[i as int] =~= ws@[i as int]@);
    string_of(&ws[i])
}

/// The route-map named on a line such as `neighbor X route-map NAME in`.
pub fn extract_routemap_name_from_line(line: &str) -> (r: Option<String>)
    ensures
        r matches Some(n) ==> word_after(words(line@), "route-map"@) == Some(n@),
        r is None ==> word_after(words(line@), "route-map"@) is None,
{
    let parts = split_words(&chars_of(line));
    match find_word_exec(&parts, "route-map") {
        Some(p) => {
            if p + 1 < parts.len() {
                Some(word_at(&parts, p + 1))
            } else {
                None
            }
        },
        None => None,
    }
}

fn trim_end_colons(s: &Vec<char>) -> (r: Vec<char>)
    ensures
        r@ == trim_end_char(s@, ':'),
{
    let mut n: usize = s.len();
    assert(s@.take(n as int) =~= s@);
    while n > 0 && s[n - 1] == ':'
        invariant
            n <= s.len(),
            trim_end_char(s@, ':') == trim_end_char(s@.take(n as int), ':'),
        decreases n,
    {
        assert(s@.take(n as int).drop_last() =~= s@.take(n - 1));
        n = n - 1;
    }
    let mut r: Vec<char> = Vec::new();
    let mut i: usize = 0;
    while i < n
        invariant
            i <= n <= s.len(),
            r@ =~= s@.take(i as int),
        decreases n - i,
    {
        r.push(s[i]);
        i = i + 1;
    }
    r
}

/// The prefix-list named on a line such as `ip prefix-list NAME: ...`,
/// without trailing colons.
pub fn extract_prefixlist_name_from_line(line: &str) -> (r: Option<String>)
    ensures
        r matches Some(n) ==> word_after(words(line@), "prefix-list"@) matches Some(w) && n@
            == trim_end_char(w, ':'),
        r is None ==> word_after(words(line@), "prefix-list"@) is None,
{
    let parts = split_words(&chars_of(line));
    match find_word_exec(&parts, "prefix-list") {
        Some(p) => {
            if p + 1 < parts.len() {
                assert(parts.deep_view()[p + 1] =~= parts@[p + 1]@);
                Some(string_of(&trim_end_colons(&parts[p + 1])))
            } else {
                None
            }
        },
        None => None,
    }
}

/// The community list named on a line such as
/// `ip community-list standard NAME permit ...`.
pub fn extract_communitylist_name_from_line(line: &str) -> (r: Option<String>)
    ensures
        r matches Some(n) ==> community_list_name(words(line@)) == Some(n@),
        r is None ==> community_list_name(words(line@)) is None,
{
    let parts = split_words(&chars_of(line));
    match find_word_exec(&parts, "community-list") {
        Some(p) => {
            let mut q = p + 1;
            if p + 1 < parts.len() {
                assert(parts.deep_view()[p + 1] =~= parts@[p + 1]@);
                if crate::text::is_text(&parts[p + 1], "standard") || crate::text::is_text(
                    &parts[p + 1],
                    "expanded",
                ) {
                    q = p + 2;
                }
            }
            if q < parts.len() {
                Some(word_at(&parts, q))
            } else {
                None
            }
        },
        None => None,
    }
}

/// The policy editor that a configuration line opens.
#[derive(Debug, Clone)]
pub enum PolicyTarget {
    RouteMap(String),
    PrefixList(String),
    CommunityList(String),
}

pub enum PolicyTargetModel {
    RouteMap(Seq<char>),
    PrefixList(Seq<char>),
    CommunityList(Seq<char>),
}

impl View for PolicyTarget {
    type V = PolicyTargetModel;

    open spec fn view(&self) -> PolicyTargetModel {
        match self {
            PolicyTarget::RouteMap(n) => PolicyTargetModel::RouteMap(n@),
            PolicyTarget::PrefixList(n) => PolicyTargetModel::PrefixList(n@),
            PolicyTarget::CommunityList(n) => PolicyTargetModel::CommunityList(n@),
        }
    }
}

/// The editor a (trimmed) configuration line opens: a line that mentions a
/// route-map opens it by name, else one that mentions a prefix-list, else
/// one that mentions a community-list.
pub open spec fn policy_target_of(line: Seq<char>) -> Option<PolicyTargetModel> {
    let t = trim(line);
    let ws = words(t);
    if contains(t, "route-map"@) {
        match word_after(ws, "route-map"@) {
            Some(n) => Some(PolicyTargetModel::RouteMap(n)),
            None => None,
        }
    } else if contains(t, "prefix-list"@) {
        match word_after(ws, "prefix-list"@) {
            Some(n) => Some(PolicyTargetModel::PrefixList(trim_end_char(n, ':'))),
            None => None,
        }
    } else if contains(t, "community-list"@) {
        match community_list_name(ws) {
            Some(n) => Some(PolicyTargetModel::CommunityList(n)),
            None => None,
        }
    } else {
        None
    }
}

pub open spec fn target_view(t: Option<PolicyTarget>) -> Option<PolicyTargetModel> {
    match t {
        Some(x) => Some(x@),
        None => None,
    }
}

/// The policy editor that `e` on a configuration line opens.
pub fn policy_target(line: &str) -> (r: Option<PolicyTarget>)
    ensures
        target_view(r) == policy_target_of(line@),
{
    let t = string_of(&trim_chars(&chars_of(line)));
    let tc = chars_of(t.as_str());
    if contains_chars(&tc, &chars_of("route-map")) {
        match extract_routemap_name_from_line(t.as_str()) {
            Some(n) => Some(PolicyTarget::RouteMap(n)),
            None => None,
        }
    } else if contains_chars(&tc, &chars_of("prefix-list")) {
        match extract_prefixlist_name_from_line(t.as_str()) {
            Some(n) => Some(PolicyTarget::PrefixList(n)),
            None => None,
        }
    } else if contains_chars(&tc, &chars_of("community-list")) {
        match extract_communitylist_name_from_line(t.as_str()) {
            Some(n) => Some(PolicyTarget::CommunityList(n)),
            None => None,
        }
    } else {
        None
    }
}

// ─── The router editor's fields ──────────────────────────────────────────────

pub open spec fn opt_or_empty(o: Option<Seq<char>>) -> Seq<char> {
    match o {
        Some(s) => s,
        None => seq![],
    }
}

/// An optional text that is absent or not empty.
pub open spec fn not_blank(o: Option<Seq<char>>) -> bool {
    o matches Some(p) ==> p.len() > 0
}

/// An empty text clears an optional field.
pub open spec fn non_empty(s: Seq<char>) -> Option<Seq<char>> {
    if s.len() == 0 {
        None
    } else {
        Some(s)
    }
}

/// The text the router editor shows for a field.
pub open spec fn router_field_text(r: RouterModel, field: int) -> Seq<char> {
    if field == 0 {
        r.name
    } else if field == 1 {
        r.hostname
    } else if field == 2 {
        decimal(r.ssh_port as nat)
    } else if field == 3 {
        r.username
    } else if field == 4 {
        opt_or_empty(r.password)
    } else if field == 5 {
        vendor_label(r.vendor)
    } else if field == 6 {
        opt_or_empty(r.vdom)
    } else {
        seq![]
    }
}

/// The router after the editor's buffer was committed to a field: a port
/// that does not parse is 22; an empty password or VDOM is none.
pub open spec fn router_with_field(r: RouterModel, field: int, buf: Seq<char>) -> RouterModel {
    if field == 0 {
        RouterModel { name: buf, ..r }
    } else if field == 1 {
        RouterModel { hostname: buf, ..r }
    } else if field == 2 {
        RouterModel {
            ssh_port: match parse_unsigned(buf, 65535) {
                Some(p) => p as u16,
                None => 22,
            },
            ..r
        }
    } else if field == 3 {
        RouterModel { username: buf, ..r }
    } else if field == 4 {
        RouterModel { password: non_empty(buf), ..r }
    } else if field == 5 {
        RouterModel { vendor: vendor_read(buf), ..r }
    } else if field == 6 {
        RouterModel { vdom: non_empty(buf), ..r }
    } else {
        r
    }
}

fn opt_text_of(o: &Option<String>) -> (r: String)
    ensures
        r@ == opt_or_empty(crate::text::opt_view(*o)),
{
    match o {
        Some(s) => crate::text::copy_string(s),
        None => String::new(),
    }
}

/// The text the router editor shows for a field of a router.
pub fn editor_field_value(r: &RouterConfig, field: usize) -> (s: String)
    ensures
        s@ == router_field_text(r@, field as int),
{
    if field == 0 {
        crate::text::copy_string(&r.name)
    } else if field == 1 {
        crate::text::copy_string(&r.hostname)
    } else if field == 2 {
        string_of(&decimal_chars(r.ssh_port as u64))
    } else if field == 3 {
        crate::text::copy_string(&r.username)
    } else if field == 4 {
        opt_text_of(&r.password)
    } else if field == 5 {
        String::from_str(r.vendor.label())
    } else if field == 6 {
        opt_text_of(&r.vdom)
    } else {
        String::new()
    }
}

fn non_empty_string(buf: &str) -> (r: Option<String>)
    ensures
        crate::text::opt_view(r) == non_empty(buf@),
{
    let v = chars_of(buf);
    if v.len() == 0 {
        None
    } else {
        Some(string_of(&v))
    }
}

/// Commits the editor's buffer to a field of the draft router. Committing a
/// field's own text leaves the router as it was (but for an empty password
/// or VDOM, which becomes none).
pub fn apply_buf_to_draft(draft: &mut RouterConfig, field: usize, buf: &str)
    ensures
        final(draft)@ == router_with_field(old(draft)@, field as int, buf@),
        (buf@ == router_field_text(old(draft)@, field as int) && (field == 4 ==> not_blank(
            old(draft)@.password,
        )) && (field == 6 ==> not_blank(old(draft)@.vdom))) ==> final(draft)@ == old(draft)@,
{
    let ghost before = draft@;
    if field == 0 {
        draft.name = string_of(&chars_of(buf));
    } else if field == 1 {
        draft.hostname = string_of(&chars_of(buf));
    } else if field == 2 {
        draft.ssh_port = match parse_unsigned_chars(&chars_of(buf), 65535) {
            Some(p) => p as u16,
            None => 22,
        };
        proof {
            if buf@ == router_field_text(before, 2) {
                lemma_decimal_roundtrip(before.ssh_port as nat);
                lemma_decimal_nonempty(before.ssh_port as nat);
                let d = decimal(before.ssh_port as nat);
                assert(crate::text::is_ascii_digit(d[0]));
                assert(crate::text::unsigned_digits(d) == d);
                assert(parse_unsigned(buf@, 65535) == Some(before.ssh_port as nat));
                assert(draft.ssh_port == before.ssh_port);
                assert(draft@ == before);
            }
        }
    } else if field == 3 {
        draft.username = string_of(&chars_of(buf));
    } else if field == 4 {
        draft.password = non_empty_string(buf);
    } else if field == 5 {
        draft.vendor = RouterVendor::from_text(buf);
        proof {
            law_vendor_label_roundtrip(before.vendor);
            if buf@ == router_field_text(before, 5) {
                assert(draft.vendor == before.vendor);
                assert(draft@ == before);
            }
        }
    } else if field == 6 {
        draft.vdom = non_empty_string(buf);
    }
    proof {
        if buf@ == router_field_text(before, field as int) && field != 2 && field != 5 && (field
            == 4 ==> not_blank(before.password)) && (field == 6 ==> not_blank(before.vdom)) {
            assert(draft@ == before);
        }
    }
}

// ─── One-line error messages ─────────────────────────────────────────────────

/// The bytes of a character in UTF-8.
pub open spec fn utf8_width(c: char) -> nat {
    if (c as u32) < 0x80 {
        1
    } else if (c as u32) < 0x800 {
        2
    } else if (c as u32) < 0x10000 {
        3
    } else {
        4
    }
}

/// The bytes of a text in UTF-8 (`str::len`).
pub open spec fn utf8_len(s: Seq<char>) -> nat
    decreases s.len(),
{
    if s.len() == 0 {
        0
    } else {
        utf8_len(s.drop_last()) + utf8_width(s.last())
    }
}

/// `s.lines().next().unwrap_or(s)`.
pub open spec fn first_line(s: Seq<char>) -> Seq<char> {
    if lines(s).len() > 0 {
        lines(s)[0]
    } else {
        s
    }
}

/// The first line of an error, at most `max` characters: the line itself
/// when it fits, else its first `max - 1` characters and an ellipsis (no
/// character at all when `max` is 0).
pub open spec fn truncated_error(s: Seq<char>, max: nat) -> Seq<char> {
    let l = first_line(s);
    if l.len() <= max {
        l
    } else if max == 0 {
        seq![]
    } else {
        l.take(max - 1) + "\u{2026}"@
    }
}

fn utf8_width_of(c: char) -> (r: usize)
    ensures
        r == utf8_width(c),
{
    let v = c as u32;
    if v < 0x80 {
        1
    } else if v < 0x800 {
        2
    } else if v < 0x10000 {
        3
    } else {
        4
    }
}

proof fn lemma_utf8_len_take(s: Seq<char>, k: int)
    requires
        0 <= k < s.len(),
    ensures
        utf8_len(s.take(k + 1)) == utf8_len(s.take(k)) + utf8_width(s[k]),
{
    assert(s.take(k + 1).drop_last() =~= s.take(k));
}

/// Longer prefixes take more bytes.
proof fn lemma_utf8_len_mono(s: Seq<char>, k: int)
    requires
        0 <= k <= s.len(),
    ensures
        utf8_len(s.take(k)) <= utf8_len(s),
    decreases s.len() - k,
{
    if k < s.len() {
        lemma_utf8_len_take(s, k);
        lemma_utf8_len_mono(s, k + 1);
    } else {
        assert(s.take(k) =~= s);
    }
}

/// `str::len`: the UTF-8 bytes of the characters.
pub fn utf8_byte_len(s: &Vec<char>) -> (r: usize)
    requires
        utf8_len(s@) <= usize::MAX,
    ensures
        r == utf8_len(s@),
{
    let mut n: usize = 0;
    let mut k: usize = 0;
    while k < s.len()
        invariant
            k <= s.len(),
            n == utf8_len(s@.take(k as int)),
            utf8_len(s@) <= usize::MAX,
        decreases s.len() - k,
    {
        proof {
            lemma_utf8_len_take(s@, k as int);
            lemma_utf8_len_mono(s@, k + 1);
        }
        n = n + utf8_width_of(s[k]);
        k = k + 1;
    }
    assert(s@.take(s.len() as int) =~= s@);
    n
}

fn first_line_chars(s: &str) -> (r: Vec<char>)
    ensures
        r@ == first_line(s@),
{
    let cs = chars_of(s);
    let ls = split_lines(&cs);
    if ls.len() > 0 {
        assert(ls.deep_view()[0] =~= ls@[0]@);
        crate::text::slice_chars(&ls[0], 0, ls[0].len())
    } else {
        cs
    }
}

/// The first line of an error, at most `max` characters, for one-line
/// display.
pub fn truncate_error(s: &str, max: usize) -> (r: String)
    ensures
        r@ == truncated_error(s@, max as nat),
        r@.len() <= max,
{
    let line = first_line_chars(s);
    if line.len() <= max {
        return string_of(&line);
    }
    if max == 0 {
        return String::new();
    }
    let mut out: Vec<char> = Vec::new();
    let mut i: usize = 0;
    while i < max - 1
        invariant
            i <= max - 1 < line.len(),
            out@ =~= line@.take(i as int),
        decreases max - 1 - i,
    {
        out.push(line[i]);
        i = i + 1;
    }
    out.push('\u{2026}');
    proof {
        reveal_strlit("\u{2026}");
        assert(out@ =~= line@.take(max - 1) + "\u{2026}"@);
    }
    string_of(&out)
}

/// Text typed into the router editor's name, host, user, password or VDOM
/// field reads back as typed, and committing any field leaves what the
/// other fields show as it was.
pub proof fn law_router_field_typed(r: RouterModel, field: int, buf: Seq<char>, j: int)
    requires
        0 <= field < 7,
        0 <= j < 7,
        j != field,
    ensures
        (field != 2 && field != 5) ==> router_field_text(router_with_field(r, field, buf), field)
            == buf,
        router_field_text(router_with_field(r, field, buf), j) == router_field_text(r, j),
{
}

/// Committing the text that a field of the router editor shows leaves the
/// router as it was, when its password and VDOM are absent or not empty.
pub proof fn law_router_field_unchanged(r: RouterModel, field: int)
    requires
        0 <= field < 7,
        not_blank(r.password),
        not_blank(r.vdom),
    ensures
        router_with_field(r, field, router_field_text(r, field)) == r,
{
    if field == 2 {
        lemma_decimal_roundtrip(r.ssh_port as nat);
        lemma_decimal_nonempty(r.ssh_port as nat);
        let d = decimal(r.ssh_port as nat);
        assert(crate::text::is_ascii_digit(d[0]));
        assert(crate::text::unsigned_digits(d) == d);
    }
    if field == 5 {
        law_vendor_label_roundtrip(r.vendor);
    }
}

/// The search finds the first occurrence of the word from `i` on.
proof fn lemma_find_word_first(ws: Seq<Seq<char>>, w: Seq<char>, i: int)
    requires
        0 <= i,
    ensures
        find_word(ws, w, i) matches Some(p) ==> i <= p < ws.len() && ws[p] == w && forall|q: int|
            i <= q < p ==> #[trigger] ws[q] != w,
        find_word(ws, w, i) is None ==> forall|q: int| i <= q < ws.len() ==> #[trigger] ws[q] != w,
    decreases ws.len() - i,
{
    if i < ws.len() {
        lemma_find_word_first(ws, w, i + 1);
    }
}

/// The word after a keyword is the one that follows its first occurrence;
/// there is none when the keyword is missing or is the last word.
pub proof fn law_word_after_first(ws: Seq<Seq<char>>, k: Seq<char>)
    ensures
        forall|p: int|
            0 <= p < ws.len() && #[trigger] ws[p] == k && (forall|q: int|
                0 <= q < p ==> #[trigger] ws[q] != k) ==> word_after(ws, k) == (if p + 1
                < ws.len() {
                Some(ws[p + 1])
            } else {
                None
            }),
        (forall|q: int| 0 <= q < ws.len() ==> #[trigger] ws[q] != k) ==> word_after(ws, k) is None,
{
    lemma_find_word_first(ws, k, 0);
    assert forall|p: int|
        0 <= p < ws.len() && #[trigger] ws[p] == k && (forall|q: int|
            0 <= q < p ==> #[trigger] ws[q] != k) implies word_after(ws, k) == (if p + 1
        < ws.len() {
        Some(ws[p + 1])
    } else {
        None
    }) by {
        match find_word(ws, k, 0) {
            Some(f) => {
                if f < p {
                    assert(ws[f] != k);
                } else if f > p {
                    assert(ws[p] != k);
                }
            },
            None => {
                assert(ws[p] != k);
            },
        }
    }
}

/// Trimming a trailing character leaves text that does not end in it, and
/// putting back the trimmed copies of it gives the text back.
pub proof fn law_trim_end_char(s: Seq<char>, c: char)
    ensures
        trim_end_char(s, c).len() > 0 ==> trim_end_char(s, c).last() != c,
        trim_end_char(s, c).len() <= s.len(),
        trim_end_char(s, c) + Seq::new((s.len() - trim_end_char(s, c).len()) as nat, |i: int| c)
            == s,
    decreases s.len(),
{
    let t = trim_end_char(s, c);
    if s.len() > 0 && s.last() == c {
        let d = s.drop_last();
        law_trim_end_char(d, c);
        let n = (s.len() - t.len()) as nat;
        let r1 = Seq::new((d.len() - t.len()) as nat, |i: int| c);
        let r = Seq::new(n, |i: int| c);
        assert(r =~= r1.push(c));
        assert(t + r =~= (t + r1).push(c));
        assert(s =~= d.push(c));
    } else {
        assert(t + Seq::new(0, |i: int| c) =~= s);
    }
}

/// The community list a line names follows the first `community-list`
/// word, skipping a `standard` or `expanded` type word after it.
pub proof fn law_community_list_name_first(ws: Seq<Seq<char>>, p: int)
    requires
        0 <= p < ws.len(),
        ws[p] == "community-list"@,
        forall|q: int| 0 <= q < p ==> #[trigger] ws[q] != "community-list"@,
    ensures
        ({
            let typed = p + 1 < ws.len() && (ws[p + 1] == "standard"@ || ws[p + 1] == "expanded"@);
            let q = if typed {
                p + 2
            } else {
                p + 1
            };
            community_list_name(ws) == if q < ws.len() {
                Some(ws[q])
            } else {
                None
            }
        }),
{
    lemma_find_word_first(ws, "community-list"@, 0);
    match find_word(ws, "community-list"@, 0) {
        Some(f) => {
            if f < p {
                assert(ws[f] != "community-list"@);
            } else if f > p {
                assert(ws[p] != "community-list"@);
            }
        },
        None => {
            assert(ws[p] != "community-list"@);
        },
    }
}

/// `e` on a line opens the kind of policy that the line mentions first in
/// the order route-map, prefix-list, community-list: a line that mentions a
/// route-map never opens another kind, one that mentions a prefix-list but
/// no route-map never opens a community list, and a line that mentions none
/// opens nothing.
pub proof fn law_policy_target_precedence(line: Seq<char>)
    ensures
        contains(trim(line), "route-map"@) ==> (policy_target_of(line) is None || policy_target_of(
            line,
        ) is Some && policy_target_of(line)->0 is RouteMap),
        (!contains(trim(line), "route-map"@) && contains(trim(line), "prefix-list"@)) ==> (
        policy_target_of(line) is None || policy_target_of(line) is Some && policy_target_of(
            line,
        )->0 is PrefixList),
        (!contains(trim(line), "route-map"@) && !contains(trim(line), "prefix-list"@)
            && !contains(trim(line), "community-list"@)) ==> policy_target_of(line) is None,
{
}

} // verus!

//! Character-level text utilities with exact specifications: Unicode
//! whitespace, trimming, whitespace tokenization, substring search, decimal
//! rendering and the `FromStr` grammar of unsigned integers.

use vstd::prelude::*;

verus! {

/// The Unicode `White_Space` property: what `char::is_whitespace`,
/// `str::trim`, `str::split_whitespace` and the regex class `\s` use.
pub open spec fn is_ws(c: char) -> bool {
    let v = c as u32;
    ||| (9 <= v && v <= 13)
    ||| v == 32
    ||| v == 0x85
    ||| v == 0xa0
    ||| v == 0x1680
    ||| (0x2000 <= v && v <= 0x200a)
    ||| v == 0x2028
    ||| v == 0x2029
    ||| v == 0x202f
    ||| v == 0x205f
    ||| v == 0x3000
}

pub fn is_whitespace_char(c: char) -> (r: bool)
    ensures
        r == is_ws(c),
{
    let v = c as u32;
    (9 <= v && v <= 13) || v == 32 || v == 0x85 || v == 0xa0 || v == 0x1680 || (0x2000 <= v && v
        <= 0x200a) || v == 0x2028 || v == 0x2029 || v == 0x202f || v == 0x205f || v == 0x3000
}


pub open spec fn is_ascii_digit(c: char) -> bool {
    48 <= (c as u32) && (c as u32) <= 57
}

/// `char::is_ascii_digit`.
pub fn ascii_digit(c: char) -> (r: bool)
    ensures
        r == is_ascii_digit(c),
{
    let v = c as u32;
    48 <= v && v <= 57
}

pub open spec fn is_ascii_alnum(c: char) -> bool {
    let v = c as u32;
    ||| (48 <= v && v <= 57)
    ||| (65 <= v && v <= 90)
    ||| (97 <= v && v <= 122)
}

// ─── Trimming ────────────────────────────────────────────────────────────────

pub open spec fn trim_start(s: Seq<char>) -> Seq<char>
    decreases s.len(),
{
    if s.len() > 0 && is_ws(s[0]) {
        trim_start(s.drop_first())
    } else {
        s
    }
}

pub open spec fn trim_end(s: Seq<char>) -> Seq<char>
    decreases s.len(),
{
    if s.len() > 0 && is_ws(s.last()) {
        trim_end(s.drop_last())
    } else {
        s
    }
}

/// What `str::trim` gives back.
pub open spec fn trim(s: Seq<char>) -> Seq<char> {
    trim_end(trim_start(s))
}

pub proof fn lemma_trim_start_skip(s: Seq<char>, i: int)
    requires
        0 <= i <= s.len(),
        forall|j: int| 0 <= j < i ==> is_ws(#[trigger] s[j]),
    ensures
        trim_start(s) == trim_start(s.skip(i)),
    decreases i,
{
    if i > 0 {
        assert(s.drop_first().skip(i - 1) =~= s.skip(i));
        lemma_trim_start_skip(s.drop_first(), i - 1);
    } else {
        assert(s.skip(0) =~= s);
    }
}

pub proof fn lemma_trim_end_take(s: Seq<char>, k: int)
    requires
        0 <= k <= s.len(),
        forall|j: int| k <= j < s.len() ==> is_ws(#[trigger] s[j]),
    ensures
        trim_end(s) == trim_end(s.take(k)),
    decreases s.len() - k,
{
    if k < s.len() {
        assert(s.drop_last().take(k) =~= s.take(k));
        lemma_trim_end_take(s.drop_last(), k);
    } else {
        assert(s.take(k) =~= s);
    }
}

/// Text that neither starts nor ends with whitespace is its own trim.
pub proof fn lemma_trim_unchanged(s: Seq<char>)
    requires
        s.len() > 0,
        !is_ws(s[0]),
        !is_ws(s.last()),
    ensures
        trim(s) == s,
{
}

pub proof fn lemma_trim_start_len(s: Seq<char>)
    ensures
        trim_start(s).len() <= s.len(),
        trim_start(s).len() > 0 ==> !is_ws(trim_start(s)[0]),
        exists|i: int| 0 <= i <= s.len() && trim_start(s) == #[trigger] s.skip(i),
    decreases s.len(),
{
    if s.len() > 0 && is_ws(s[0]) {
        lemma_trim_start_len(s.drop_first());
        let i = choose|i: int| 0 <= i <= s.drop_first().len() && trim_start(s.drop_first()) == #[trigger] s.drop_first().skip(i);
        assert(s.drop_first().skip(i) =~= s.skip(i + 1));
    } else {
        assert(s.skip(0) =~= s);
    }
}

/// Index of the first non-whitespace character at or after `i`.
fn skip_ws(s: &Vec<char>, i: usize) -> (j: usize)
    requires
        i <= s.len(),
    ensures
        i <= j <= s.len(),
        forall|k: int| i <= k < j ==> is_ws(#[trigger] s@[k]),
        j < s.len() ==> !is_ws(s@[j as int]),
{
    let mut j: usize = i;
    while j < s.len() && is_whitespace_char(s[j])
        invariant
            i <= j <= s.len(),
            forall|k: int| i <= k < j ==> is_ws(#[trigger] s@[k]),
        decreases s.len() - j,
    {
        j = j + 1;
    }
    j
}

/// `str::trim` on a character vector.
pub fn trim_chars(s: &Vec<char>) -> (r: Vec<char>)
    ensures
        r@ == trim(s@),
{
    let start = skip_ws(s, 0);
    let mut end: usize = s.len();
    while end > start && is_whitespace_char(s[end - 1])
        invariant
            start <= end <= s.len(),
            forall|k: int| end <= k < s.len() ==> is_ws(#[trigger] s@[k]),
        decreases end,
    {
        end = end - 1;
    }
    proof {
        lemma_trim_start_skip(s@, start as int);
        let t = s@.skip(start as int);
        if start < s.len() {
            assert(trim_start(t) == t);
        } else {
            assert(t.len() == 0);
        }
        assert forall|j: int| end - start <= j < t.len() implies is_ws(#[trigger] t[j]) by {
            assert(t[j] == s@[j + start]);
        }
        lemma_trim_end_take(t, end - start);
        if end > start {
            assert(!is_ws(t.take(end - start).last()));
        }
        assert(t.take(end - start) =~= s@.subrange(start as int, end as int));
    }
    let mut r: Vec<char> = Vec::new();
    let mut k: usize = start;
    while k < end
        invariant
            start <= k <= end <= s.len(),
            r@ =~= s@.subrange(start as int, k as int),
        decreases end - k,
    {
        r.push(s[k]);
        k = k + 1;
    }
    r
}

// ─── Whitespace tokenization ─────────────────────────────────────────────────

/// Length of the run of non-whitespace characters that starts `s`.
pub open spec fn word_len(s: Seq<char>) -> nat
    decreases s.len(),
{
    if s.len() > 0 && !is_ws(s[0]) {
        1 + word_len(s.drop_first())
    } else {
        0
    }
}

pub proof fn lemma_word_len(s: Seq<char>)
    ensures
        word_len(s) <= s.len(),
        s.len() > 0 && !is_ws(s[0]) ==> word_len(s) >= 1,
        forall|j: int| 0 <= j < word_len(s) ==> !is_ws(#[trigger] s[j]),
        word_len(s) < s.len() ==> is_ws(s[word_len(s) as int]),
    decreases s.len(),
{
    if s.len() > 0 && !is_ws(s[0]) {
        lemma_word_len(s.drop_first());
        assert forall|j: int| 0 <= j < word_len(s) implies !is_ws(#[trigger] s[j]) by {
            if j > 0 {
                assert(s[j] == s.drop_first()[j - 1]);
            }
        }
    }
}

pub proof fn lemma_word_len_exact(s: Seq<char>, k: int)
    requires
        0 <= k <= s.len(),
        forall|j: int| 0 <= j < k ==> !is_ws(#[trigger] s[j]),
        k < s.len() ==> is_ws(s[k]),
    ensures
        word_len(s) == k,
    decreases k,
{
    if k > 0 {
        assert forall|j: int| 0 <= j < k - 1 implies !is_ws(#[trigger] s.drop_first()[j]) by {
            assert(s.drop_first()[j] == s[j + 1]);
        }
        if k - 1 < s.drop_first().len() {
            assert(s.drop_first()[k - 1] == s[k]);
        }
        lemma_word_len_exact(s.drop_first(), k - 1);
    }
}

/// What `str::split_whitespace` yields.
pub open spec fn words(s: Seq<char>) -> Seq<Seq<char>>
    decreases s.len(),
{
    let t = trim_start(s);
    if t.len() == 0 {
        seq![]
    } else {
        let k = word_len(t);
        proof {
            lemma_trim_start_len(s);
            lemma_word_len(t);
        }
        seq![t.take(k as int)] + words(t.skip(k as int))
    }
}

proof fn lemma_words_step(s: Seq<char>, i: int, j: int, k: int)
    requires
        0 <= i <= j <= k <= s.len(),
        forall|m: int| i <= m < j ==> is_ws(#[trigger] s[m]),
        forall|m: int| j <= m < k ==> !is_ws(#[trigger] s[m]),
        k < s.len() ==> is_ws(s[k]),
        j < k,
    ensures
        words(s.skip(i)) == seq![s.subrange(j, k)] + words(s.skip(k)),
{
    let u = s.skip(i);
    assert forall|m: int| 0 <= m < j - i implies is_ws(#[trigger] u[m]) by {
        assert(u[m] == s[m + i]);
    }
    lemma_trim_start_skip(u, j - i);
    assert(u.skip(j - i) =~= s.skip(j));
    let t = s.skip(j);
    assert(trim_start(t) == t);
    assert forall|m: int| 0 <= m < k - j implies !is_ws(#[trigger] t[m]) by {
        assert(t[m] == s[m + j]);
    }
    if k - j < t.len() {
        assert(t[k - j] == s[k]);
    }
    lemma_word_len_exact(t, k - j);
    assert(t.take(k - j) =~= s.subrange(j, k));
    assert(t.skip(k - j) =~= s.skip(k));
}

proof fn lemma_words_end(s: Seq<char>, i: int)
    requires
        0 <= i <= s.len(),
        forall|m: int| i <= m < s.len() ==> is_ws(#[trigger] s[m]),
    ensures
        words(s.skip(i)) == Seq::<Seq<char>>::empty(),
{
    let u = s.skip(i);
    assert forall|m: int| 0 <= m < u.len() implies is_ws(#[trigger] u[m]) by {
        assert(u[m] == s[m + i]);
    }
    lemma_trim_start_skip(u, u.len() as int);
    assert(trim_start(u.skip(u.len() as int)) =~= Seq::<char>::empty());
}

/// `str::split_whitespace` on a character vector.
pub fn split_words(s: &Vec<char>) -> (r: Vec<Vec<char>>)
    ensures
        r.deep_view() == words(s@),
{
    let mut r: Vec<Vec<char>> = Vec::new();
    let mut i: usize = 0;
    assert(s@.skip(0) =~= s@);
    while i < s.len()
        invariant
            i <= s.len(),
            r.deep_view() + words(s@.skip(i as int)) == words(s@),
        decreases s.len() - i,
    {
        let j = skip_ws(s, i);
        if j == s.len() {
            proof {
                lemma_words_end(s@, i as int);
                assert(r.deep_view() + Seq::<Seq<char>>::empty() =~= r.deep_view());
                lemma_words_end(s@, s.len() as int);
            }
            i = j;
        } else {
            let mut k: usize = j;
            let mut w: Vec<char> = Vec::new();
            while k < s.len() && !is_whitespace_char(s[k])
                invariant
                    j <= k <= s.len(),
                    forall|m: int| j <= m < k ==> !is_ws(#[trigger] s@[m]),
                    w@ =~= s@.subrange(j as int, k as int),
                decreases s.len() - k,
            {
                w.push(s[k]);
                k = k + 1;
            }
            let ghost old_r = r.deep_view();
            let ghost old_rv = r@;
            proof {
                lemma_words_step(s@, i as int, j as int, k as int);
                assert(old_r + (seq![w@] + words(s@.skip(k as int))) =~= old_r.push(w@) + words(
                    s@.skip(k as int),
                ));
            }
            r.push(w);
            proof {
                assert(r@ == old_rv.push(w));
                assert forall|m: int| 0 <= m < r.len() implies #[trigger] r.deep_view()[m]
                    == old_r.push(w@)[m] by {
                    if m < old_rv.len() {
                        assert(r@[m] == old_rv[m]);
                    }
                }
                assert(r.deep_view() =~= old_r.push(w@));
            }
            i = k;
        }
    }
    proof {
        assert(s@.skip(s.len() as int) =~= Seq::<char>::empty());
        assert(words(Seq::<char>::empty()) =~= Seq::<Seq<char>>::empty());
        assert(r.deep_view() + Seq::<Seq<char>>::empty() =~= r.deep_view());
    }
    r
}


// ─── Decimal numbers ─────────────────────────────────────────────────────────

pub open spec fn digit_char(d: nat) -> char {
    if d == 0 {
        '0'
    } else if d == 1 {
        '1'
    } else if d == 2 {
        '2'
    } else if d == 3 {
        '3'
    } else if d == 4 {
        '4'
    } else if d == 5 {
        '5'
    } else if d == 6 {
        '6'
    } else if d == 7 {
        '7'
    } else if d == 8 {
        '8'
    } else {
        '9'
    }
}

fn digit_of(d: u64) -> (c: char)
    requires
        d < 10,
    ensures
        c == digit_char(d as nat),
{
    if d == 0 {
        '0'
    } else if d == 1 {
        '1'
    } else if d == 2 {
        '2'
    } else if d == 3 {
        '3'
    } else if d == 4 {
        '4'
    } else if d == 5 {
        '5'
    } else if d == 6 {
        '6'
    } else if d == 7 {
        '7'
    } else if d == 8 {
        '8'
    } else {
        '9'
    }
}

/// The decimal rendering of `n`, as `ToString` on an unsigned integer gives.
pub open spec fn decimal(n: nat) -> Seq<char>
    decreases n,
{
    if n < 10 {
        seq![digit_char(n)]
    } else {
        decimal(n / 10).push(digit_char(n % 10))
    }
}

pub proof fn lemma_decimal_nonempty(n: nat)
    ensures
        decimal(n).len() >= 1,
        forall|i: int| 0 <= i < decimal(n).len() ==> is_ascii_digit(#[trigger] decimal(n)[i]),
    decreases n,
{
    if n >= 10 {
        lemma_decimal_nonempty(n / 10);
        assert forall|i: int| 0 <= i < decimal(n).len() implies is_ascii_digit(
            #[trigger] decimal(n)[i],
        ) by {
            if i < decimal(n / 10).len() {
                assert(decimal(n)[i] == decimal(n / 10)[i]);
            }
        }
    }
}

/// `ToString` on an unsigned integer, as characters.
pub fn decimal_chars(n: u64) -> (r: Vec<char>)
    ensures
        r@ == decimal(n as nat),
    decreases n,
{
    if n < 10 {
        let mut v: Vec<char> = Vec::new();
        v.push(digit_of(n));
        v
    } else {
        let mut v = decimal_chars(n / 10);
        v.push(digit_of(n % 10));
        v
    }
}

/// `ToString` on a signed integer: a `-` before the digits of a negative value.
pub open spec fn signed_decimal(v: int) -> Seq<char> {
    if v < 0 {
        seq!['-'] + decimal((-v) as nat)
    } else {
        decimal(v as nat)
    }
}

/// `ToString` on an `i32`, as characters.
pub fn signed_decimal_chars(v: i32) -> (r: Vec<char>)
    ensures
        r@ == signed_decimal(v as int),
{
    if v < 0 {
        let mut r: Vec<char> = Vec::new();
        r.push('-');
        let m: i64 = -(v as i64);
        append_chars(&mut r, decimal_chars(m as u64));
        assert(r@ =~= seq!['-'] + decimal((-(v as int)) as nat));
        r
    } else {
        decimal_chars(v as u64)
    }
}

/// Value of a string of ASCII digits.
pub open spec fn digits_value(s: Seq<char>) -> nat
    decreases s.len(),
{
    if s.len() == 0 {
        0
    } else {
        digits_value(s.drop_last()) * 10 + ((s.last() as u32) - 48) as nat
    }
}

pub open spec fn all_ascii_digits(s: Seq<char>) -> bool {
    forall|i: int| 0 <= i < s.len() ==> is_ascii_digit(#[trigger] s[i])
}

/// The digits that the unsigned `FromStr` grammar reads: one leading `+` is
/// dropped.
pub open spec fn unsigned_digits(s: Seq<char>) -> Seq<char> {
    if s.len() > 0 && s[0] == '+' {
        s.drop_first()
    } else {
        s
    }
}

/// `str::parse` for an unsigned integer type whose largest value is `max`:
/// an optional `+`, then one or more ASCII digits, whose value must fit.
pub open spec fn parse_unsigned(s: Seq<char>, max: nat) -> Option<nat> {
    let d = unsigned_digits(s);
    if d.len() > 0 && all_ascii_digits(d) && digits_value(d) <= max {
        Some(digits_value(d))
    } else {
        None
    }
}

pub proof fn lemma_digits_value_prefix(s: Seq<char>, k: int)
    requires
        0 <= k <= s.len(),
        all_ascii_digits(s),
    ensures
        digits_value(s.take(k)) <= digits_value(s),
    decreases s.len() - k,
{
    if k < s.len() {
        assert(s.drop_last().take(k) =~= s.take(k));
        assert forall|i: int| 0 <= i < s.drop_last().len() implies is_ascii_digit(
            #[trigger] s.drop_last()[i],
        ) by {
            assert(s.drop_last()[i] == s[i]);
        }
        lemma_digits_value_prefix(s.drop_last(), k);
        assert(is_ascii_digit(s[s.len() - 1]));
    } else {
        assert(s.take(k) =~= s);
    }
}

pub proof fn lemma_digit_char(d: nat)
    requires
        d < 10,
    ensures
        digit_char(d) as u32 == 48 + d,
        is_ascii_digit(digit_char(d)),
{
}

pub proof fn lemma_decimal_roundtrip(n: nat)
    ensures
        digits_value(decimal(n)) == n,
        all_ascii_digits(decimal(n)),
    decreases n,
{
    lemma_decimal_nonempty(n);
    lemma_digit_char(n % 10);
    if n >= 10 {
        lemma_decimal_roundtrip(n / 10);
        assert(decimal(n).drop_last() =~= decimal(n / 10));
        assert(decimal(n).last() == digit_char(n % 10));
        assert(digits_value(decimal(n)) == digits_value(decimal(n / 10)) * 10 + (n % 10));
        assert(n == (n / 10) * 10 + n % 10);
    } else {
        lemma_digit_char(n);
        assert(decimal(n).drop_last() =~= Seq::<char>::empty());
        assert(digits_value(Seq::<char>::empty()) == 0);
        assert(digits_value(decimal(n)) == digits_value(decimal(n).drop_last()) * 10 + (
        (decimal(n).last() as u32) - 48) as nat);
    }
}

/// `str::parse::<uN>()` where `max` is the largest value of `uN`.
pub fn parse_unsigned_chars(s: &Vec<char>, max: u64) -> (r: Option<u64>)
    ensures
        r matches Some(v) ==> parse_unsigned(s@, max as nat) == Some(v as nat),
        r is None ==> parse_unsigned(s@, max as nat) is None,
{
    let start: usize = if s.len() > 0 && s[0] == '+' {
        1
    } else {
        0
    };
    let ghost d = unsigned_digits(s@);
    assert(d =~= s@.skip(start as int));
    if start >= s.len() {
        return None;
    }
    let mut acc: u64 = 0;
    let mut i: usize = start;
    while i < s.len()
        invariant
            start <= i <= s.len(),
            start < s.len(),
            d =~= s@.skip(start as int),
            d == unsigned_digits(s@),
            acc as nat == digits_value(d.take(i - start)),
            acc <= max,
            all_ascii_digits(d.take(i - start)),
        decreases s.len() - i,
    {
        let c = s[i];
        let cv = c as u32;
        if cv < 48 || cv > 57 {
            assert(d[i - start] == c);
            assert(!is_ascii_digit(d[i - start]));
            assert(!all_ascii_digits(d));
            return None;
        }
        let next: u128 = (acc as u128) * 10 + ((cv - 48) as u128);
        proof {
            let t = d.take(i - start + 1);
            assert(t.drop_last() =~= d.take(i - start));
            assert(t.last() == c);
            assert(all_ascii_digits(t)) by {
                assert forall|j: int| 0 <= j < t.len() implies is_ascii_digit(#[trigger] t[j]) by {
                    if j < t.len() - 1 {
                        assert(t[j] == d.take(i - start)[j]);
                    }
                }
            }
            assert(next == digits_value(t));
        }
        if next > max as u128 {
            proof {
                if all_ascii_digits(d) {
                    lemma_digits_value_prefix(d, i - start + 1);
                }
            }
            return None;
        }
        acc = next as u64;
        i = i + 1;
    }
    assert(d.take(s.len() - start) =~= d);
    Some(acc)
}

// ─── Substring search ────────────────────────────────────────────────────────

pub open spec fn occurs_at(h: Seq<char>, n: Seq<char>, i: int) -> bool {
    0 <= i && i + n.len() <= h.len() && h.subrange(i, i + n.len()) == n
}

/// `str::contains` with a string pattern.
pub open spec fn contains(h: Seq<char>, n: Seq<char>) -> bool {
    exists|i: int| occurs_at(h, n, i)
}

pub fn matches_at(h: &Vec<char>, n: &Vec<char>, i: usize) -> (r: bool)
    ensures
        r == occurs_at(h@, n@, i as int),
{
    if n.len() > h.len() || i > h.len() - n.len() {
        return false;
    }
    let mut k: usize = 0;
    while k < n.len()
        invariant
            k <= n.len(),
            i + n.len() <= h.len(),
            forall|m: int| 0 <= m < k ==> h@[i + m] == n@[m],
        decreases n.len() - k,
    {
        if h[i + k] != n[k] {
            assert(h@.subrange(i as int, i + n.len())[k as int] != n@[k as int]);
            return false;
        }
        k = k + 1;
    }
    assert(h@.subrange(i as int, i + n.len()) =~= n@);
    true
}

pub fn contains_chars(h: &Vec<char>, n: &Vec<char>) -> (r: bool)
    ensures
        r == contains(h@, n@),
{
    if n.len() > h.len() {
        return false;
    }
    if n.len() == 0 {
        assert(h@.subrange(0, 0) =~= n@);
        assert(occurs_at(h@, n@, 0));
        return true;
    }
    let last = h.len() - n.len();
    let mut i: usize = 0;
    while i <= last
        invariant
            last == h.len() - n.len(),
            last < h.len(),
            i <= last + 1,
            forall|j: int| 0 <= j < i ==> !occurs_at(h@, n@, j),
        decreases last + 1 - i,
    {
        if matches_at(h, n, i) {
            return true;
        }
        i = i + 1;
    }
    true && {
        assert forall|j: int| !occurs_at(h@, n@, j) by {
            if 0 <= j && j < i {
            }
        }
        false
    }
}

// ─── Case mapping (Unicode, as std does it) ──────────────────────────────────

/// What `str::to_lowercase` returns for a string.
pub uninterp spec fn str_lowercase(s: Seq<char>) -> Seq<char>;

/// What `str::to_uppercase` returns for a string.
pub uninterp spec fn str_uppercase(s: Seq<char>) -> Seq<char>;

/// `str::to_lowercase` as far as it is known: on ASCII text the ASCII
/// lower-casing, elsewhere the Unicode mapping.
pub open spec fn text_lowercase(s: Seq<char>) -> Seq<char> {
    if is_ascii_text(s) {
        s.map_values(|c: char| ascii_lower(c))
    } else {
        str_lowercase(s)
    }
}

/// ASCII lower-casing of one character: `A`..`Z` become `a`..`z`.
pub open spec fn ascii_lower(c: char) -> char {
    if 65 <= (c as u32) && (c as u32) <= 90 {
        ((c as u32) + 32) as char
    } else {
        c
    }
}

/// An ASCII lower-case letter, `a`..`z`.
pub open spec fn is_ascii_lower_letter(c: char) -> bool {
    97 <= (c as u32) && (c as u32) <= 122
}

/// ASCII upper-casing of one character: `a`..`z` become `A`..`Z`.
pub open spec fn ascii_upper(c: char) -> char {
    if 97 <= (c as u32) && (c as u32) <= 122 {
        ((c as u32) - 32) as char
    } else {
        c
    }
}

pub open spec fn is_ascii_text(s: Seq<char>) -> bool {
    forall|i: int| 0 <= i < s.len() ==> (#[trigger] s[i] as u32) < 128
}

/// Calls `str::to_lowercase`. Claimed: the result is a function of the input
/// characters alone, named `str_lowercase`, and on ASCII text it is the ASCII
/// lower-casing (`A`..`Z` to `a`..`z`, every other character kept), as the
/// Unicode lowercase mapping of ASCII characters is; nothing more is stated
/// of the mapping of other characters.
#[verifier::external_body]
pub(crate) fn to_lowercase(s: &Vec<char>) -> (r: Vec<char>)
    ensures
        r@ == str_lowercase(s@),
        is_ascii_text(s@) ==> r@ == s@.map_values(|c: char| ascii_lower(c)),
{
    let st: String = s.iter().collect();
    st.to_lowercase().chars().collect()
}

/// Calls `str::to_uppercase`. Claimed: the result is a function of the input
/// characters alone, named `str_uppercase`; on ASCII text it is the ASCII
/// upper-casing (`a`..`z` to `A`..`Z`, every other character kept), as the
/// Unicode uppercase mapping of ASCII characters is; and the result holds no
/// ASCII lower-case letter, since std gives the uppercase equivalent under
/// Unicode's mapping, which takes each of `a`..`z` to its capital and takes
/// no character to one of them. Nothing more is stated of the mapping of
/// other characters.
#[verifier::external_body]
pub(crate) fn to_uppercase(s: &Vec<char>) -> (r: Vec<char>)
    ensures
        r@ == str_uppercase(s@),
        is_ascii_text(s@) ==> r@ == s@.map_values(|c: char| ascii_upper(c)),
        forall|i: int| 0 <= i < r@.len() ==> !is_ascii_lower_letter(#[trigger] r@[i]),
{
    let st: String = s.iter().collect();
    st.to_uppercase().chars().collect()
}

// ─── Conversions between `str` and characters ────────────────────────────────

/// Calls `str::chars` and collects them: the characters of `s`, in order.
#[verifier::external_body]
pub(crate) fn chars_of(s: &str) -> (r: Vec<char>)
    ensures
        r@ == s@,
{
    s.chars().collect()
}

/// Collects characters into a `String` (`FromIterator<char>`): the string of
/// exactly those characters.
#[verifier::external_body]
pub(crate) fn string_of(v: &Vec<char>) -> (r: String)
    ensures
        r@ == v@,
{
    v.iter().collect()
}


// ─── Small vector helpers ────────────────────────────────────────────────────

/// Appends all of `w` to `v`.
pub fn append_chars(v: &mut Vec<char>, w: Vec<char>)
    ensures
        final(v)@ == old(v)@ + w@,
{
    let mut i: usize = 0;
    let ghost start = v@;
    while i < w.len()
        invariant
            i <= w.len(),
            v@ == start + w@.take(i as int),
        decreases w.len() - i,
    {
        v.push(w[i]);
        i = i + 1;
        assert(start + w@.take(i as int) =~= (start + w@.take(i - 1)).push(w@[i - 1]));
    }
    assert(w@.take(w.len() as int) =~= w@);
}

/// Character-wise equality.
pub fn chars_eq(a: &Vec<char>, b: &Vec<char>) -> (r: bool)
    ensures
        r == (a@ == b@),
{
    if a.len() != b.len() {
        return false;
    }
    let mut i: usize = 0;
    while i < a.len()
        invariant
            i <= a.len(),
            a.len() == b.len(),
            forall|k: int| 0 <= k < i ==> a@[k] == b@[k],
        decreases a.len() - i,
    {
        if a[i] != b[i] {
            return false;
        }
        i = i + 1;
    }
    assert(a@ =~= b@);
    true
}

/// Equality of two optional strings by their characters.
pub fn opt_string_eq(a: &Option<String>, b: &Option<String>) -> (r: bool)
    ensures
        r == (opt_view(*a) == opt_view(*b)),
{
    match (a, b) {
        (None, None) => true,
        (Some(x), Some(y)) => x.eq(y),
        _ => false,
    }
}

pub open spec fn opt_view(a: Option<String>) -> Option<Seq<char>> {
    match a {
        Some(s) => Some(s@),
        None => None,
    }
}

/// Equality of two string lists by their characters.
pub fn strings_eq(a: &Vec<String>, b: &Vec<String>) -> (r: bool)
    ensures
        r == (a.deep_view() == b.deep_view()),
{
    if a.len() != b.len() {
        assert(a.deep_view().len() != b.deep_view().len());
        return false;
    }
    let mut i: usize = 0;
    while i < a.len()
        invariant
            i <= a.len(),
            a.len() == b.len(),
            forall|k: int| 0 <= k < i ==> a@[k]@ == b@[k]@,
        decreases a.len() - i,
    {
        if a[i] != b[i] {
            assert(a.deep_view()[i as int] != b.deep_view()[i as int]);
            return false;
        }
        i = i + 1;
    }
    assert(a.deep_view() =~= b.deep_view());
    true
}

/// A `String` copy with the same characters.
pub fn copy_string(s: &String) -> (r: String)
    ensures
        r@ == s@,
{
    s.clone()
}

pub fn copy_opt_string(s: &Option<String>) -> (r: Option<String>)
    ensures
        opt_view(r) == opt_view(*s),
{
    match s {
        Some(x) => Some(x.clone()),
        None => None,
    }
}


// ─── Searching for a character ───────────────────────────────────────────────

/// Index of the first occurrence of `c` in `s`, from `from` on.
pub open spec fn find_char(s: Seq<char>, c: char, from: int) -> Option<int>
    decreases s.len() - from,
{
    if from < 0 || from >= s.len() {
        None
    } else if s[from] == c {
        Some(from)
    } else {
        find_char(s, c, from + 1)
    }
}

pub fn find_char_exec(s: &Vec<char>, c: char) -> (r: Option<usize>)
    ensures
        r matches Some(i) ==> find_char(s@, c, 0) == Some(i as int) && i < s.len(),
        r is None ==> find_char(s@, c, 0) is None,
{
    let mut i: usize = 0;
    while i < s.len()
        invariant
            i <= s.len(),
            find_char(s@, c, 0) == find_char(s@, c, i as int),
        decreases s.len() - i,
    {
        if s[i] == c {
            return Some(i);
        }
        i = i + 1;
    }
    None
}

/// `str::contains` with a single character.
pub open spec fn has_char(s: Seq<char>, c: char) -> bool {
    exists|i: int| 0 <= i < s.len() && s[i] == c
}

pub fn has_char_exec(s: &Vec<char>, c: char) -> (r: bool)
    ensures
        r == has_char(s@, c),
{
    let mut i: usize = 0;
    while i < s.len()
        invariant
            i <= s.len(),
            forall|k: int| 0 <= k < i ==> s@[k] != c,
        decreases s.len() - i,
    {
        if s[i] == c {
            return true;
        }
        i = i + 1;
    }
    false
}

/// The characters of `s` from `from` up to `to`.
pub fn slice_chars(s: &Vec<char>, from: usize, to: usize) -> (r: Vec<char>)
    requires
        from <= to <= s.len(),
    ensures
        r@ == s@.subrange(from as int, to as int),
{
    let mut r: Vec<char> = Vec::new();
    let mut k: usize = from;
    while k < to
        invariant
            from <= k <= to <= s.len(),
            r@ =~= s@.subrange(from as int, k as int),
        decreases to - k,
    {
        r.push(s[k]);
        k = k + 1;
    }
    r
}

/// Whether the characters equal those of a string literal.
pub fn is_text(s: &Vec<char>, lit: &str) -> (r: bool)
    ensures
        r == (s@ == lit@),
{
    chars_eq(s, &chars_of(lit))
}


/// `c` repeated `n` times.
pub open spec fn repeated(c: char, n: nat) -> Seq<char> {
    Seq::new(n, |i: int| c)
}

pub fn repeat_char(c: char, n: usize) -> (r: Vec<char>)
    ensures
        r@ == repeated(c, n as nat),
{
    let mut v: Vec<char> = Vec::new();
    let mut i: usize = 0;
    while i < n
        invariant
            i <= n,
            v@ =~= repeated(c, i as nat),
        decreases n - i,
    {
        v.push(c);
        i = i + 1;
    }
    v
}

// ─── Joining ─────────────────────────────────────────────────────────────────

/// `parts.join(sep)`.
pub open spec fn joined(parts: Seq<Seq<char>>, sep: Seq<char>) -> Seq<char>
    decreases parts.len(),
{
    if parts.len() == 0 {
        seq![]
    } else if parts.len() == 1 {
        parts[0]
    } else {
        joined(parts.drop_last(), sep) + sep + parts.last()
    }
}

/// `parts.join("\n")`.
pub fn join_lines(parts: &Vec<String>) -> (r: String)
    ensures
        r@ == joined(parts.deep_view(), seq!['\n']),
{
    let mut v: Vec<char> = Vec::new();
    let mut i: usize = 0;
    while i < parts.len()
        invariant
            i <= parts.len(),
            v@ == joined(parts.deep_view().take(i as int), seq!['\n']),
        decreases parts.len() - i,
    {
        let ghost prev = parts.deep_view().take(i as int);
        if i > 0 {
            v.push('\n');
        }
        let ghost before = v@;
        append_chars(&mut v, chars_of(parts[i].as_str()));
        proof {
            let next = parts.deep_view().take(i + 1);
            assert(next.drop_last() =~= prev);
            assert(next.last() == parts@[i as int]@);
            if i == 0 {
                assert(v@ =~= next[0]);
            } else {
                assert(v@ =~= joined(prev, seq!['\n']) + seq!['\n'] + next.last());
            }
        }
        i = i + 1;
    }
    assert(parts.deep_view().take(parts.len() as int) =~= parts.deep_view());
    string_of(&v)
}

} // verus!

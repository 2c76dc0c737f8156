//! The character classes and text scanning that the summary parser reads
//! router output with: lines, runs of whitespace / non-whitespace / digits,
//! where a digit is what the regular-expression class `\d` matches (Unicode
//! decimal digits).

use vstd::prelude::*;

use crate::text::{
    chars_of, find_char, find_char_exec, is_ascii_digit, is_whitespace_char, is_ws, string_of,
};

verus! {

/// What the Unicode-aware regular-expression class `\d` (general category
/// `Nd`) says of a non-ASCII character.
pub uninterp spec fn regex_unicode_digit(c: char) -> bool;

/// Calls `regex::Regex::is_match` with the class `\d` on one character.
/// Claimed: the answer is a function of the character alone, named
/// `regex_unicode_digit`. Only called on non-ASCII characters.
#[verifier::external_body]
fn regex_class_digit(c: char) -> (r: bool)
    ensures
        r == regex_unicode_digit(c),
{
    let mut buf = [0u8; 4];
    regex::Regex::new(r"\A\d\z").unwrap().is_match(c.encode_utf8(&mut buf))
}

/// A character that `\d` matches: an ASCII digit, or a non-ASCII decimal
/// digit.
pub open spec fn is_rdigit(c: char) -> bool {
    if (c as u32) < 128 {
        is_ascii_digit(c)
    } else {
        regex_unicode_digit(c)
    }
}

pub fn rdigit(c: char) -> (r: bool)
    ensures
        r == is_rdigit(c),
{
    let v = c as u32;
    if v < 128 {
        48 <= v && v <= 57
    } else {
        regex_class_digit(c)
    }
}

/// Kinds of character runs.
pub enum Class {
    Space,
    NonSpace,
    Digit,
}

pub open spec fn in_class(c: char, k: Class) -> bool {
    match k {
        Class::Space => is_ws(c),
        Class::NonSpace => !is_ws(c),
        Class::Digit => is_rdigit(c),
    }
}

/// Length of the run of characters of class `k` that starts at `p`.
pub open spec fn run(s: Seq<char>, p: int, k: Class) -> nat
    decreases s.len() - p,
{
    if 0 <= p < s.len() && in_class(s[p], k) {
        1 + run(s, p + 1, k)
    } else {
        0
    }
}

pub proof fn lemma_run_exact(s: Seq<char>, p: int, n: int, k: Class)
    requires
        0 <= p,
        0 <= n,
        p + n <= s.len(),
        forall|j: int| p <= j < p + n ==> in_class(#[trigger] s[j], k),
        p + n < s.len() ==> !in_class(s[p + n], k),
    ensures
        run(s, p, k) == n,
    decreases n,
{
    if n > 0 {
        lemma_run_exact(s, p + 1, n - 1, k);
    }
}

pub proof fn lemma_run_facts(s: Seq<char>, p: int, k: Class)
    requires
        0 <= p <= s.len(),
    ensures
        p + run(s, p, k) <= s.len(),
        forall|j: int| p <= j < p + run(s, p, k) ==> in_class(#[trigger] s[j], k),
        p + run(s, p, k) < s.len() ==> !in_class(s[p + run(s, p, k)], k),
    decreases s.len() - p,
{
    if p < s.len() && in_class(s[p], k) {
        lemma_run_facts(s, p + 1, k);
    }
}

fn char_in_class(c: char, k: u8) -> (r: bool)
    requires
        k < 3,
    ensures
        r == in_class(
            c,
            if k == 0 {
                Class::Space
            } else if k == 1 {
                Class::NonSpace
            } else {
                Class::Digit
            },
        ),
{
    if k == 0 {
        is_whitespace_char(c)
    } else if k == 1 {
        !is_whitespace_char(c)
    } else {
        rdigit(c)
    }
}

/// `run` on a character vector.
pub fn run_exec(s: &Vec<char>, p: usize, k: u8) -> (r: usize)
    requires
        p <= s.len(),
        k < 3,
    ensures
        r == run(
            s@,
            p as int,
            if k == 0 {
                Class::Space
            } else if k == 1 {
                Class::NonSpace
            } else {
                Class::Digit
            },
        ),
        p + r <= s.len(),
{
    let ghost cls = if k == 0 {
        Class::Space
    } else if k == 1 {
        Class::NonSpace
    } else {
        Class::Digit
    };
    let mut q: usize = p;
    while q < s.len() && char_in_class(s[q], k)
        invariant
            p <= q <= s.len(),
            k < 3,
            cls == (if k == 0 {
                Class::Space
            } else if k == 1 {
                Class::NonSpace
            } else {
                Class::Digit
            }),
            forall|j: int| p <= j < q ==> in_class(#[trigger] s@[j], cls),
        decreases s.len() - q,
    {
        q = q + 1;
    }
    proof {
        lemma_run_exact(s@, p as int, (q - p) as int, cls);
    }
    q - p
}

// ─── Lines ───────────────────────────────────────────────────────────────────

/// A line that ended with `\n` loses one `\r` before it.
pub open spec fn strip_cr(l: Seq<char>) -> Seq<char> {
    if l.len() > 0 && l.last() == '\r' {
        l.drop_last()
    } else {
        l
    }
}

pub proof fn lemma_find_char_bounds(s: Seq<char>, c: char, from: int)
    ensures
        find_char(s, c, from) matches Some(k) ==> from <= k < s.len() && s[k] == c,
    decreases s.len() - from,
{
    if 0 <= from < s.len() && s[from] != c {
        lemma_find_char_bounds(s, c, from + 1);
    }
}

/// The lines from position `i` on, as `str::lines` yields them.
pub open spec fn lines_from(s: Seq<char>, i: int) -> Seq<Seq<char>>
    decreases s.len() - i,
{
    if i < 0 || i >= s.len() {
        seq![]
    } else {
        match find_char(s, '\n', i) {
            None => seq![s.skip(i)],
            Some(k) => {
                proof {
                    lemma_find_char_bounds(s, '\n', i);
                }
                seq![strip_cr(s.subrange(i, k))] + lines_from(s, k + 1)
            },
        }
    }
}

/// `str::lines`.
pub open spec fn lines(s: Seq<char>) -> Seq<Seq<char>> {
    lines_from(s, 0)
}

proof fn lemma_find_char_from(s: Seq<char>, c: char, i: int, j: int)
    requires
        0 <= i <= j <= s.len(),
        forall|m: int| i <= m < j ==> s[m] != c,
    ensures
        find_char(s, c, i) == find_char(s, c, j),
    decreases j - i,
{
    if i < j {
        lemma_find_char_from(s, c, i + 1, j);
    }
}

/// Finds `c` from position `i` on.
fn find_from(s: &Vec<char>, c: char, i: usize) -> (r: Option<usize>)
    requires
        i <= s.len(),
    ensures
        r matches Some(k) ==> find_char(s@, c, i as int) == Some(k as int) && i <= k < s.len(),
        r is None ==> find_char(s@, c, i as int) is None,
{
    let mut k: usize = i;
    while k < s.len()
        invariant
            i <= k <= s.len(),
            forall|m: int| i <= m < k ==> s@[m] != c,
        decreases s.len() - k,
    {
        if s[k] == c {
            proof {
                lemma_find_char_from(s@, c, i as int, k as int);
            }
            return Some(k);
        }
        k = k + 1;
    }
    proof {
        lemma_find_char_from(s@, c, i as int, k as int);
    }
    None
}

/// `str::lines` on a character vector.
pub fn split_lines(s: &Vec<char>) -> (r: Vec<Vec<char>>)
    ensures
        r.deep_view() == lines(s@),
{
    let mut r: Vec<Vec<char>> = Vec::new();
    let mut i: usize = 0;
    while i < s.len()
        invariant
            i <= s.len(),
            r.deep_view() + lines_from(s@, i as int) == lines(s@),
        decreases s.len() - i,
    {
        let ghost old_r = r.deep_view();
        let ghost old_rv = r@;
        match find_from(s, '\n', i) {
            None => {
                let mut line: Vec<char> = Vec::new();
                let mut k: usize = i;
                while k < s.len()
                    invariant
                        i <= k <= s.len(),
                        line@ =~= s@.subrange(i as int, k as int),
                    decreases s.len() - k,
                {
                    line.push(s[k]);
                    k = k + 1;
                }
                assert(line@ =~= s@.skip(i as int));
                r.push(line);
                proof {
                    assert forall|m: int| 0 <= m < r.len() implies #[trigger] r.deep_view()[m]
                        == old_r.push(line@)[m] by {
                        if m < old_rv.len() {
                            assert(r@[m] == old_rv[m]);
                        }
                    }
                    assert(r.deep_view() =~= old_r.push(line@));
                    assert(lines_from(s@, s.len() as int) =~= Seq::<Seq<char>>::empty());
                    assert(old_r + seq![s@.skip(i as int)] =~= old_r.push(line@) + Seq::<
                        Seq<char>,
                    >::empty());
                }
                i = s.len();
            },
            Some(k) => {
                let mut end: usize = k;
                if end > i && s[end - 1] == '\r' {
                    end = end - 1;
                }
                let mut line: Vec<char> = Vec::new();
                let mut m: usize = i;
                while m < end
                    invariant
                        i <= m <= end <= k < s.len(),
                        line@ =~= s@.subrange(i as int, m as int),
                    decreases end - m,
                {
                    line.push(s[m]);
                    m = m + 1;
                }
                proof {
                    let seg = s@.subrange(i as int, k as int);
                    if k > i && s@[k - 1] == '\r' {
                        assert(strip_cr(seg) =~= line@);
                    } else {
                        assert(strip_cr(seg) =~= line@);
                    }
                }
                r.push(line);
                proof {
                    assert forall|q: int| 0 <= q < r.len() implies #[trigger] r.deep_view()[q]
                        == old_r.push(line@)[q] by {
                        if q < old_rv.len() {
                            assert(r@[q] == old_rv[q]);
                        }
                    }
                    assert(r.deep_view() =~= old_r.push(line@));
                    assert(old_r + (seq![line@] + lines_from(s@, k + 1)) =~= old_r.push(line@)
                        + lines_from(s@, k + 1));
                }
                i = k + 1;
            },
        }
    }
    proof {
        assert(lines_from(s@, i as int) =~= Seq::<Seq<char>>::empty());
        assert(r.deep_view() + Seq::<Seq<char>>::empty() =~= r.deep_view());
    }
    r
}

/// `s.lines().map(|l| l.to_string()).collect()`.
pub fn string_lines(s: &String) -> (r: Vec<String>)
    ensures
        r.deep_view() == lines(s@),
{
    let parts = split_lines(&chars_of(s.as_str()));
    let mut r: Vec<String> = Vec::new();
    let mut i: usize = 0;
    while i < parts.len()
        invariant
            i <= parts.len(),
            r.len() == i,
            forall|j: int| 0 <= j < i ==> #[trigger] r@[j]@ == parts@[j]@,
        decreases parts.len() - i,
    {
        r.push(string_of(&parts[i]));
        i = i + 1;
    }
    assert forall|j: int| 0 <= j < r.len() implies #[trigger] r.deep_view()[j]
        == parts.deep_view()[j] by {
        assert(parts@[j].deep_view() =~= parts@[j]@);
    }
    assert(r.deep_view() =~= parts.deep_view());
    r
}

} // verus!

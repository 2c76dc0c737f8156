//! Policy object names derived from a BGP neighbor's description field.
//!
//! Convention: uppercase, non-alphanumeric characters replaced with dashes,
//! consecutive dashes collapsed, leading/trailing dashes trimmed.

use vstd::prelude::*;

use crate::text::{
    append_chars, chars_of, is_ascii_alnum, str_uppercase, string_of, to_uppercase, trim,
    trim_chars,
};

verus! {

#[derive(Debug, Clone)]
pub struct PolicyNames {
    pub rm_in: String,
    pub rm_out: String,
    pub pl_in: String,
    pub pl_out: String,
}

/// Left-to-right scan of the upper-cased text: ASCII letters and digits are
/// kept, every other character becomes a dash unless the previous output was
/// a dash (or nothing has been output yet). Gives the output and whether the
/// last step ended on a dash.
pub open spec fn dash_scan(u: Seq<char>) -> (Seq<char>, bool)
    decreases u.len(),
{
    if u.len() == 0 {
        (seq![], true)
    } else {
        let (r, pd) = dash_scan(u.drop_last());
        let c = u.last();
        if is_ascii_alnum(c) {
            (r.push(c), false)
        } else if !pd {
            (r.push('-'), true)
        } else {
            (r, pd)
        }
    }
}

/// `trim_end_matches('-')`.
pub open spec fn trim_end_dashes(s: Seq<char>) -> Seq<char>
    decreases s.len(),
{
    if s.len() > 0 && s.last() == '-' {
        trim_end_dashes(s.drop_last())
    } else {
        s
    }
}

/// The tag that names the policy objects of a neighbor with this description.
pub open spec fn sanitized(desc: Seq<char>) -> Seq<char> {
    trim_end_dashes(dash_scan(str_uppercase(trim(desc))).0)
}

/// An ASCII lower-case letter.
pub open spec fn is_ascii_lower(c: char) -> bool {
    97 <= (c as u32) && (c as u32) <= 122
}

/// An ASCII capital letter or digit.
pub open spec fn is_ascii_upper_or_digit(c: char) -> bool {
    let v = c as u32;
    (48 <= v && v <= 57) || (65 <= v && v <= 90)
}

/// The tag of a description: only capital letters, digits and dashes.
pub fn sanitize_description(desc: &str) -> (r: String)
    ensures
        r@ == sanitized(desc@),
        forall|i: int|
            0 <= i < r@.len() ==> is_ascii_upper_or_digit(#[trigger] r@[i]) || r@[i] == '-',
{
    let upper = to_uppercase(&trim_chars(&chars_of(desc)));
    let mut result: Vec<char> = Vec::new();
    let mut prev_dash: bool = true;
    let mut i: usize = 0;
    while i < upper.len()
        invariant
            i <= upper.len(),
            dash_scan(upper@.take(i as int)) == (result@, prev_dash),
        decreases upper.len() - i,
    {
        let c = upper[i];
        proof {
            assert(upper@.take(i + 1).drop_last() =~= upper@.take(i as int));
        }
        let v = c as u32;
        if (48 <= v && v <= 57) || (65 <= v && v <= 90) || (97 <= v && v <= 122) {
            result.push(c);
            prev_dash = false;
        } else if !prev_dash {
            result.push('-');
            prev_dash = true;
        }
        i = i + 1;
    }
    assert(upper@.take(upper.len() as int) =~= upper@);
    let mut end: usize = result.len();
    assert(result@.take(end as int) =~= result@);
    while end > 0 && result[end - 1] == '-'
        invariant
            end <= result.len(),
            trim_end_dashes(result@) == trim_end_dashes(result@.take(end as int)),
        decreases end,
    {
        proof {
            assert(result@.take(end as int).drop_last() =~= result@.take(end - 1));
        }
        end = end - 1;
    }
    let mut out: Vec<char> = Vec::new();
    let mut k: usize = 0;
    while k < end
        invariant
            k <= end <= result.len(),
            out@ =~= result@.take(k as int),
        decreases end - k,
    {
        out.push(result[k]);
        k = k + 1;
    }
    proof {
        assert(result@.take(result.len() as int) =~= result@);
        assert(out@ =~= result@.take(end as int));
        assert forall|i: int| 0 <= i < upper@.len() implies !is_ascii_lower(#[trigger] upper@[i]) by {
            assert(!crate::text::is_ascii_lower_letter(upper@[i]));
        }
        lemma_dash_scan_no_lower(upper@);
        assert(result@ == dash_scan(upper@).0);
        lemma_dash_scan_shape(upper@);
        assert forall|i: int| 0 <= i < out@.len() implies is_ascii_upper_or_digit(#[trigger] out@[i])
            || out@[i] == '-' by {
            assert(out@[i] == result@[i]);
            assert(result@[i] == dash_scan(upper@).0[i]);
            assert(!is_ascii_lower(dash_scan(upper@).0[i]));
        }
    }
    string_of(&out)
}

/// Letters and dashes the scan outputs come from its input or are dashes,
/// so a text without lower-case letters gives none.
proof fn lemma_dash_scan_no_lower(u: Seq<char>)
    requires
        forall|i: int| 0 <= i < u.len() ==> !is_ascii_lower(#[trigger] u[i]),
    ensures
        forall|i: int| 0 <= i < dash_scan(u).0.len() ==> !is_ascii_lower(#[trigger] dash_scan(u).0[i]),
    decreases u.len(),
{
    if u.len() > 0 {
        assert forall|i: int| 0 <= i < u.drop_last().len() implies !is_ascii_lower(
            #[trigger] u.drop_last()[i],
        ) by {
            assert(u.drop_last()[i] == u[i]);
        }
        lemma_dash_scan_no_lower(u.drop_last());
        let (r, pd) = dash_scan(u.drop_last());
        assert(!is_ascii_lower(u[u.len() - 1]));
        assert forall|i: int| 0 <= i < dash_scan(u).0.len() implies !is_ascii_lower(
            #[trigger] dash_scan(u).0[i],
        ) by {
            if i < r.len() {
                assert(dash_scan(u).0[i] == r[i]);
            }
        }
    }
}

/// `prefix + tag + suffix`.
pub open spec fn framed(prefix: Seq<char>, tag: Seq<char>, suffix: Seq<char>) -> Seq<char> {
    prefix + tag + suffix
}

fn frame(prefix: &str, tag: &Vec<char>, suffix: &str) -> (r: String)
    ensures
        r@ == framed(prefix@, tag@, suffix@),
{
    let mut v = chars_of(prefix);
    append_chars(&mut v, tag.clone());
    append_chars(&mut v, chars_of(suffix));
    string_of(&v)
}

pub fn generate_policy_names(description: &str) -> (r: PolicyNames)
    ensures
        r.rm_in@ == framed("RM-"@, sanitized(description@), "-IN"@),
        r.rm_out@ == framed("RM-"@, sanitized(description@), "-OUT"@),
        r.pl_in@ == framed("PL-"@, sanitized(description@), "-IN"@),
        r.pl_out@ == framed("PL-"@, sanitized(description@), "-OUT"@),
{
    let tag = chars_of(sanitize_description(description).as_str());
    PolicyNames {
        rm_in: frame("RM-", &tag, "-IN"),
        rm_out: frame("RM-", &tag, "-OUT"),
        pl_in: frame("PL-", &tag, "-IN"),
        pl_out: frame("PL-", &tag, "-OUT"),
    }
}

proof fn lemma_dash_scan_shape(u: Seq<char>)
    ensures
        forall|i: int|
            0 <= i < dash_scan(u).0.len() ==> is_ascii_alnum(#[trigger] dash_scan(u).0[i])
                || dash_scan(u).0[i] == '-',
        dash_scan(u).0.len() > 0 ==> dash_scan(u).0[0] != '-',
        forall|i: int|
            0 <= i < dash_scan(u).0.len() - 1 ==> !(#[trigger] dash_scan(u).0[i] == '-'
                && dash_scan(u).0[i + 1] == '-'),
        dash_scan(u).1 <==> (dash_scan(u).0.len() == 0 || dash_scan(u).0.last() == '-'),
    decreases u.len(),
{
    if u.len() > 0 {
        lemma_dash_scan_shape(u.drop_last());
        let (r, pd) = dash_scan(u.drop_last());
        let c = u.last();
        if is_ascii_alnum(c) {
            assert(dash_scan(u).0 == r.push(c));
            assert forall|i: int| 0 <= i < r.push(c).len() - 1 implies !(#[trigger] r.push(c)[i]
                == '-' && r.push(c)[i + 1] == '-') by {
                if i + 1 < r.len() {
                    assert(r.push(c)[i] == r[i] && r.push(c)[i + 1] == r[i + 1]);
                }
            }
        } else if !pd {
            assert(dash_scan(u).0 == r.push('-'));
            assert forall|i: int| 0 <= i < r.push('-').len() - 1 implies !(
            #[trigger] r.push('-')[i] == '-' && r.push('-')[i + 1] == '-') by {
                if i + 1 < r.len() {
                    assert(r.push('-')[i] == r[i] && r.push('-')[i + 1] == r[i + 1]);
                }
            }
        }
    }
}

proof fn lemma_trim_end_dashes_shape(s: Seq<char>)
    ensures
        trim_end_dashes(s).len() <= s.len(),
        trim_end_dashes(s) == s.take(trim_end_dashes(s).len() as int),
        trim_end_dashes(s).len() > 0 ==> trim_end_dashes(s).last() != '-',
    decreases s.len(),
{
    if s.len() > 0 && s.last() == '-' {
        lemma_trim_end_dashes_shape(s.drop_last());
        let t = trim_end_dashes(s.drop_last());
        assert(s.drop_last().take(t.len() as int) =~= s.take(t.len() as int));
    } else {
        assert(s.take(s.len() as int) =~= s);
    }
}

/// The naming convention: a tag holds only ASCII letters, digits and dashes,
/// never starts or ends with a dash and never holds two dashes in a row.
pub proof fn law_sanitized_shape(desc: Seq<char>)
    ensures
        forall|i: int|
            0 <= i < sanitized(desc).len() ==> is_ascii_alnum(#[trigger] sanitized(desc)[i])
                || sanitized(desc)[i] == '-',
        sanitized(desc).len() > 0 ==> sanitized(desc)[0] != '-' && sanitized(desc).last() != '-',
        forall|i: int|
            0 <= i < sanitized(desc).len() - 1 ==> !(#[trigger] sanitized(desc)[i] == '-'
                && sanitized(desc)[i + 1] == '-'),
{
    let u = str_uppercase(trim(desc));
    lemma_dash_scan_shape(u);
    let r = dash_scan(u).0;
    lemma_trim_end_dashes_shape(r);
    let t = sanitized(desc);
    assert forall|i: int| 0 <= i < t.len() implies is_ascii_alnum(#[trigger] t[i]) || t[i]
        == '-' by {
        assert(t[i] == r[i]);
    }
    if t.len() > 0 {
        assert(t[0] == r[0]);
    }
    assert forall|i: int| 0 <= i < t.len() - 1 implies !(#[trigger] t[i] == '-' && t[i + 1]
        == '-') by {
        assert(t[i] == r[i] && t[i + 1] == r[i + 1]);
    }
}

} // verus!

//! The log lines and status texts of background results: SSH sessions,
//! failed fetches, and applied (or failed) configuration changes.

use vstd::prelude::*;

use crate::app::helpers::{truncate_error, truncated_error};
use crate::text::{append_chars, chars_of, decimal, decimal_chars, joined, string_of};

verus! {

fn cat(a: Vec<char>, b: Vec<char>) -> (r: Vec<char>)
    ensures
        r@ == a@ + b@,
{
    let mut v = a;
    append_chars(&mut v, b);
    v
}

fn num(n: usize) -> (r: Vec<char>)
    ensures
        r@ == decimal(n as nat),
{
    decimal_chars(n as u64)
}

/// `parts.join(", ")`.
pub fn join_names(parts: &Vec<String>) -> (r: String)
    ensures
        r@ == joined(parts.deep_view(), ", "@),
{
    let mut v: Vec<char> = Vec::new();
    let mut i: usize = 0;
    while i < parts.len()
        invariant
            i <= parts.len(),
            v@ == joined(parts.deep_view().take(i as int), ", "@),
        decreases parts.len() - i,
    {
        let ghost prev = parts.deep_view().take(i as int);
        if i > 0 {
            append_chars(&mut v, chars_of(", "));
        }
        append_chars(&mut v, chars_of(parts[i].as_str()));
        proof {
            let next = parts.deep_view().take(i + 1);
            assert(next.drop_last() =~= prev);
            assert(next.last() == parts@[i as int]@);
            if i == 0 {
                assert(v@ =~= next[0]);
            }
        }
        i = i + 1;
    }
    assert(parts.deep_view().take(parts.len() as int) =~= parts.deep_view());
    string_of(&v)
}

/// The line after the SSH warm-up: all ready, or how many failed and which.
pub open spec fn warm_line(ready: nat, failed: Seq<Seq<char>>) -> Seq<char> {
    if failed.len() == 0 {
        "SSH ready: all "@ + decimal(ready) + " routers connected"@
    } else {
        "SSH warm: "@ + decimal(ready) + " OK, "@ + decimal(failed.len()) + " failed ("@ + joined(
            failed,
            ", "@,
        ) + ")"@
    }
}

pub fn warm_message(ready: usize, failed_names: &Vec<String>) -> (r: String)
    ensures
        r@ == warm_line(ready as nat, failed_names.deep_view()),
{
    if failed_names.len() == 0 {
        string_of(
            &cat(cat(chars_of("SSH ready: all "), num(ready)), chars_of(" routers connected")),
        )
    } else {
        let v = cat(cat(chars_of("SSH warm: "), num(ready)), chars_of(" OK, "));
        let v = cat(cat(v, num(failed_names.len())), chars_of(" failed ("));
        let v = cat(cat(v, chars_of(join_names(failed_names).as_str())), chars_of(")"));
        string_of(&v)
    }
}

/// The line of a health report: with the dead sessions when there are any,
/// with the re-warmed count when some were re-warmed, else none.
pub open spec fn health_line(healthy: nat, rewarmed: nat, dead: Seq<Seq<char>>) -> Option<
    Seq<char>,
> {
    if dead.len() > 0 {
        Some(
            "SSH health: "@ + decimal(healthy) + " healthy, "@ + decimal(rewarmed)
                + " re-warmed, "@ + decimal(dead.len()) + " dead ("@ + joined(dead, ", "@) + ")"@,
        )
    } else if rewarmed > 0 {
        Some("SSH health: "@ + decimal(healthy) + " healthy, "@ + decimal(rewarmed) + " re-warmed"@)
    } else {
        None
    }
}

pub fn health_message(healthy: usize, rewarmed: usize, dead: &Vec<String>) -> (r: Option<String>)
    ensures
        crate::text::opt_view(r) == health_line(healthy as nat, rewarmed as nat, dead.deep_view()),
{
    if dead.len() > 0 {
        let v = cat(cat(chars_of("SSH health: "), num(healthy)), chars_of(" healthy, "));
        let v = cat(cat(v, num(rewarmed)), chars_of(" re-warmed, "));
        let v = cat(cat(v, num(dead.len())), chars_of(" dead ("));
        let v = cat(cat(v, chars_of(join_names(dead).as_str())), chars_of(")"));
        Some(string_of(&v))
    } else if rewarmed > 0 {
        let v = cat(cat(chars_of("SSH health: "), num(healthy)), chars_of(" healthy, "));
        let v = cat(cat(v, num(rewarmed)), chars_of(" re-warmed"));
        Some(string_of(&v))
    } else {
        None
    }
}

/// `s.strip_prefix(p).unwrap_or(s)`.
pub open spec fn without_prefix(s: Seq<char>, p: Seq<char>) -> Seq<char> {
    if s.len() >= p.len() && s.take(p.len() as int) == p {
        s.skip(p.len() as int)
    } else {
        s
    }
}

pub fn strip_prefix_or_keep(s: &String, p: &str) -> (r: String)
    ensures
        r@ == without_prefix(s@, p@),
{
    let sc = chars_of(s.as_str());
    let pc = chars_of(p);
    if sc.len() >= pc.len() {
        let head = crate::text::slice_chars(&sc, 0, pc.len());
        if crate::text::chars_eq(&head, &pc) {
            return string_of(&crate::text::slice_chars(&sc, pc.len(), sc.len()));
        }
    }
    string_of(&sc)
}

/// A failed fetch: the connection-log line and the router's error text
/// (the error without its "SSH error: " prefix, cut to 50 characters).
pub open spec fn fetch_failure_texts(name: Seq<char>, err: Seq<char>) -> (Seq<char>, Seq<char>) {
    (
        name + ": fetch failed \u{2014} "@ + truncated_error(err, 80),
        truncated_error(without_prefix(err, "SSH error: "@), 50),
    )
}

pub fn fetch_failure(name: &String, err: &String) -> (r: (String, String))
    ensures
        (r.0@, r.1@) == fetch_failure_texts(name@, err@),
{
    let short = truncate_error(err.as_str(), 80);
    let line = string_of(
        &cat(cat(chars_of(name.as_str()), chars_of(": fetch failed \u{2014} ")), chars_of(short.as_str())),
    );
    let status = strip_prefix_or_keep(err, "SSH error: ");
    (line, truncate_error(status.as_str(), 50))
}

/// After an applied change: the log line (also the status line) and the
/// wizard's result text.
pub open spec fn applied_texts(description: Seq<char>) -> (Seq<char>, Seq<char>) {
    ("Config applied: "@ + description, "Successfully applied: "@ + description)
}

pub fn applied_messages(description: &String) -> (r: (String, String))
    ensures
        (r.0@, r.1@) == applied_texts(description@),
{
    (
        string_of(&cat(chars_of("Config applied: "), chars_of(description.as_str()))),
        string_of(&cat(chars_of("Successfully applied: "), chars_of(description.as_str()))),
    )
}

/// After a failed change: the log line, the status line and the wizard's
/// result text.
pub open spec fn failed_texts(description: Seq<char>, error: Seq<char>) -> (
    Seq<char>,
    Seq<char>,
    Seq<char>,
) {
    (
        "Config FAILED ("@ + description + "): "@ + error,
        "Config failed: "@ + description,
        "Failed: "@ + error,
    )
}

pub fn failed_messages(description: &String, error: &String) -> (r: (String, String, String))
    ensures
        (r.0@, r.1@, r.2@) == failed_texts(description@, error@),
{
    let d = chars_of(description.as_str());
    let e = chars_of(error.as_str());
    (
        string_of(&cat(cat(cat(chars_of("Config FAILED ("), d), chars_of("): ")), e)),
        string_of(&cat(chars_of("Config failed: "), chars_of(description.as_str()))),
        string_of(&cat(chars_of("Failed: "), chars_of(error.as_str()))),
    )
}

/// A health report has a line exactly when some session is dead or was
/// re-warmed.
pub proof fn law_health_line_when(healthy: nat, rewarmed: nat, dead: Seq<Seq<char>>)
    ensures
        health_line(healthy, rewarmed, dead) is Some <==> (dead.len() > 0 || rewarmed > 0),
{
}

/// Stripping a prefix from a text that starts with it gives the rest back,
/// and a text that does not start with it stays as it is.
pub proof fn law_without_prefix(p: Seq<char>, s: Seq<char>)
    ensures
        without_prefix(p + s, p) == s,
        !(s.len() >= p.len() && s.take(p.len() as int) == p) ==> without_prefix(s, p) == s,
{
    assert((p + s).take(p.len() as int) =~= p);
    assert((p + s).skip(p.len() as int) =~= s);
}

} // verus!

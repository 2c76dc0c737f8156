//! What the three policy-list editors share: the keys they read, what they
//! hand back to the application, and the bookkeeping of sequence numbers.

use vstd::prelude::*;

use crate::app::types::WizardStep;
use crate::app::sort::{insert_sorted, key_of, lemma_upper_bounds, sort_by_seq, upper, Sequenced};
use crate::text::{chars_of, decimal, decimal_chars, string_of};

verus! {

/// A key press, as the application's key handlers see it (its code; the
/// Control modifier travels beside it where a handler reads it).
#[derive(Debug, Clone, Copy, PartialEq, Eq, Structural)]
pub enum Key {
    Char(char),
    Enter,
    Esc,
    Tab,
    BackTab,
    Up,
    Down,
    Left,
    Right,
    PageUp,
    PageDown,
    Home,
    End,
    Backspace,
    Delete,
    F(u8),
    Other,
}

/// What the application does after an editor handled a key.
#[derive(Debug, Clone)]
pub enum EditorEffect {
    /// Nothing beyond the editor's own state.
    Stay,
    /// Close the wizard popup.
    Close,
    /// Render the vendor commands of the edited list (the editor is now in
    /// review).
    Preview,
    /// Push the reviewed commands to the router.
    Apply,
    /// Open the prefix-list editor on this list.
    OpenPrefixList(String),
}

pub enum EffectModel {
    Stay,
    Close,
    Preview,
    Apply,
    OpenPrefixList(Seq<char>),
}

impl View for EditorEffect {
    type V = EffectModel;

    open spec fn view(&self) -> EffectModel {
        match self {
            EditorEffect::Stay => EffectModel::Stay,
            EditorEffect::Close => EffectModel::Close,
            EditorEffect::Preview => EffectModel::Preview,
            EditorEffect::Apply => EffectModel::Apply,
            EditorEffect::OpenPrefixList(n) => EffectModel::OpenPrefixList(n@),
        }
    }
}

/// The state of a list editor, by its characters: the list's name and
/// entries, the selected entry, the field being edited (with its text
/// buffer), the wizard step and the last error.
pub struct ListEditorModel<V> {
    pub name: Seq<char>,
    pub entries: Seq<V>,
    pub selected: int,
    pub editing: bool,
    pub field: int,
    pub buf: Seq<char>,
    pub step: WizardStep,
    pub error: Option<Seq<char>>,
}

/// What closing the wizard does to an editor: back to the fields, no error.
pub open spec fn closed_model<V>(m: ListEditorModel<V>) -> ListEditorModel<V> {
    ListEditorModel { step: WizardStep::Fields, error: None, ..m }
}

pub open spec fn move_up<V>(m: ListEditorModel<V>) -> ListEditorModel<V> {
    if m.selected > 0 {
        ListEditorModel { selected: m.selected - 1, ..m }
    } else {
        m
    }
}

pub open spec fn move_down<V>(m: ListEditorModel<V>) -> ListEditorModel<V> {
    if m.selected + 1 < m.entries.len() {
        ListEditorModel { selected: m.selected + 1, ..m }
    } else {
        m
    }
}

/// Keys after the fields: in review Esc goes back and Enter applies; while
/// applying keys do nothing; on the result Enter or Esc closes.
pub open spec fn after_fields_key<V>(m: ListEditorModel<V>, key: Key) -> (
    ListEditorModel<V>,
    EffectModel,
) {
    match m.step {
        WizardStep::Review => {
            if key == Key::Esc {
                (ListEditorModel { step: WizardStep::Fields, ..m }, EffectModel::Stay)
            } else if key == Key::Enter {
                (m, EffectModel::Apply)
            } else {
                (m, EffectModel::Stay)
            }
        },
        WizardStep::Result(_) => {
            if key == Key::Enter || key == Key::Esc {
                (closed_model(m), EffectModel::Close)
            } else {
                (m, EffectModel::Stay)
            }
        },
        _ => (m, EffectModel::Stay),
    }
}

/// "Entry N (seq S): message" for the first entry that fails validation.
pub open spec fn invalid_entry_msg(i: int, seq: u32, e: Seq<char>) -> Seq<char> {
    "Entry "@ + decimal((i + 1) as nat) + " (seq "@ + decimal(seq as nat) + "): "@ + e
}

// ─── Small text operations on edit buffers ───────────────────────────────────

/// `String::pop`: the last character goes, if there is one.
pub open spec fn popped(s: Seq<char>) -> Seq<char> {
    if s.len() > 0 {
        s.drop_last()
    } else {
        s
    }
}

/// Space on an action field: `permit` becomes `deny`, anything else `permit`.
pub open spec fn toggled_action(a: Seq<char>) -> Seq<char> {
    if a == "permit"@ {
        "deny"@
    } else {
        "permit"@
    }
}

pub open spec fn duplicate_seq_msg(s: nat) -> Seq<char> {
    "Seq "@ + decimal(s) + " already exists"@
}

pub open spec fn invalid_seq_msg() -> Seq<char> {
    "Invalid sequence number"@
}

pub fn pop_char(s: &String) -> (r: String)
    ensures
        r@ == popped(s@),
{
    let mut v = chars_of(s.as_str());
    v.pop();
    string_of(&v)
}

pub fn push_char(s: &String, c: char) -> (r: String)
    ensures
        r@ == s@.push(c),
{
    let mut v = chars_of(s.as_str());
    v.push(c);
    string_of(&v)
}

pub fn toggle_action(a: &String) -> (r: String)
    ensures
        r@ == toggled_action(a@),
{
    if a.eq(&String::from_str("permit")) {
        String::from_str("deny")
    } else {
        String::from_str("permit")
    }
}

pub fn duplicate_seq_message(s: u32) -> (r: String)
    ensures
        r@ == duplicate_seq_msg(s as nat),
{
    let mut v = chars_of("Seq ");
    append_all(&mut v, &decimal_chars(s as u64));
    append_all(&mut v, &chars_of(" already exists"));
    string_of(&v)
}

fn append_all(v: &mut Vec<char>, w: &Vec<char>)
    ensures
        final(v)@ == old(v)@ + w@,
{
    let mut i: usize = 0;
    let ghost start = v@;
    while i < w.len()
        invariant
            i <= w.len(),
            v@ == start + w@.take(i as int),
        decreases w.len() - i,
    {
        v.push(w[i]);
        i = i + 1;
        assert(start + w@.take(i as int) =~= (start + w@.take(i - 1)).push(w@[i - 1]));
    }
    assert(w@.take(w.len() as int) =~= w@);
}

pub fn invalid_entry_message(i: usize, seq: u32, e: &String) -> (r: String)
    requires
        i < usize::MAX,
    ensures
        r@ == invalid_entry_msg(i as int, seq, e@),
{
    let mut v = chars_of("Entry ");
    append_all(&mut v, &decimal_chars((i + 1) as u64));
    append_all(&mut v, &chars_of(" (seq "));
    append_all(&mut v, &decimal_chars(seq as u64));
    append_all(&mut v, &chars_of("): "));
    append_all(&mut v, &chars_of(e.as_str()));
    string_of(&v)
}

// ─── Sequence numbers of a list ──────────────────────────────────────────────

/// Whether an entry of `s` has sequence number `key`.
pub open spec fn has_key<A>(s: Seq<A>, k: spec_fn(A) -> u32, key: int) -> bool {
    exists|i: int| 0 <= i < s.len() && k(s[i]) == key
}

/// Whether an entry other than the one at `j` has sequence number `key`.
pub open spec fn has_key_except<A>(s: Seq<A>, k: spec_fn(A) -> u32, j: int, key: int) -> bool {
    exists|i: int| 0 <= i < s.len() && i != j && k(s[i]) == key
}

/// The first index from `i` on whose entry has sequence number `key`.
pub open spec fn find_key<A>(s: Seq<A>, k: spec_fn(A) -> u32, key: int, i: int) -> Option<int>
    decreases s.len() - i,
{
    if i < 0 || i >= s.len() {
        None
    } else if k(s[i]) == key {
        Some(i)
    } else {
        find_key(s, k, key, i + 1)
    }
}

/// `position(|e| e.seq == key).unwrap_or(default)`.
pub open spec fn position_or<A>(s: Seq<A>, k: spec_fn(A) -> u32, key: int, default: int) -> int {
    match find_key(s, k, key, 0) {
        Some(i) => i,
        None => default,
    }
}

/// Where the search for a new sequence number starts: the last entry's
/// number plus `step`, or `step` for an empty list.
pub open spec fn next_start<A>(s: Seq<A>, k: spec_fn(A) -> u32, step: nat) -> int {
    if s.len() == 0 {
        step as int
    } else {
        k(s.last()) + step
    }
}

/// `r` is the least number from `start` on that no entry uses.
pub open spec fn is_first_free<A>(s: Seq<A>, k: spec_fn(A) -> u32, start: int, r: int) -> bool {
    &&& start <= r
    &&& !has_key(s, k, r)
    &&& forall|t: int| start <= t < r ==> has_key(s, k, t)
}

/// The least number from `start` on that no entry uses.
pub open spec fn first_free<A>(s: Seq<A>, k: spec_fn(A) -> u32, start: int) -> int {
    choose|r: int| is_first_free(s, k, start, r)
}

/// Below a free number `w` from `start` on there is a least free one.
pub proof fn lemma_least_free_exists<A>(s: Seq<A>, k: spec_fn(A) -> u32, start: int, w: int)
    requires
        start <= w,
        !has_key(s, k, w),
    ensures
        exists|r: int| #[trigger] is_first_free(s, k, start, r) && r <= w,
    decreases w - start,
{
    if start == w {
        assert(is_first_free(s, k, start, w));
    } else if !has_key(s, k, start) {
        assert(is_first_free(s, k, start, start));
    } else {
        lemma_least_free_exists(s, k, start + 1, w);
        let r = choose|r: int| #[trigger] is_first_free(s, k, start + 1, r) && r <= w;
        assert(is_first_free(s, k, start, r));
    }
}

/// A new number from `next_start` on fits in a `u32`.
pub open spec fn append_fits<A>(s: Seq<A>, k: spec_fn(A) -> u32, step: nat) -> bool {
    let start = next_start(s, k, step);
    &&& start <= u32::MAX
    &&& exists|t: int| start <= t <= u32::MAX && !has_key(s, k, t)
}

/// The number that `a` gives a new entry.
pub open spec fn append_seq<A>(s: Seq<A>, k: spec_fn(A) -> u32, step: nat) -> int {
    first_free(s, k, next_start(s, k, step))
}

/// No two entries share a sequence number.
pub open spec fn distinct_keys<A>(s: Seq<A>, k: spec_fn(A) -> u32) -> bool {
    forall|i: int, j: int| 0 <= i < s.len() && 0 <= j < s.len() && i != j ==> k(s[i]) != k(s[j])
}

pub proof fn lemma_first_free_unique<A>(s: Seq<A>, k: spec_fn(A) -> u32, start: int, r: int)
    requires
        is_first_free(s, k, start, r),
    ensures
        first_free(s, k, start) == r,
{
    let c = first_free(s, k, start);
    assert(is_first_free(s, k, start, c));
    if c < r {
        assert(has_key(s, k, c));
    } else if r < c {
        assert(has_key(s, k, r));
    }
}

pub proof fn lemma_find_key_bounds<A>(s: Seq<A>, k: spec_fn(A) -> u32, key: int, i: int)
    ensures
        find_key(s, k, key, i) matches Some(j) ==> i <= j < s.len() && k(s[j]) == key,
        0 <= i && find_key(s, k, key, i) is None ==> forall|j: int| i <= j < s.len() ==> k(s[j]) != key,
        (0 <= i && has_key(s, k, key) && forall|j: int| 0 <= j < i ==> k(s[j]) != key) ==> find_key(
            s,
            k,
            key,
            i,
        ) is Some,
    decreases s.len() - i,
{
    if 0 <= i < s.len() && k(s[i]) != key {
        lemma_find_key_bounds(s, k, key, i + 1);
    }
    if i >= s.len() && has_key(s, k, key) {
        let w = choose|w: int| 0 <= w < s.len() && k(s[w]) == key;
        assert(0 <= w < i);
    }
}

/// The key facts carry over to a map of the entries that keeps their
/// numbers.
pub proof fn lemma_keys_map<A, B>(
    s: Seq<A>,
    ka: spec_fn(A) -> u32,
    f: spec_fn(A) -> B,
    kb: spec_fn(B) -> u32,
    key: int,
    j: int,
    step: nat,
)
    requires
        forall|a: A| #[trigger] kb(f(a)) == ka(a),
    ensures
        has_key(s.map_values(f), kb, key) == has_key(s, ka, key),
        has_key_except(s.map_values(f), kb, j, key) == has_key_except(s, ka, j, key),
        find_key(s.map_values(f), kb, key, j) == find_key(s, ka, key, j),
        next_start(s.map_values(f), kb, step) == next_start(s, ka, step),
        distinct_keys(s.map_values(f), kb) == distinct_keys(s, ka),
    decreases s.len() - j,
{
    let t = s.map_values(f);
    if has_key(t, kb, key) {
        let i = choose|i: int| 0 <= i < t.len() && kb(t[i]) == key;
        assert(ka(s[i]) == kb(f(s[i])));
    }
    if has_key(s, ka, key) {
        let i = choose|i: int| 0 <= i < s.len() && ka(s[i]) == key;
        assert(t[i] == f(s[i]));
    }
    if has_key_except(t, kb, j, key) {
        let i = choose|i: int| 0 <= i < t.len() && i != j && kb(t[i]) == key;
        assert(ka(s[i]) == kb(f(s[i])));
    }
    if has_key_except(s, ka, j, key) {
        let i = choose|i: int| 0 <= i < s.len() && i != j && ka(s[i]) == key;
        assert(t[i] == f(s[i]));
    }
    if 0 <= j < s.len() {
        assert(t[j] == f(s[j]));
        lemma_keys_map(s, ka, f, kb, key, j + 1, step);
    }
    if s.len() > 0 {
        assert(t.last() == f(s.last()));
    }
    assert forall|a: int, b: int|
        0 <= a < t.len() && 0 <= b < t.len() && a != b implies (kb(t[a]) != kb(t[b])) == (ka(s[a])
        != ka(s[b])) by {
        assert(t[a] == f(s[a]));
        assert(t[b] == f(s[b]));
    }
}

/// The whole first-free number carries over to such a map, too.
pub proof fn lemma_first_free_map<A, B>(
    s: Seq<A>,
    ka: spec_fn(A) -> u32,
    f: spec_fn(A) -> B,
    kb: spec_fn(B) -> u32,
    start: int,
    r: int,
)
    requires
        forall|a: A| #[trigger] kb(f(a)) == ka(a),
        is_first_free(s, ka, start, r),
    ensures
        first_free(s.map_values(f), kb, start) == r,
{
    lemma_keys_map(s, ka, f, kb, r, 0, 0);
    assert forall|t: int| start <= t < r implies has_key(s.map_values(f), kb, t) by {
        lemma_keys_map(s, ka, f, kb, t, 0, 0);
    }
    lemma_first_free_unique(s.map_values(f), kb, start, r);
}

pub fn key_exists<E: Sequenced>(v: &Vec<E>, key: u32) -> (r: bool)
    ensures
        r == has_key(v@, key_of::<E>(), key as int),
{
    let mut i: usize = 0;
    while i < v.len()
        invariant
            i <= v.len(),
            forall|j: int| 0 <= j < i ==> v@[j].seq_key() != key,
        decreases v.len() - i,
    {
        if v[i].seq_number() == key {
            return true;
        }
        i = i + 1;
    }
    false
}

pub fn key_exists_except<E: Sequenced>(v: &Vec<E>, skip: usize, key: u32) -> (r: bool)
    ensures
        r == has_key_except(v@, key_of::<E>(), skip as int, key as int),
{
    let mut i: usize = 0;
    while i < v.len()
        invariant
            i <= v.len(),
            forall|j: int| 0 <= j < i && j != skip ==> v@[j].seq_key() != key,
        decreases v.len() - i,
    {
        if i != skip && v[i].seq_number() == key {
            return true;
        }
        i = i + 1;
    }
    false
}

/// `position(|e| e.seq == key)`.
pub fn key_position<E: Sequenced>(v: &Vec<E>, key: u32) -> (r: Option<usize>)
    ensures
        r matches Some(i) ==> find_key(v@, key_of::<E>(), key as int, 0) == Some(i as int),
        r is None ==> find_key(v@, key_of::<E>(), key as int, 0) is None,
{
    let mut i: usize = 0;
    while i < v.len()
        invariant
            i <= v.len(),
            find_key(v@, key_of::<E>(), key as int, 0) == find_key(
                v@,
                key_of::<E>(),
                key as int,
                i as int,
            ),
        decreases v.len() - i,
    {
        if v[i].seq_number() == key {
            return Some(i);
        }
        i = i + 1;
    }
    None
}

/// Whether a new entry can be numbered within `u32` (else the numbering
/// overflows).
pub fn can_append<E: Sequenced>(v: &Vec<E>, step: u32) -> (r: bool)
    ensures
        r == append_fits(v@, key_of::<E>(), step as nat),
{
    let start: u64 = if v.len() == 0 {
        step as u64
    } else {
        v[v.len() - 1].seq_number() as u64 + step as u64
    };
    if start > 0xffff_ffffu64 {
        return false;
    }
    let mut s: u64 = start;
    while s <= 0xffff_ffffu64 && key_exists(v, s as u32)
        invariant
            start <= s <= 0x1_0000_0000u64,
            start == next_start(v@, key_of::<E>(), step as nat),
            forall|t: int| start <= t < s ==> has_key(v@, key_of::<E>(), t),
        decreases 0x1_0000_0000u64 - s,
    {
        s = s + 1;
    }
    if s <= 0xffff_ffffu64 {
        assert(!has_key(v@, key_of::<E>(), s as int));
        true
    } else {
        assert forall|t: int| start <= t <= u32::MAX implies has_key(v@, key_of::<E>(), t) by {}
        false
    }
}

/// The first number from `start` on that no entry uses.
pub fn first_free_seq<E: Sequenced>(v: &Vec<E>, start: u32) -> (r: u32)
    requires
        exists|t: int| start <= t <= u32::MAX && !has_key(v@, key_of::<E>(), t),
    ensures
        is_first_free(v@, key_of::<E>(), start as int, r as int),
        r == first_free(v@, key_of::<E>(), start as int),
{
    let mut s: u32 = start;
    while key_exists(v, s)
        invariant
            start <= s,
            forall|t: int| start <= t < s ==> has_key(v@, key_of::<E>(), t),
            exists|t: int| start <= t <= u32::MAX && !has_key(v@, key_of::<E>(), t),
        decreases u32::MAX - s,
    {
        if s == u32::MAX {
            assert(forall|t: int| start <= t <= u32::MAX ==> has_key(v@, key_of::<E>(), t));
        }
        s = s + 1;
    }
    proof {
        lemma_first_free_unique(v@, key_of::<E>(), start as int, s as int);
    }
    s
}

/// Inserting into a sorted list adds the new entry's number and keeps the
/// length count.
pub proof fn lemma_insert_sorted_keys<A>(t: Seq<A>, x: A, k: spec_fn(A) -> u32, key: int)
    ensures
        insert_sorted(t, x, k).len() == t.len() + 1,
        has_key(insert_sorted(t, x, k), k, key) == (has_key(t, k, key) || k(x) == key),
        (distinct_keys(t, k) && !has_key(t, k, k(x) as int)) ==> distinct_keys(
            insert_sorted(t, x, k),
            k,
        ),
{
    let p = upper(t, k(x), k);
    lemma_upper_bounds(t, k(x), k);
    let r = insert_sorted(t, x, k);
    assert(r =~= t.take(p) + seq![x] + t.skip(p));
    assert forall|i: int| 0 <= i < r.len() implies r[i] == (if i < p {
        t[i]
    } else if i == p {
        x
    } else {
        t[i - 1]
    }) by {}
    if has_key(t, k, key) {
        let w = choose|w: int| 0 <= w < t.len() && k(t[w]) == key;
        if w < p {
            assert(r[w] == t[w]);
        } else {
            assert(r[w + 1] == t[w]);
        }
    }
    if k(x) == key {
        assert(r[p] == x);
    }
    if has_key(r, k, key) {
        let w = choose|w: int| 0 <= w < r.len() && k(r[w]) == key;
        if w < p {
            assert(t[w] == r[w]);
        } else if w > p {
            assert(t[w - 1] == r[w]);
        }
    }
    if distinct_keys(t, k) && !has_key(t, k, k(x) as int) {
        assert forall|i: int, j: int|
            0 <= i < r.len() && 0 <= j < r.len() && i != j implies k(r[i]) != k(r[j]) by {
            if i == p {
                if j < p {
                    assert(r[j] == t[j]);
                } else {
                    assert(r[j] == t[j - 1]);
                }
            } else if j == p {
                if i < p {
                    assert(r[i] == t[i]);
                } else {
                    assert(r[i] == t[i - 1]);
                }
            }
        }
    }
}

/// Sorting keeps the length and the set of numbers, and numbers that were
/// distinct stay distinct.
pub proof fn lemma_sort_keys<A>(s: Seq<A>, k: spec_fn(A) -> u32, key: int)
    ensures
        sort_by_seq(s, k).len() == s.len(),
        has_key(sort_by_seq(s, k), k, key) == has_key(s, k, key),
        distinct_keys(s, k) ==> distinct_keys(sort_by_seq(s, k), k),
    decreases s.len(),
{
    if s.len() > 0 {
        let d = s.drop_last();
        let x = s.last();
        lemma_sort_keys(d, k, key);
        lemma_sort_keys(d, k, k(x) as int);
        lemma_insert_sorted_keys(sort_by_seq(d, k), x, k, key);
        lemma_insert_sorted_keys(sort_by_seq(d, k), x, k, k(x) as int);
        if has_key(d, k, key) {
            let w = choose|w: int| 0 <= w < d.len() && k(d[w]) == key;
            assert(s[w] == d[w]);
        }
        if has_key(s, k, key) {
            let w = choose|w: int| 0 <= w < s.len() && k(s[w]) == key;
            if w < d.len() {
                assert(s[w] == d[w]);
            }
        }
        if distinct_keys(s, k) {
            assert(distinct_keys(d, k));
            if has_key(d, k, k(x) as int) {
                let w = choose|w: int| 0 <= w < d.len() && k(d[w]) == k(x);
                assert(s[w] == d[w]);
                assert(s[s.len() - 1] == x);
            }
        }
    }
}

pub proof fn lemma_push_distinct<A>(s: Seq<A>, x: A, k: spec_fn(A) -> u32)
    requires
        distinct_keys(s, k),
        !has_key(s, k, k(x) as int),
    ensures
        distinct_keys(s.push(x), k),
        has_key(s.push(x), k, k(x) as int),
{
    let t = s.push(x);
    assert(t[s.len() as int] == x);
    assert forall|i: int, j: int|
        0 <= i < t.len() && 0 <= j < t.len() && i != j implies k(t[i]) != k(t[j]) by {
        if i < s.len() {
            assert(t[i] == s[i]);
        }
        if j < s.len() {
            assert(t[j] == s[j]);
        }
    }
}

pub proof fn lemma_update_distinct<A>(s: Seq<A>, i: int, x: A, k: spec_fn(A) -> u32)
    requires
        distinct_keys(s, k),
        0 <= i < s.len(),
        k(x) == k(s[i]) || !has_key_except(s, k, i, k(x) as int),
    ensures
        distinct_keys(s.update(i, x), k),
{
    let t = s.update(i, x);
    assert forall|a: int, b: int|
        0 <= a < t.len() && 0 <= b < t.len() && a != b implies k(t[a]) != k(t[b]) by {
        if a == i {
            assert(t[b] == s[b]);
        } else if b == i {
            assert(t[a] == s[a]);
        } else {
            assert(t[a] == s[a]);
            assert(t[b] == s[b]);
        }
    }
}

pub proof fn lemma_remove_distinct<A>(s: Seq<A>, i: int, k: spec_fn(A) -> u32)
    requires
        distinct_keys(s, k),
        0 <= i < s.len(),
    ensures
        distinct_keys(s.remove(i), k),
{
    let t = s.remove(i);
    assert forall|a: int, b: int|
        0 <= a < t.len() && 0 <= b < t.len() && a != b implies k(t[a]) != k(t[b]) by {
        let a2 = if a < i {
            a
        } else {
            a + 1
        };
        let b2 = if b < i {
            b
        } else {
            b + 1
        };
        assert(t[a] == s[a2]);
        assert(t[b] == s[b2]);
    }
}

/// After a new number was added to the list and the list sorted, its
/// position is in the list.
pub proof fn lemma_added_position<A>(s: Seq<A>, x: A, k: spec_fn(A) -> u32, default: int)
    ensures
        0 <= position_or(sort_by_seq(s.push(x), k), k, k(x) as int, default) < s.len() + 1,
        sort_by_seq(s.push(x), k).len() == s.len() + 1,
        (distinct_keys(s, k) && !has_key(s, k, k(x) as int)) ==> distinct_keys(
            sort_by_seq(s.push(x), k),
            k,
        ),
{
    let p = s.push(x);
    assert(p[s.len() as int] == x);
    assert(has_key(p, k, k(x) as int));
    lemma_sort_keys(p, k, k(x) as int);
    lemma_find_key_bounds(sort_by_seq(p, k), k, k(x) as int, 0);
    if distinct_keys(s, k) && !has_key(s, k, k(x) as int) {
        lemma_push_distinct(s, x, k);
    }
}

// ─── Selection bookkeeping ───────────────────────────────────────────────────

/// The selection after the entry at `sel` was removed from a list that now
/// has `len` entries.
pub open spec fn selection_after_remove(sel: int, len: int) -> int {
    if sel > 0 && sel >= len {
        if len > 0 {
            len - 1
        } else {
            0
        }
    } else {
        sel
    }
}

pub fn selection_after_delete(sel: usize, len: usize) -> (r: usize)
    ensures
        r == selection_after_remove(sel as int, len as int),
{
    if sel > 0 && sel >= len {
        if len > 0 {
            len - 1
        } else {
            0
        }
    } else {
        sel
    }
}

} // verus!

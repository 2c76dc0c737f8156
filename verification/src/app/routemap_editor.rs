//! The route-map editor: numbered entries with an action and lists of
//! `match` / `set` clauses, and a sub-mode that edits one entry's clauses.

use vstd::prelude::*;

use crate::app::list_edit::{
    after_fields_key, append_fits, append_seq, can_append, closed_model, distinct_keys,
    duplicate_seq_message, duplicate_seq_msg, first_free_seq, has_key, has_key_except,
    invalid_seq_msg, is_first_free, key_exists, key_exists_except, key_position,
    lemma_added_position, lemma_first_free_map, lemma_keys_map, lemma_least_free_exists,
    lemma_remove_distinct, lemma_sort_keys, lemma_update_distinct, move_down, move_up,
    next_start, pop_char, popped, position_or, push_char, selection_after_delete,
    selection_after_remove, toggle_action, toggled_action, EditorEffect, EffectModel, Key,
    ListEditorModel,
};
use crate::app::types::WizardStep;
use crate::app::sort::{
    key_of, law_sort_by_seq, lemma_sort_map, sort_by_seq, sort_entries, sorted_by, Sequenced,
};
use crate::bgp::policy::{RouteMapEntry, RouteMapEntryView};
use crate::bgp::scan::{lines, string_lines};
use crate::text::{
    ascii_digit, chars_of, contains, contains_chars, copy_string, decimal, decimal_chars,
    is_ascii_digit, join_lines, joined, opt_view, parse_unsigned, parse_unsigned_chars,
    split_words, string_of, words,
};

verus! {

/// Which clause list of an entry the clause mode edits.
#[derive(Debug, Clone, Copy, PartialEq, Eq, Structural)]
pub enum ClauseKind {
    Matches,
    Sets,
}

impl ClauseKind {
    /// `"match"` or `"set"`.
    pub fn label(&self) -> (r: &'static str)
        ensures
            r@ == (match *self {
                ClauseKind::Matches => "match"@,
                ClauseKind::Sets => "set"@,
            }),
    {
        match self {
            ClauseKind::Matches => "match",
            ClauseKind::Sets => "set",
        }
    }
}

impl Sequenced for RouteMapEntry {
    open spec fn seq_key(&self) -> u32 {
        self.sequence
    }

    fn seq_number(&self) -> (r: u32) {
        self.sequence
    }
}

/// The route-map editor by its characters.
pub struct RouteMapModel {
    pub list: ListEditorModel<RouteMapEntryView>,
    pub clause_mode: bool,
    pub clause_kind: ClauseKind,
    pub clause_idx: int,
    pub clause_buf: Seq<char>,
    pub clause_editing: bool,
}

pub open spec fn rm_view_fn() -> spec_fn(RouteMapEntry) -> RouteMapEntryView {
    |e: RouteMapEntry| e@
}

pub open spec fn rm_key() -> spec_fn(RouteMapEntryView) -> u32 {
    |v: RouteMapEntryView| v.seq
}

pub open spec fn newline() -> Seq<char> {
    seq!['\n']
}

// ─── The transitions ─────────────────────────────────────────────────────────

/// The clause list that the clause mode works on.
pub open spec fn clause_list(e: RouteMapEntryView, kind: ClauseKind) -> Seq<Seq<char>> {
    match kind {
        ClauseKind::Matches => e.matches,
        ClauseKind::Sets => e.sets,
    }
}

pub open spec fn with_clauses(
    e: RouteMapEntryView,
    kind: ClauseKind,
    l: Seq<Seq<char>>,
) -> RouteMapEntryView {
    match kind {
        ClauseKind::Matches => RouteMapEntryView { matches: l, ..e },
        ClauseKind::Sets => RouteMapEntryView { sets: l, ..e },
    }
}

/// The invariant: the selection is in the list (or 0 on an empty list); an
/// edited field (other than the number prompt, 100) belongs to the selected
/// entry; the clause mode works on the selected entry and its clause index
/// is in the clause list (or 0 on an empty one).
pub open spec fn rm_wf(m: RouteMapModel) -> bool {
    let l = m.list;
    &&& 0 <= l.selected
    &&& (l.selected == 0 || l.selected < l.entries.len())
    &&& 0 <= l.field
    &&& l.editing ==> (l.field == 100 || (l.field < 4 && l.selected < l.entries.len()))
    &&& 0 <= m.clause_idx
    &&& m.clause_mode ==> l.selected < l.entries.len() && (m.clause_idx == 0 || m.clause_idx
        < clause_list(l.entries[l.selected], m.clause_kind).len())
}

pub open spec fn blank_rm_entry(seq: u32) -> RouteMapEntryView {
    RouteMapEntryView { seq, action: "permit"@, matches: seq![], sets: seq![] }
}

/// The text a field shows when it is entered; clause lists one per line.
pub open spec fn rm_field_of(e: RouteMapEntryView, f: int) -> Seq<char> {
    if f == 0 {
        decimal(e.seq as nat)
    } else if f == 1 {
        e.action
    } else if f == 2 {
        joined(e.matches, newline())
    } else if f == 3 {
        joined(e.sets, newline())
    } else {
        seq![]
    }
}

/// The entry after the buffer was committed to field `f` (1 to 3); clause
/// fields take the buffer's lines.
pub open spec fn rm_entry_with(e: RouteMapEntryView, f: int, buf: Seq<char>) -> RouteMapEntryView {
    if f == 1 {
        RouteMapEntryView { action: buf, ..e }
    } else if f == 2 {
        RouteMapEntryView { matches: lines(buf), ..e }
    } else if f == 3 {
        RouteMapEntryView { sets: lines(buf), ..e }
    } else {
        e
    }
}

pub open spec fn rm_typed_seq(l: ListEditorModel<RouteMapEntryView>) -> nat {
    match parse_unsigned(l.buf, u32::MAX as nat) {
        Some(n) => n,
        None => l.entries[l.selected].seq as nat,
    }
}

/// Committing the edited field; `None` when the number is taken by another
/// entry.
pub open spec fn rm_commit(l: ListEditorModel<RouteMapEntryView>) -> Option<
    ListEditorModel<RouteMapEntryView>,
> {
    let e = l.entries[l.selected];
    if l.field == 0 {
        let n = rm_typed_seq(l);
        if n != e.seq && has_key_except(l.entries, rm_key(), l.selected, n as int) {
            None
        } else {
            Some(
                ListEditorModel {
                    error: None,
                    entries: l.entries.update(l.selected, RouteMapEntryView { seq: n as u32, ..e }),
                    ..l
                },
            )
        }
    } else {
        Some(
            ListEditorModel {
                entries: l.entries.update(l.selected, rm_entry_with(e, l.field, l.buf)),
                ..l
            },
        )
    }
}

pub open spec fn rm_with_list(
    m: RouteMapModel,
    l: ListEditorModel<RouteMapEntryView>,
) -> RouteMapModel {
    RouteMapModel { list: l, ..m }
}

pub open spec fn rm_error(
    l: ListEditorModel<RouteMapEntryView>,
    msg: Seq<char>,
) -> ListEditorModel<RouteMapEntryView> {
    ListEditorModel { error: Some(msg), ..l }
}

/// A key in the prompt for a new entry's number.
pub open spec fn rm_insert_key(l: ListEditorModel<RouteMapEntryView>, key: Key) -> ListEditorModel<
    RouteMapEntryView,
> {
    match key {
        Key::Esc => ListEditorModel { editing: false, error: None, ..l },
        Key::Enter => match parse_unsigned(l.buf, u32::MAX as nat) {
            None => rm_error(l, invalid_seq_msg()),
            Some(n) => {
                if has_key(l.entries, rm_key(), n as int) {
                    rm_error(l, duplicate_seq_msg(n))
                } else {
                    let es = sort_by_seq(l.entries.push(blank_rm_entry(n as u32)), rm_key());
                    ListEditorModel {
                        error: None,
                        entries: es,
                        selected: position_or(es, rm_key(), n as int, 0),
                        editing: true,
                        field: 1,
                        buf: "permit"@,
                        ..l
                    }
                }
            },
        },
        Key::Backspace => ListEditorModel { buf: popped(l.buf), ..l },
        Key::Char(c) => {
            if is_ascii_digit(c) {
                ListEditorModel { buf: l.buf.push(c), ..l }
            } else {
                l
            }
        },
        _ => l,
    }
}

/// A key while a field of the selected entry is edited.
pub open spec fn rm_field_key(l: ListEditorModel<RouteMapEntryView>, key: Key) -> ListEditorModel<
    RouteMapEntryView,
> {
    match key {
        Key::Esc => ListEditorModel { editing: false, ..l },
        Key::Tab => match rm_commit(l) {
            None => rm_error(l, duplicate_seq_msg(rm_typed_seq(l))),
            Some(c) => {
                let f = (c.field + 1) % 4;
                ListEditorModel { field: f, buf: rm_field_of(c.entries[c.selected], f), ..c }
            },
        },
        Key::Enter => match rm_commit(l) {
            None => rm_error(l, duplicate_seq_msg(rm_typed_seq(l))),
            Some(c) => ListEditorModel {
                editing: false,
                entries: sort_by_seq(c.entries, rm_key()),
                ..c
            },
        },
        Key::Char(c) => {
            if c == ' ' && l.field == 1 {
                ListEditorModel { buf: toggled_action(l.buf), ..l }
            } else {
                ListEditorModel { buf: l.buf.push(c), ..l }
            }
        },
        Key::Backspace => ListEditorModel { buf: popped(l.buf), ..l },
        _ => l,
    }
}

/// `a`: a new `permit` entry numbered ten after the last one, selected.
pub open spec fn rm_append(l: ListEditorModel<RouteMapEntryView>) -> ListEditorModel<
    RouteMapEntryView,
> {
    let n = append_seq(l.entries, rm_key(), 10);
    let es = sort_by_seq(l.entries.push(blank_rm_entry(n as u32)), rm_key());
    ListEditorModel { entries: es, selected: es.len() - 1, ..l }
}

/// `m` / `t`: the clause mode on the selected entry's match / set clauses.
pub open spec fn rm_enter_clauses(m: RouteMapModel, kind: ClauseKind) -> RouteMapModel {
    if m.list.entries.len() > 0 {
        RouteMapModel {
            clause_mode: true,
            clause_kind: kind,
            clause_idx: 0,
            clause_editing: false,
            clause_buf: seq![],
            ..m
        }
    } else {
        m
    }
}

/// A character key on the list.
pub open spec fn rm_browse_char(m: RouteMapModel, c: char) -> (RouteMapModel, EffectModel) {
    let l = m.list;
    if c == 'k' {
        (rm_with_list(m, move_up(l)), EffectModel::Stay)
    } else if c == 'j' {
        (rm_with_list(m, move_down(l)), EffectModel::Stay)
    } else if c == 'i' {
        (
            rm_with_list(
                m,
                ListEditorModel { editing: true, field: 100, buf: seq![], error: None, ..l },
            ),
            EffectModel::Stay,
        )
    } else if c == 'a' {
        (rm_with_list(m, rm_append(l)), EffectModel::Stay)
    } else if c == ' ' {
        if l.selected < l.entries.len() {
            let e = l.entries[l.selected];
            (
                rm_with_list(
                    m,
                    ListEditorModel {
                        entries: l.entries.update(
                            l.selected,
                            RouteMapEntryView { action: toggled_action(e.action), ..e },
                        ),
                        ..l
                    },
                ),
                EffectModel::Stay,
            )
        } else {
            (m, EffectModel::Stay)
        }
    } else if c == 'm' {
        (rm_enter_clauses(m, ClauseKind::Matches), EffectModel::Stay)
    } else if c == 't' {
        (rm_enter_clauses(m, ClauseKind::Sets), EffectModel::Stay)
    } else if c == 'd' {
        if l.entries.len() > 0 {
            let es = l.entries.remove(l.selected);
            (
                rm_with_list(
                    m,
                    ListEditorModel {
                        entries: es,
                        selected: selection_after_remove(l.selected, es.len() as int),
                        ..l
                    },
                ),
                EffectModel::Stay,
            )
        } else {
            (m, EffectModel::Stay)
        }
    } else if c == 's' {
        (
            rm_with_list(m, ListEditorModel { step: WizardStep::Review, ..l }),
            EffectModel::Preview,
        )
    } else {
        (m, EffectModel::Stay)
    }
}

/// A key on the list, nothing being edited.
pub open spec fn rm_browse_key(m: RouteMapModel, key: Key) -> (RouteMapModel, EffectModel) {
    let l = m.list;
    match key {
        Key::Esc => (rm_with_list(m, closed_model(l)), EffectModel::Close),
        Key::Up => (rm_with_list(m, move_up(l)), EffectModel::Stay),
        Key::Down => (rm_with_list(m, move_down(l)), EffectModel::Stay),
        Key::Enter => {
            if l.selected < l.entries.len() {
                (
                    rm_with_list(
                        m,
                        ListEditorModel {
                            editing: true,
                            field: 0,
                            buf: decimal(l.entries[l.selected].seq as nat),
                            ..l
                        },
                    ),
                    EffectModel::Stay,
                )
            } else {
                (m, EffectModel::Stay)
            }
        },
        Key::Char(c) => rm_browse_char(m, c),
        _ => (m, EffectModel::Stay),
    }
}

/// The placeholder a new clause starts with.
pub open spec fn clause_placeholder(kind: ClauseKind) -> Seq<char> {
    match kind {
        ClauseKind::Matches => "ip address prefix-list NAME"@,
        ClauseKind::Sets => "local-preference 100"@,
    }
}

/// The entries after the selected entry's clause list became `l`.
pub open spec fn set_clause_list(m: RouteMapModel, l: Seq<Seq<char>>) -> RouteMapModel {
    let lm = m.list;
    let e = lm.entries[lm.selected];
    rm_with_list(
        m,
        ListEditorModel {
            entries: lm.entries.update(lm.selected, with_clauses(e, m.clause_kind, l)),
            ..lm
        },
    )
}

/// The prefix-list name at the end of a `match ... prefix-list NAME`
/// clause: its last word, if it names one.
pub open spec fn clause_prefix_list(clause: Seq<char>) -> Option<Seq<char>> {
    let w = words(clause);
    if contains(clause, "prefix-list"@) && w.len() > 0 && w.last().len() > 0 {
        Some(w.last())
    } else {
        None
    }
}

/// A key in the clause mode.
pub open spec fn rm_clause_key(m: RouteMapModel, key: Key) -> (RouteMapModel, EffectModel) {
    let lm = m.list;
    let list = clause_list(lm.entries[lm.selected], m.clause_kind);
    if m.clause_editing {
        match key {
            Key::Esc => (RouteMapModel { clause_editing: false, ..m }, EffectModel::Stay),
            Key::Enter => {
                let m2 = if m.clause_idx < list.len() {
                    set_clause_list(m, list.update(m.clause_idx, m.clause_buf))
                } else {
                    m
                };
                (RouteMapModel { clause_editing: false, ..m2 }, EffectModel::Stay)
            },
            Key::Backspace => (
                RouteMapModel { clause_buf: popped(m.clause_buf), ..m },
                EffectModel::Stay,
            ),
            Key::Char(c) => (
                RouteMapModel { clause_buf: m.clause_buf.push(c), ..m },
                EffectModel::Stay,
            ),
            _ => (m, EffectModel::Stay),
        }
    } else {
        let up = key == Key::Up || key == Key::Char('k');
        let down = key == Key::Down || key == Key::Char('j');
        if key == Key::Esc {
            (RouteMapModel { clause_mode: false, ..m }, EffectModel::Stay)
        } else if up {
            if m.clause_idx > 0 {
                (RouteMapModel { clause_idx: m.clause_idx - 1, ..m }, EffectModel::Stay)
            } else {
                (m, EffectModel::Stay)
            }
        } else if down {
            if m.clause_idx + 1 < list.len() {
                (RouteMapModel { clause_idx: m.clause_idx + 1, ..m }, EffectModel::Stay)
            } else {
                (m, EffectModel::Stay)
            }
        } else if key == Key::Enter {
            if m.clause_idx < list.len() {
                (
                    RouteMapModel { clause_buf: list[m.clause_idx], clause_editing: true, ..m },
                    EffectModel::Stay,
                )
            } else {
                (m, EffectModel::Stay)
            }
        } else if key == Key::Char('a') {
            let p = clause_placeholder(m.clause_kind);
            let m2 = set_clause_list(m, list.push(p));
            (
                RouteMapModel {
                    clause_idx: list.len() as int,
                    clause_buf: p,
                    clause_editing: true,
                    ..m2
                },
                EffectModel::Stay,
            )
        } else if key == Key::Char('d') {
            if list.len() > 0 {
                let l2 = list.remove(m.clause_idx);
                let m2 = set_clause_list(m, l2);
                if m.clause_idx >= l2.len() && l2.len() > 0 {
                    (RouteMapModel { clause_idx: l2.len() - 1, ..m2 }, EffectModel::Stay)
                } else {
                    (m2, EffectModel::Stay)
                }
            } else {
                (m, EffectModel::Stay)
            }
        } else if key == Key::Char('p') && m.clause_kind == ClauseKind::Matches && m.clause_idx
            < list.len() {
            match clause_prefix_list(list[m.clause_idx]) {
                Some(name) => (
                    RouteMapModel { clause_mode: false, ..m },
                    EffectModel::OpenPrefixList(name),
                ),
                None => (m, EffectModel::Stay),
            }
        } else {
            (m, EffectModel::Stay)
        }
    }
}

/// What a key does to the route-map editor.
pub open spec fn rm_next(m: RouteMapModel, key: Key) -> (RouteMapModel, EffectModel) {
    let l = m.list;
    if m.clause_mode {
        rm_clause_key(m, key)
    } else if l.step == WizardStep::Fields {
        if l.editing {
            if l.field == 100 {
                (rm_with_list(m, rm_insert_key(l, key)), EffectModel::Stay)
            } else {
                (rm_with_list(m, rm_field_key(l, key)), EffectModel::Stay)
            }
        } else {
            rm_browse_key(m, key)
        }
    } else {
        let (l2, eff) = after_fields_key(l, key);
        (rm_with_list(m, l2), eff)
    }
}

/// The key would number a new entry with `a`.
pub open spec fn rm_appends(m: RouteMapModel, key: Key) -> bool {
    !m.clause_mode && m.list.step == WizardStep::Fields && !m.list.editing && key == Key::Char('a')
}

// ─── The editor ──────────────────────────────────────────────────────────────

/// The state of the route-map editor.
pub struct RouteMapEditor {
    pub name: String,
    pub entries: Vec<RouteMapEntry>,
    pub selected: usize,
    pub editing: bool,
    pub field: usize,
    pub buf: String,
    pub step: WizardStep,
    pub error: Option<String>,
    pub clause_mode: bool,
    pub clause_kind: ClauseKind,
    pub clause_idx: usize,
    pub clause_buf: String,
    pub clause_editing: bool,
}

impl View for RouteMapEditor {
    type V = RouteMapModel;

    open spec fn view(&self) -> RouteMapModel {
        RouteMapModel {
            list: ListEditorModel {
                name: self.name@,
                entries: self.entries@.map_values(rm_view_fn()),
                selected: self.selected as int,
                editing: self.editing,
                field: self.field as int,
                buf: self.buf@,
                step: self.step,
                error: opt_view(self.error),
            },
            clause_mode: self.clause_mode,
            clause_kind: self.clause_kind,
            clause_idx: self.clause_idx as int,
            clause_buf: self.clause_buf@,
            clause_editing: self.clause_editing,
        }
    }
}

/// A copy of a list of strings, character for character.
pub fn copy_strings(v: &Vec<String>) -> (r: Vec<String>)
    ensures
        r.deep_view() == v.deep_view(),
{
    let mut r: Vec<String> = Vec::new();
    let mut i: usize = 0;
    while i < v.len()
        invariant
            i <= v.len(),
            r.len() == i,
            forall|j: int| 0 <= j < i ==> #[trigger] r@[j]@ == v@[j]@,
        decreases v.len() - i,
    {
        r.push(copy_string(&v[i]));
        i = i + 1;
    }
    assert(r.deep_view() =~= v.deep_view());
    r
}

/// A route-map entry from its parts.
fn rm_entry(seq: u32, action: String, matches: Vec<String>, sets: Vec<String>) -> (r: RouteMapEntry)
    ensures
        r@ == (RouteMapEntryView {
            seq,
            action: action@,
            matches: matches.deep_view(),
            sets: sets.deep_view(),
        }),
{
    RouteMapEntry { sequence: seq, action, match_clauses: matches, set_clauses: sets }
}

impl RouteMapEditor {
    /// A fresh editor on the named route-map.
    pub fn open(name: &str, entries: Vec<RouteMapEntry>) -> (r: Self)
        ensures
            r@.list == (ListEditorModel {
                name: name@,
                entries: entries@.map_values(rm_view_fn()),
                selected: 0,
                editing: false,
                field: 0,
                buf: Seq::<char>::empty(),
                step: WizardStep::Fields,
                error: None::<Seq<char>>,
            }),
            !r@.clause_mode,
            !r@.clause_editing,
            rm_wf(r@),
    {
        RouteMapEditor {
            name: string_of(&chars_of(name)),
            entries,
            selected: 0,
            editing: false,
            field: 0,
            buf: String::new(),
            step: WizardStep::Fields,
            error: None,
            clause_mode: false,
            clause_kind: ClauseKind::Matches,
            clause_idx: 0,
            clause_buf: String::new(),
            clause_editing: false,
        }
    }

    /// Whether `a` can number a new entry within `u32`.
    pub fn can_add(&self) -> (r: bool)
        ensures
            r == append_fits(self@.list.entries, rm_key(), 10),
    {
        let r = can_append(&self.entries, 10);
        proof {
            let s = self.entries@;
            let t = s.map_values(rm_view_fn());
            lemma_keys_map(s, key_of::<RouteMapEntry>(), rm_view_fn(), rm_key(), 0, 0, 10);
            let start = next_start(t, rm_key(), 10);
            if append_fits(s, key_of::<RouteMapEntry>(), 10) {
                let w = choose|w: int|
                    start <= w <= u32::MAX && !has_key(s, key_of::<RouteMapEntry>(), w);
                lemma_keys_map(s, key_of::<RouteMapEntry>(), rm_view_fn(), rm_key(), w, 0, 10);
            }
            if append_fits(t, rm_key(), 10) {
                let w = choose|w: int| start <= w <= u32::MAX && !has_key(t, rm_key(), w);
                lemma_keys_map(s, key_of::<RouteMapEntry>(), rm_view_fn(), rm_key(), w, 0, 10);
            }
        }
        r
    }

    fn set_entry(&mut self, i: usize, e: RouteMapEntry)
        requires
            i < old(self).entries.len(),
        ensures
            final(self)@ == rm_with_list(
                old(self)@,
                ListEditorModel {
                    entries: old(self)@.list.entries.update(i as int, e@),
                    ..old(self)@.list
                },
            ),
    {
        let ghost before = self.entries@;
        self.entries.set(i, e);
        assert(self.entries@.map_values(rm_view_fn()) =~= before.map_values(rm_view_fn()).update(
            i as int,
            e@,
        ));
    }

    fn sort(&mut self)
        ensures
            final(self)@ == rm_with_list(
                old(self)@,
                ListEditorModel {
                    entries: sort_by_seq(old(self)@.list.entries, rm_key()),
                    ..old(self)@.list
                },
            ),
            final(self).entries.len() == old(self).entries.len(),
    {
        let ghost before = self.entries@;
        sort_entries(&mut self.entries);
        proof {
            lemma_sort_map(before, key_of::<RouteMapEntry>(), rm_view_fn(), rm_key());
        }
    }

    fn add_blank(&mut self, n: u32)
        ensures
            final(self)@ == rm_with_list(
                old(self)@,
                ListEditorModel {
                    entries: sort_by_seq(old(self)@.list.entries.push(blank_rm_entry(n)), rm_key()),
                    ..old(self)@.list
                },
            ),
            final(self).entries.len() == old(self).entries.len() + 1,
    {
        let ms: Vec<String> = Vec::new();
        let ss: Vec<String> = Vec::new();
        assert(ms.deep_view() =~= Seq::<Seq<char>>::empty());
        assert(ss.deep_view() =~= Seq::<Seq<char>>::empty());
        let e = rm_entry(n, String::from_str("permit"), ms, ss);
        assert(e@ == blank_rm_entry(n));
        let ghost before = self.entries@;
        self.entries.push(e);
        assert(self.entries@.map_values(rm_view_fn()) =~= before.map_values(rm_view_fn()).push(
            blank_rm_entry(n),
        ));
        self.sort();
    }

    fn commit(&mut self) -> (ok: bool)
        requires
            rm_wf(old(self)@),
            old(self).editing,
            old(self).field < 4,
        ensures
            ok == (rm_commit(old(self)@.list) is Some),
            ok ==> final(self)@ == rm_with_list(old(self)@, rm_commit(old(self)@.list)->0),
            !ok ==> final(self)@ == rm_with_list(
                old(self)@,
                rm_error(old(self)@.list, duplicate_seq_msg(rm_typed_seq(old(self)@.list))),
            ),
    {
        let ghost m = self@;
        let i = self.selected;
        let cur = self.entries[i].sequence;
        assert(m.list.entries[i as int] == self.entries@[i as int]@);
        let ghost e = m.list.entries[i as int];
        if self.field == 0 {
            let n: u32 = match parse_unsigned_chars(&chars_of(self.buf.as_str()), 0xffff_ffff) {
                Some(v) => v as u32,
                None => cur,
            };
            proof {
                lemma_keys_map(self.entries@, key_of::<RouteMapEntry>(), rm_view_fn(), rm_key(), n as int, i as int, 0);
            }
            if n != cur && key_exists_except(&self.entries, i, n) {
                self.error = Some(duplicate_seq_message(n));
                return false;
            }
            self.error = None;
            let x = rm_entry(
                n,
                copy_string(&self.entries[i].action),
                copy_strings(&self.entries[i].match_clauses),
                copy_strings(&self.entries[i].set_clauses),
            );
            self.set_entry(i, x);
        } else {
            let x = if self.field == 1 {
                rm_entry(
                    cur,
                    copy_string(&self.buf),
                    copy_strings(&self.entries[i].match_clauses),
                    copy_strings(&self.entries[i].set_clauses),
                )
            } else if self.field == 2 {
                rm_entry(
                    cur,
                    copy_string(&self.entries[i].action),
                    string_lines(&self.buf),
                    copy_strings(&self.entries[i].set_clauses),
                )
            } else {
                rm_entry(
                    cur,
                    copy_string(&self.entries[i].action),
                    copy_strings(&self.entries[i].match_clauses),
                    string_lines(&self.buf),
                )
            };
            assert(x@ == rm_entry_with(e, m.list.field, m.list.buf));
            self.set_entry(i, x);
        }
        true
    }

    fn field_text(&self, f: usize) -> (r: String)
        requires
            self.selected < self.entries.len(),
        ensures
            r@ == rm_field_of(self@.list.entries[self.selected as int], f as int),
    {
        let e = &self.entries[self.selected];
        if f == 0 {
            string_of(&decimal_chars(e.sequence as u64))
        } else if f == 1 {
            copy_string(&e.action)
        } else if f == 2 {
            join_lines(&e.match_clauses)
        } else if f == 3 {
            join_lines(&e.set_clauses)
        } else {
            String::new()
        }
    }

    fn insert_key(&mut self, key: Key)
        requires
            rm_wf(old(self)@),
            old(self).editing,
            old(self).field == 100,
        ensures
            final(self)@ == rm_with_list(old(self)@, rm_insert_key(old(self)@.list, key)),
    {
        match key {
            Key::Esc => {
                self.editing = false;
                self.error = None;
            },
            Key::Enter => {
                match parse_unsigned_chars(&chars_of(self.buf.as_str()), 0xffff_ffff) {
                    None => {
                        self.error = Some(String::from_str("Invalid sequence number"));
                    },
                    Some(v) => {
                        let n = v as u32;
                        proof {
                            lemma_keys_map(self.entries@, key_of::<RouteMapEntry>(), rm_view_fn(), rm_key(), n as int, 0, 0);
                        }
                        if key_exists(&self.entries, n) {
                            self.error = Some(duplicate_seq_message(n));
                        } else {
                            self.error = None;
                            self.add_blank(n);
                            proof {
                                lemma_keys_map(self.entries@, key_of::<RouteMapEntry>(), rm_view_fn(), rm_key(), n as int, 0, 0);
                            }
                            self.selected = match key_position(&self.entries, n) {
                                Some(p) => p,
                                None => 0,
                            };
                            self.editing = true;
                            self.field = 1;
                            self.buf = String::from_str("permit");
                        }
                    },
                }
            },
            Key::Backspace => {
                self.buf = pop_char(&self.buf);
            },
            Key::Char(c) => {
                if ascii_digit(c) {
                    self.buf = push_char(&self.buf, c);
                }
            },
            _ => {},
        }
    }

    fn field_key(&mut self, key: Key)
        requires
            rm_wf(old(self)@),
            old(self).editing,
            old(self).field != 100,
        ensures
            final(self)@ == rm_with_list(old(self)@, rm_field_key(old(self)@.list, key)),
    {
        match key {
            Key::Esc => {
                self.editing = false;
            },
            Key::Tab => {
                if self.commit() {
                    let f = (self.field + 1) % 4;
                    self.field = f;
                    self.buf = self.field_text(f);
                }
            },
            Key::Enter => {
                if self.commit() {
                    self.editing = false;
                    self.sort();
                }
            },
            Key::Char(c) => {
                if c == ' ' && self.field == 1 {
                    self.buf = toggle_action(&self.buf);
                } else {
                    self.buf = push_char(&self.buf, c);
                }
            },
            Key::Backspace => {
                self.buf = pop_char(&self.buf);
            },
            _ => {},
        }
    }

    fn append(&mut self)
        requires
            rm_wf(old(self)@),
            append_fits(old(self)@.list.entries, rm_key(), 10),
        ensures
            final(self)@ == rm_with_list(old(self)@, rm_append(old(self)@.list)),
    {
        let ghost m = self@;
        let len = self.entries.len();
        proof {
            lemma_keys_map(self.entries@, key_of::<RouteMapEntry>(), rm_view_fn(), rm_key(), 0, 0, 10);
            if len > 0 {
                assert(m.list.entries.last() == self.entries@.last()@);
            }
        }
        let start: u32 = if len == 0 {
            10
        } else {
            self.entries[len - 1].sequence + 10
        };
        proof {
            let w = choose|w: int|
                start <= w <= u32::MAX && !has_key(m.list.entries, rm_key(), w);
            lemma_keys_map(self.entries@, key_of::<RouteMapEntry>(), rm_view_fn(), rm_key(), w, 0, 10);
        }
        let n = first_free_seq(&self.entries, start);
        proof {
            lemma_first_free_map(self.entries@, key_of::<RouteMapEntry>(), rm_view_fn(), rm_key(), start as int, n as int);
        }
        self.add_blank(n);
        self.selected = self.entries.len() - 1;
    }

    fn enter_clauses(&mut self, kind: ClauseKind)
        ensures
            final(self)@ == rm_enter_clauses(old(self)@, kind),
    {
        if self.entries.len() > 0 {
            self.clause_mode = true;
            self.clause_kind = kind;
            self.clause_idx = 0;
            self.clause_editing = false;
            self.clause_buf = String::new();
        }
    }

    fn browse_char(&mut self, c: char) -> (r: EditorEffect)
        requires
            rm_wf(old(self)@),
            c == 'a' ==> append_fits(old(self)@.list.entries, rm_key(), 10),
        ensures
            (final(self)@, r@) == rm_browse_char(old(self)@, c),
    {
        assert(self@.list.entries.len() == self.entries.len());
        if c == 'k' {
            if self.selected > 0 {
                self.selected = self.selected - 1;
            }
        } else if c == 'j' {
            if self.selected + 1 < self.entries.len() {
                self.selected = self.selected + 1;
            }
        } else if c == 'i' {
            self.editing = true;
            self.field = 100;
            self.buf = String::new();
            self.error = None;
        } else if c == 'a' {
            self.append();
        } else if c == ' ' {
            if self.selected < self.entries.len() {
                let i = self.selected;
                let x = rm_entry(
                    self.entries[i].sequence,
                    toggle_action(&self.entries[i].action),
                    copy_strings(&self.entries[i].match_clauses),
                    copy_strings(&self.entries[i].set_clauses),
                );
                self.set_entry(i, x);
            }
        } else if c == 'm' {
            self.enter_clauses(ClauseKind::Matches);
        } else if c == 't' {
            self.enter_clauses(ClauseKind::Sets);
        } else if c == 'd' {
            if self.entries.len() > 0 {
                let ghost before = self.entries@;
                self.entries.remove(self.selected);
                assert(self.entries@.map_values(rm_view_fn()) =~= before.map_values(
                    rm_view_fn(),
                ).remove(self.selected as int));
                self.selected = selection_after_delete(self.selected, self.entries.len());
            }
        } else if c == 's' {
            self.step = WizardStep::Review;
            return EditorEffect::Preview;
        }
        EditorEffect::Stay
    }

    fn browse_key(&mut self, key: Key) -> (r: EditorEffect)
        requires
            rm_wf(old(self)@),
            key == Key::Char('a') ==> append_fits(old(self)@.list.entries, rm_key(), 10),
        ensures
            (final(self)@, r@) == rm_browse_key(old(self)@, key),
    {
        assert(self@.list.entries.len() == self.entries.len());
        match key {
            Key::Esc => {
                self.step = WizardStep::Fields;
                self.error = None;
                EditorEffect::Close
            },
            Key::Up => {
                if self.selected > 0 {
                    self.selected = self.selected - 1;
                }
                EditorEffect::Stay
            },
            Key::Down => {
                if self.selected + 1 < self.entries.len() {
                    self.selected = self.selected + 1;
                }
                EditorEffect::Stay
            },
            Key::Enter => {
                if self.selected < self.entries.len() {
                    self.editing = true;
                    self.field = 0;
                    self.buf = self.field_text(0);
                }
                EditorEffect::Stay
            },
            Key::Char(c) => self.browse_char(c),
            _ => EditorEffect::Stay,
        }
    }

    /// A copy of the clause list that the clause mode works on.
    fn clauses(&self) -> (r: Vec<String>)
        requires
            self.selected < self.entries.len(),
        ensures
            r.deep_view() == clause_list(self@.list.entries[self.selected as int], self.clause_kind),
    {
        match self.clause_kind {
            ClauseKind::Matches => copy_strings(&self.entries[self.selected].match_clauses),
            ClauseKind::Sets => copy_strings(&self.entries[self.selected].set_clauses),
        }
    }

    fn set_clauses(&mut self, l: Vec<String>)
        requires
            old(self).selected < old(self).entries.len(),
        ensures
            final(self)@ == set_clause_list(old(self)@, l.deep_view()),
    {
        let i = self.selected;
        let x = match self.clause_kind {
            ClauseKind::Matches => rm_entry(
                self.entries[i].sequence,
                copy_string(&self.entries[i].action),
                l,
                copy_strings(&self.entries[i].set_clauses),
            ),
            ClauseKind::Sets => rm_entry(
                self.entries[i].sequence,
                copy_string(&self.entries[i].action),
                copy_strings(&self.entries[i].match_clauses),
                l,
            ),
        };
        self.set_entry(i, x);
    }

    fn clause_key(&mut self, key: Key) -> (r: EditorEffect)
        requires
            rm_wf(old(self)@),
            old(self).clause_mode,
        ensures
            (final(self)@, r@) == rm_clause_key(old(self)@, key),
    {
        let ghost m = self@;
        let list = self.clauses();
        assert(list.deep_view().len() == list.len());
        if self.clause_editing {
            match key {
                Key::Esc => {
                    self.clause_editing = false;
                },
                Key::Enter => {
                    if self.clause_idx < list.len() {
                        let mut l = list;
                        let ghost before = l.deep_view();
                        l.set(self.clause_idx, copy_string(&self.clause_buf));
                        assert(l.deep_view() =~= before.update(self.clause_idx as int, m.clause_buf));
                        self.set_clauses(l);
                    }
                    self.clause_editing = false;
                },
                Key::Backspace => {
                    self.clause_buf = pop_char(&self.clause_buf);
                },
                Key::Char(c) => {
                    self.clause_buf = push_char(&self.clause_buf, c);
                },
                _ => {},
            }
            return EditorEffect::Stay;
        }
        let up = key == Key::Up || key == Key::Char('k');
        let down = key == Key::Down || key == Key::Char('j');
        if key == Key::Esc {
            self.clause_mode = false;
        } else if up {
            if self.clause_idx > 0 {
                self.clause_idx = self.clause_idx - 1;
            }
        } else if down {
            if self.clause_idx + 1 < list.len() {
                self.clause_idx = self.clause_idx + 1;
            }
        } else if key == Key::Enter {
            if self.clause_idx < list.len() {
                self.clause_buf = copy_string(&list[self.clause_idx]);
                self.clause_editing = true;
            }
        } else if key == Key::Char('a') {
            let p = match self.clause_kind {
                ClauseKind::Matches => String::from_str("ip address prefix-list NAME"),
                ClauseKind::Sets => String::from_str("local-preference 100"),
            };
            let mut l = list;
            let n = l.len();
            let ghost before = l.deep_view();
            l.push(copy_string(&p));
            assert(l.deep_view() =~= before.push(p@));
            self.set_clauses(l);
            self.clause_idx = n;
            self.clause_buf = p;
            self.clause_editing = true;
        } else if key == Key::Char('d') {
            if list.len() > 0 {
                let mut l = list;
                let ghost before = l.deep_view();
                l.remove(self.clause_idx);
                assert(l.deep_view() =~= before.remove(self.clause_idx as int));
                let n = l.len();
                self.set_clauses(l);
                if self.clause_idx >= n && n > 0 {
                    self.clause_idx = n - 1;
                }
            }
        } else if key == Key::Char('p') && self.clause_kind == ClauseKind::Matches && self.clause_idx
            < list.len() {
            let cs = chars_of(list[self.clause_idx].as_str());
            if contains_chars(&cs, &chars_of("prefix-list")) {
                let w = split_words(&cs);
                if w.len() > 0 && w[w.len() - 1].len() > 0 {
                    proof {
                        assert(w.deep_view()[w.len() - 1] =~= w@[w.len() - 1]@);
                    }
                    let name = string_of(&w[w.len() - 1]);
                    self.clause_mode = false;
                    return EditorEffect::OpenPrefixList(name);
                }
            }
        }
        EditorEffect::Stay
    }

    /// Handles one key: the transition `rm_next`.
    pub fn handle_key(&mut self, key: Key) -> (r: EditorEffect)
        requires
            rm_wf(old(self)@),
            rm_appends(old(self)@, key) ==> append_fits(old(self)@.list.entries, rm_key(), 10),
        ensures
            (final(self)@, r@) == rm_next(old(self)@, key),
            rm_wf(final(self)@),
            distinct_keys(old(self)@.list.entries, rm_key()) ==> distinct_keys(
                final(self)@.list.entries,
                rm_key(),
            ),
    {
        proof {
            law_routemap_editor_keeps_invariant(self@, key);
        }
        if self.clause_mode {
            return self.clause_key(key);
        }
        match self.step {
            WizardStep::Fields => {
                if self.editing {
                    if self.field == 100 {
                        self.insert_key(key);
                    } else {
                        self.field_key(key);
                    }
                    EditorEffect::Stay
                } else {
                    self.browse_key(key)
                }
            },
            WizardStep::Review => {
                if key == Key::Esc {
                    self.step = WizardStep::Fields;
                    EditorEffect::Stay
                } else if key == Key::Enter {
                    EditorEffect::Apply
                } else {
                    EditorEffect::Stay
                }
            },
            WizardStep::Applying => EditorEffect::Stay,
            WizardStep::Result(_) => {
                if key == Key::Enter || key == Key::Esc {
                    self.step = WizardStep::Fields;
                    self.error = None;
                    EditorEffect::Close
                } else {
                    EditorEffect::Stay
                }
            },
        }
    }
}

/// A new clause list for the selected entry keeps the numbers and becomes
/// the clause mode's list.
pub proof fn lemma_set_clause_list(m: RouteMapModel, l: Seq<Seq<char>>)
    requires
        m.list.selected < m.list.entries.len(),
        0 <= m.list.selected,
    ensures
        set_clause_list(m, l).list.entries.len() == m.list.entries.len(),
        clause_list(set_clause_list(m, l).list.entries[m.list.selected], m.clause_kind) == l,
        distinct_keys(m.list.entries, rm_key()) ==> distinct_keys(
            set_clause_list(m, l).list.entries,
            rm_key(),
        ),
{
    let e = m.list.entries[m.list.selected];
    if distinct_keys(m.list.entries, rm_key()) {
        lemma_update_distinct(
            m.list.entries,
            m.list.selected,
            with_clauses(e, m.clause_kind, l),
            rm_key(),
        );
    }
}

/// Every key keeps the editor's invariant, and numbers that were distinct
/// stay distinct.
pub proof fn law_routemap_editor_keeps_invariant(m: RouteMapModel, key: Key)
    requires
        rm_wf(m),
        rm_appends(m, key) ==> append_fits(m.list.entries, rm_key(), 10),
    ensures
        rm_wf(rm_next(m, key).0),
        distinct_keys(m.list.entries, rm_key()) ==> distinct_keys(
            rm_next(m, key).0.list.entries,
            rm_key(),
        ),
{
    let k = rm_key();
    let l = m.list;
    if m.clause_mode {
        let list = clause_list(l.entries[l.selected], m.clause_kind);
        if m.clause_editing {
            lemma_set_clause_list(m, list.update(m.clause_idx, m.clause_buf));
        } else {
            lemma_set_clause_list(m, list.push(clause_placeholder(m.clause_kind)));
            if list.len() > 0 {
                lemma_set_clause_list(m, list.remove(m.clause_idx));
            }
        }
    } else if l.step == WizardStep::Fields {
        if l.editing {
            if l.field == 100 {
                if key == Key::Enter {
                    if let Some(n) = parse_unsigned(l.buf, u32::MAX as nat) {
                        lemma_added_position(l.entries, blank_rm_entry(n as u32), k, 0);
                    }
                }
            } else if key == Key::Tab || key == Key::Enter {
                if let Some(c) = rm_commit(l) {
                    if distinct_keys(l.entries, k) {
                        lemma_update_distinct(l.entries, l.selected, c.entries[l.selected], k);
                    }
                    lemma_sort_keys(c.entries, k, 0);
                }
            }
        } else {
            if key == Key::Char('a') {
                let n = append_seq(l.entries, k, 10);
                let start = next_start(l.entries, k, 10);
                let w = choose|w: int| start <= w <= u32::MAX && !has_key(l.entries, k, w);
                let r = choose|r: int| is_first_free(l.entries, k, start, r);
                assert(is_first_free(l.entries, k, start, r)) by {
                    lemma_least_free_exists(l.entries, k, start, w);
                }
                lemma_added_position(l.entries, blank_rm_entry(n as u32), k, l.entries.len() as int);
            } else if key == Key::Char(' ') && l.selected < l.entries.len() {
                let e = l.entries[l.selected];
                if distinct_keys(l.entries, k) {
                    lemma_update_distinct(
                        l.entries,
                        l.selected,
                        RouteMapEntryView { action: toggled_action(e.action), ..e },
                        k,
                    );
                }
            } else if key == Key::Char('d') && l.entries.len() > 0 {
                if distinct_keys(l.entries, k) {
                    lemma_remove_distinct(l.entries, l.selected, k);
                }
            }
        }
    }
}

/// The route-map editor on its entry list, nothing being edited.
pub open spec fn rm_browsing(m: RouteMapModel) -> bool {
    !m.clause_mode && m.list.step == WizardStep::Fields && !m.list.editing
}

/// `a` on the list adds one blank `permit` entry without clauses and keeps
/// every other entry: its number is the least one, from the last entry's
/// number plus 10 (or 10 on an empty list) on, that no entry uses. The list
/// comes out in order of numbers.
pub proof fn law_rm_append_fresh(m: RouteMapModel)
    requires
        rm_browsing(m),
        append_fits(m.list.entries, rm_key(), 10),
    ensures
        ({
            let es = m.list.entries;
            let r = rm_next(m, Key::Char('a')).0;
            let start: int = if es.len() == 0 {
                10
            } else {
                es.last().seq + 10
            };
            exists|n: u32|
                {
                    &&& start <= n
                    &&& forall|j: int| 0 <= j < es.len() ==> #[trigger] es[j].seq != n
                    &&& forall|t: int| start <= t < n ==> #[trigger] has_key(es, rm_key(), t)
                    &&& r.list.entries.to_multiset() == #[trigger] es.push(
                        blank_rm_entry(n),
                    ).to_multiset()
                    &&& sorted_by(r.list.entries, rm_key())
                }
        }),
{
    let es = m.list.entries;
    let k = rm_key();
    let start = next_start(es, k, 10);
    let w = choose|w: int| start <= w <= u32::MAX && !has_key(es, k, w);
    lemma_least_free_exists(es, k, start, w);
    let n0 = append_seq(es, k, 10);
    assert(is_first_free(es, k, start, n0));
    let n = n0 as u32;
    let p = es.push(blank_rm_entry(n));
    law_sort_by_seq(p, k);
    assert forall|j: int| 0 <= j < es.len() implies #[trigger] es[j].seq != n by {
        if es[j].seq == n {
            assert(k(es[j]) == n0);
        }
    }
    assert(rm_next(m, Key::Char('a')).0.list.entries == sort_by_seq(p, k));
}

/// Space on the list flips the selected entry's action, so that a second
/// space gives the editor back as it was; the other entries stay.
pub proof fn law_rm_toggle_twice(m: RouteMapModel)
    requires
        rm_browsing(m),
        0 <= m.list.selected < m.list.entries.len(),
        m.list.entries[m.list.selected].action == "permit"@ || m.list.entries[m.list.selected].action
            == "deny"@,
    ensures
        ({
            let es = m.list.entries;
            let i = m.list.selected;
            let r = rm_next(m, Key::Char(' ')).0;
            &&& r.list.entries.len() == es.len()
            &&& r.list.entries[i].action != es[i].action
            &&& r.list.entries[i].seq == es[i].seq
            &&& r.list.entries[i].matches == es[i].matches
            &&& r.list.entries[i].sets == es[i].sets
            &&& forall|j: int| 0 <= j < es.len() && j != i ==> #[trigger] r.list.entries[j] == es[j]
            &&& rm_next(r, Key::Char(' ')).0 == m
        }),
{
    let es = m.list.entries;
    let i = m.list.selected;
    assert("permit"@ != "deny"@) by {
        reveal_strlit("permit");
        reveal_strlit("deny");
        assert("permit"@.len() != "deny"@.len());
    }
    let r = rm_next(m, Key::Char(' ')).0;
    let r2 = rm_next(r, Key::Char(' ')).0;
    assert(r2.list.entries[i] == es[i]);
    assert(r2.list.entries =~= es);
}

/// `d` on a non-empty list removes the selected entry and nothing else: the
/// entries before it stay in place, those after it move up by one, and the
/// selection stays inside the list.
pub proof fn law_rm_delete_selected(m: RouteMapModel)
    requires
        rm_browsing(m),
        0 <= m.list.selected < m.list.entries.len(),
    ensures
        ({
            let es = m.list.entries;
            let r = rm_next(m, Key::Char('d')).0;
            &&& r.list.entries.len() == es.len() - 1
            &&& forall|j: int| 0 <= j < m.list.selected ==> #[trigger] r.list.entries[j] == es[j]
            &&& forall|j: int|
                m.list.selected <= j < r.list.entries.len() ==> #[trigger] r.list.entries[j] == es[j
                    + 1]
            &&& (r.list.selected < r.list.entries.len() || (r.list.entries.len() == 0
                && r.list.selected == 0))
        }),
{
}

/// In the clause mode, `a` adds the placeholder clause at the end of the
/// selected entry's clause list and edits it; `d` removes the clause under
/// the cursor. Either way the entry's other clause list, its number and
/// action, and the other entries stay.
pub proof fn law_rm_clause_add_delete(m: RouteMapModel, key: Key)
    requires
        rm_wf(m),
        m.clause_mode,
        !m.clause_editing,
        key == Key::Char('a') || key == Key::Char('d'),
    ensures
        ({
            let es = m.list.entries;
            let i = m.list.selected;
            let kind = m.clause_kind;
            let old_list = clause_list(es[i], kind);
            let r = rm_next(m, key).0;
            let e2 = r.list.entries[i];
            &&& r.list.entries.len() == es.len()
            &&& forall|j: int| 0 <= j < es.len() && j != i ==> #[trigger] r.list.entries[j] == es[j]
            &&& e2.seq == es[i].seq
            &&& e2.action == es[i].action
            &&& clause_list(e2, other_kind(kind)) == clause_list(es[i], other_kind(kind))
            &&& key == Key::Char('a') ==> clause_list(e2, kind) == old_list.push(
                clause_placeholder(kind),
            ) && r.clause_editing && r.clause_idx == old_list.len()
            &&& (key == Key::Char('d') && old_list.len() > 0) ==> clause_list(e2, kind).len()
                == old_list.len() - 1 && (forall|j: int|
                0 <= j < m.clause_idx ==> #[trigger] clause_list(e2, kind)[j] == old_list[j]) && (
            forall|j: int|
                m.clause_idx <= j < old_list.len() - 1 ==> #[trigger] clause_list(e2, kind)[j]
                    == old_list[j + 1])
        }),
{
}

/// The clause list that is not `kind`.
pub open spec fn other_kind(kind: ClauseKind) -> ClauseKind {
    match kind {
        ClauseKind::Matches => ClauseKind::Sets,
        ClauseKind::Sets => ClauseKind::Matches,
    }
}

} // verus!

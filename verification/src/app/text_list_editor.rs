//! The prefix-list and community-list editors: a list of numbered entries,
//! each with an action and one text value (the prefix or the community).

use vstd::prelude::*;

use crate::app::list_edit::{
    after_fields_key, append_fits, append_seq, can_append, closed_model, distinct_keys,
    duplicate_seq_message, duplicate_seq_msg, find_key, first_free_seq, has_key, has_key_except,
    invalid_entry_message, invalid_entry_msg, invalid_seq_msg, is_first_free, key_exists,
    key_exists_except, key_position, lemma_added_position, lemma_find_key_bounds,
    lemma_first_free_map, lemma_least_free_exists, lemma_remove_distinct, lemma_sort_keys,
    lemma_update_distinct,
    lemma_keys_map, move_down, move_up, next_start, pop_char, popped, position_or, push_char,
    selection_after_delete, selection_after_remove, toggle_action, toggled_action, EditorEffect,
    EffectModel, Key, ListEditorModel,
};
use crate::app::types::WizardStep;
use crate::app::sort::{
    key_of, law_sort_by_seq, lemma_sort_map, sort_by_seq, sort_entries, sorted_by, Sequenced,
};
use crate::bgp::policy::{
    community_entry_check, prefix_entry_check, result_view, CommunityListEntry,
    PrefixListEntry, TextEntryView,
};
use crate::text::{
    ascii_digit, chars_of, copy_string, decimal, decimal_chars, is_ascii_digit, opt_view, parse_unsigned,
    parse_unsigned_chars, string_of, trim, trim_chars,
};

verus! {

/// Which of the two lists an editor edits.
#[derive(Debug, Clone, Copy, PartialEq, Eq, Structural)]
pub enum TextListKind {
    PrefixList,
    CommunityList,
}

/// The validation that the preview runs on every entry.
pub open spec fn entry_check(kind: TextListKind, v: TextEntryView) -> Result<(), Seq<char>> {
    match kind {
        TextListKind::PrefixList => prefix_entry_check(v.action, v.value),
        TextListKind::CommunityList => community_entry_check(v.action, v.value),
    }
}

/// An entry of a text list: a prefix-list or a community-list entry.
pub trait TextEntry: Sequenced {
    spec fn text_view(&self) -> TextEntryView;

    spec fn list_kind() -> TextListKind;

    fn kind() -> (r: TextListKind)
        ensures
            r == Self::list_kind(),
    ;

    fn make(seq: u32, action: String, value: String) -> (r: Self)
        ensures
            r.text_view() == (TextEntryView { seq, action: action@, value: value@ }),
    ;

    fn action_text(&self) -> (r: &String)
        ensures
            r@ == self.text_view().action,
    ;

    fn value_text(&self) -> (r: &String)
        ensures
            r@ == self.text_view().value,
    ;

    fn check(&self) -> (r: Result<(), String>)
        ensures
            result_view(r) == entry_check(Self::list_kind(), self.text_view()),
    ;

    proof fn lemma_key(e: Self)
        ensures
            e.seq_key() == e.text_view().seq,
    ;
}

impl Sequenced for PrefixListEntry {
    open spec fn seq_key(&self) -> u32 {
        self.seq
    }

    fn seq_number(&self) -> (r: u32) {
        self.seq
    }
}

impl Sequenced for CommunityListEntry {
    open spec fn seq_key(&self) -> u32 {
        self.seq
    }

    fn seq_number(&self) -> (r: u32) {
        self.seq
    }
}

impl TextEntry for PrefixListEntry {
    open spec fn text_view(&self) -> TextEntryView {
        self@
    }

    open spec fn list_kind() -> TextListKind {
        TextListKind::PrefixList
    }

    fn kind() -> (r: TextListKind) {
        TextListKind::PrefixList
    }

    fn make(seq: u32, action: String, value: String) -> (r: Self) {
        PrefixListEntry { seq, action, prefix: value }
    }

    fn action_text(&self) -> (r: &String) {
        &self.action
    }

    fn value_text(&self) -> (r: &String) {
        &self.prefix
    }

    fn check(&self) -> (r: Result<(), String>) {
        self.validate()
    }

    proof fn lemma_key(e: Self) {
    }
}

impl TextEntry for CommunityListEntry {
    open spec fn text_view(&self) -> TextEntryView {
        self@
    }

    open spec fn list_kind() -> TextListKind {
        TextListKind::CommunityList
    }

    fn kind() -> (r: TextListKind) {
        TextListKind::CommunityList
    }

    fn make(seq: u32, action: String, value: String) -> (r: Self) {
        CommunityListEntry { seq, action, community: value }
    }

    fn action_text(&self) -> (r: &String) {
        &self.action
    }

    fn value_text(&self) -> (r: &String) {
        &self.community
    }

    fn check(&self) -> (r: Result<(), String>) {
        self.validate()
    }

    proof fn lemma_key(e: Self) {
    }
}

pub type TextModel = ListEditorModel<TextEntryView>;

pub open spec fn text_view_fn<E: TextEntry>() -> spec_fn(E) -> TextEntryView {
    |e: E| e.text_view()
}

pub open spec fn text_key() -> spec_fn(TextEntryView) -> u32 {
    |v: TextEntryView| v.seq
}

// ─── The transitions ─────────────────────────────────────────────────────────

/// The editor's invariant: the selection is in the list (or 0 on an empty
/// list), and an edited field belongs to a selected entry unless it is the
/// number prompt (100) or, for prefix lists, the name prompt (99).
pub open spec fn text_wf(kind: TextListKind, m: TextModel) -> bool {
    &&& 0 <= m.selected
    &&& (m.selected == 0 || m.selected < m.entries.len())
    &&& 0 <= m.field
    &&& m.editing ==> (m.field == 100 || (m.field == 99 && kind == TextListKind::PrefixList) || (
    m.field < 3 && m.selected < m.entries.len()))
}

pub open spec fn blank_text_entry(seq: u32) -> TextEntryView {
    TextEntryView { seq, action: "permit"@, value: seq![] }
}

/// The text a field shows when it is entered.
pub open spec fn text_field_of(e: TextEntryView, f: int) -> Seq<char> {
    if f == 0 {
        decimal(e.seq as nat)
    } else if f == 1 {
        e.action
    } else if f == 2 {
        e.value
    } else {
        seq![]
    }
}

/// The entry after the buffer was committed to field `f` (1 or 2).
pub open spec fn text_entry_with(e: TextEntryView, f: int, buf: Seq<char>) -> TextEntryView {
    if f == 1 {
        TextEntryView { action: buf, ..e }
    } else if f == 2 {
        TextEntryView { value: buf, ..e }
    } else {
        e
    }
}

/// The number a committed number field asks for: the parsed buffer, or the
/// entry's own number when the buffer does not parse.
pub open spec fn typed_seq(m: TextModel) -> nat {
    match parse_unsigned(m.buf, u32::MAX as nat) {
        Some(n) => n,
        None => m.entries[m.selected].seq as nat,
    }
}

/// Committing the edited field; `None` when the number is taken by another
/// entry.
pub open spec fn text_commit(m: TextModel) -> Option<TextModel> {
    let e = m.entries[m.selected];
    if m.field == 0 {
        let n = typed_seq(m);
        if n != e.seq && has_key_except(m.entries, text_key(), m.selected, n as int) {
            None
        } else {
            Some(
                ListEditorModel {
                    error: None,
                    entries: m.entries.update(m.selected, TextEntryView { seq: n as u32, ..e }),
                    ..m
                },
            )
        }
    } else {
        Some(
            ListEditorModel {
                entries: m.entries.update(m.selected, text_entry_with(e, m.field, m.buf)),
                ..m
            },
        )
    }
}

pub open spec fn with_error(m: TextModel, msg: Seq<char>) -> TextModel {
    ListEditorModel { error: Some(msg), ..m }
}

/// A key in the prompt for a new entry's number.
pub open spec fn text_insert_key(kind: TextListKind, m: TextModel, key: Key) -> TextModel {
    match key {
        Key::Esc => ListEditorModel { editing: false, error: None, ..m },
        Key::Enter => match parse_unsigned(m.buf, u32::MAX as nat) {
            None => with_error(m, invalid_seq_msg()),
            Some(n) => {
                if has_key(m.entries, text_key(), n as int) {
                    with_error(m, duplicate_seq_msg(n))
                } else {
                    let es = sort_by_seq(m.entries.push(blank_text_entry(n as u32)), text_key());
                    let pl = kind == TextListKind::PrefixList;
                    ListEditorModel {
                        error: None,
                        entries: es,
                        selected: position_or(es, text_key(), n as int, 0),
                        editing: true,
                        field: if pl {
                            2
                        } else {
                            1
                        },
                        buf: if pl {
                            seq![]
                        } else {
                            "permit"@
                        },
                        ..m
                    }
                }
            },
        },
        Key::Backspace => ListEditorModel { buf: popped(m.buf), ..m },
        Key::Char(c) => {
            if is_ascii_digit(c) {
                ListEditorModel { buf: m.buf.push(c), ..m }
            } else {
                m
            }
        },
        _ => m,
    }
}

/// A key in the prefix list's name prompt.
pub open spec fn text_rename_key(m: TextModel, key: Key) -> TextModel {
    match key {
        Key::Esc => ListEditorModel { editing: false, ..m },
        Key::Enter => ListEditorModel {
            name: if m.buf.len() > 0 {
                m.buf
            } else {
                m.name
            },
            editing: false,
            ..m
        },
        Key::Backspace => ListEditorModel { buf: popped(m.buf), ..m },
        Key::Char(c) => ListEditorModel { buf: m.buf.push(c), ..m },
        _ => m,
    }
}

/// A key while a field of the selected entry is edited.
pub open spec fn text_field_key(kind: TextListKind, m: TextModel, key: Key) -> TextModel {
    match key {
        Key::Esc => ListEditorModel { editing: false, ..m },
        Key::Tab => match text_commit(m) {
            None => with_error(m, duplicate_seq_msg(typed_seq(m))),
            Some(c) => {
                let f = (c.field + 1) % 3;
                ListEditorModel { field: f, buf: text_field_of(c.entries[c.selected], f), ..c }
            },
        },
        Key::Enter => match text_commit(m) {
            None => with_error(m, duplicate_seq_msg(typed_seq(m))),
            Some(c) => {
                if kind == TextListKind::PrefixList && m.field < 2 {
                    let f = m.field + 1;
                    ListEditorModel {
                        field: f,
                        buf: text_field_of(c.entries[c.selected], f),
                        ..c
                    }
                } else {
                    ListEditorModel {
                        editing: false,
                        entries: sort_by_seq(c.entries, text_key()),
                        ..c
                    }
                }
            },
        },
        Key::Char(c) => {
            if c == ' ' && m.field == 1 {
                ListEditorModel { buf: toggled_action(m.buf), ..m }
            } else {
                ListEditorModel { buf: m.buf.push(c), ..m }
            }
        },
        Key::Backspace => ListEditorModel { buf: popped(m.buf), ..m },
        _ => m,
    }
}

/// Enter on the list: edit the selected entry (a prefix-list entry without
/// a prefix starts at the prefix).
pub open spec fn text_open_entry(kind: TextListKind, m: TextModel) -> TextModel {
    if m.selected < m.entries.len() {
        let e = m.entries[m.selected];
        if kind == TextListKind::PrefixList && trim(e.value).len() == 0 {
            ListEditorModel { editing: true, field: 2, buf: seq![], ..m }
        } else {
            ListEditorModel { editing: true, field: 0, buf: decimal(e.seq as nat), ..m }
        }
    } else {
        m
    }
}

/// `a`: a new `permit` entry numbered after the last one.
pub open spec fn text_append(kind: TextListKind, m: TextModel) -> TextModel {
    let n = append_seq(m.entries, text_key(), 5);
    let es = sort_by_seq(m.entries.push(blank_text_entry(n as u32)), text_key());
    if kind == TextListKind::PrefixList {
        ListEditorModel {
            entries: es,
            selected: position_or(es, text_key(), n, es.len() - 1),
            editing: true,
            field: 2,
            buf: seq![],
            ..m
        }
    } else {
        ListEditorModel { entries: es, selected: es.len() - 1, ..m }
    }
}

pub open spec fn text_toggle_selected(m: TextModel) -> TextModel {
    if m.selected < m.entries.len() {
        let e = m.entries[m.selected];
        ListEditorModel {
            entries: m.entries.update(
                m.selected,
                TextEntryView { action: toggled_action(e.action), ..e },
            ),
            ..m
        }
    } else {
        m
    }
}

pub open spec fn text_delete_selected(m: TextModel) -> TextModel {
    if m.entries.len() > 0 {
        let es = m.entries.remove(m.selected);
        ListEditorModel { entries: es, selected: selection_after_remove(m.selected, es.len() as int), ..m }
    } else {
        m
    }
}

/// The message of the first entry from `i` on that fails validation.
pub open spec fn first_invalid(kind: TextListKind, es: Seq<TextEntryView>, i: int) -> Option<
    Seq<char>,
>
    decreases es.len() - i,
{
    if i < 0 || i >= es.len() {
        None
    } else {
        match entry_check(kind, es[i]) {
            Err(e) => Some(invalid_entry_msg(i, es[i].seq, e)),
            Ok(()) => first_invalid(kind, es, i + 1),
        }
    }
}

/// `s`: validate every entry, then review the commands.
pub open spec fn text_preview(kind: TextListKind, m: TextModel) -> (TextModel, EffectModel) {
    match first_invalid(kind, m.entries, 0) {
        Some(msg) => (with_error(m, msg), EffectModel::Stay),
        None => (
            ListEditorModel { error: None, step: WizardStep::Review, ..m },
            EffectModel::Preview,
        ),
    }
}

/// A character key on the list.
pub open spec fn text_browse_char(kind: TextListKind, m: TextModel, c: char) -> (
    TextModel,
    EffectModel,
) {
    if c == 'k' {
        (move_up(m), EffectModel::Stay)
    } else if c == 'j' {
        (move_down(m), EffectModel::Stay)
    } else if c == 'i' {
        (
            ListEditorModel { editing: true, field: 100, buf: seq![], error: None, ..m },
            EffectModel::Stay,
        )
    } else if c == 'a' {
        (text_append(kind, m), EffectModel::Stay)
    } else if c == ' ' {
        (text_toggle_selected(m), EffectModel::Stay)
    } else if c == 'd' {
        (text_delete_selected(m), EffectModel::Stay)
    } else if c == 'N' && kind == TextListKind::PrefixList {
        (ListEditorModel { editing: true, field: 99, buf: m.name, ..m }, EffectModel::Stay)
    } else if c == 's' {
        text_preview(kind, m)
    } else {
        (m, EffectModel::Stay)
    }
}

/// A key on the list, nothing being edited.
pub open spec fn text_browse_key(kind: TextListKind, m: TextModel, key: Key) -> (
    TextModel,
    EffectModel,
) {
    match key {
        Key::Esc => (closed_model(m), EffectModel::Close),
        Key::Up => (move_up(m), EffectModel::Stay),
        Key::Down => (move_down(m), EffectModel::Stay),
        Key::Enter => (text_open_entry(kind, m), EffectModel::Stay),
        Key::Char(c) => text_browse_char(kind, m, c),
        _ => (m, EffectModel::Stay),
    }
}

/// What a key does to a prefix-list or community-list editor.
pub open spec fn text_next(kind: TextListKind, m: TextModel, key: Key) -> (TextModel, EffectModel) {
    if m.step == WizardStep::Fields {
        if m.editing {
            if m.field == 100 {
                (text_insert_key(kind, m, key), EffectModel::Stay)
            } else if m.field == 99 && kind == TextListKind::PrefixList {
                (text_rename_key(m, key), EffectModel::Stay)
            } else {
                (text_field_key(kind, m, key), EffectModel::Stay)
            }
        } else {
            text_browse_key(kind, m, key)
        }
    } else {
        after_fields_key(m, key)
    }
}

/// The key would number a new entry with `a`.
pub open spec fn text_appends(m: TextModel, key: Key) -> bool {
    m.step == WizardStep::Fields && !m.editing && key == Key::Char('a')
}

// ─── The editor ──────────────────────────────────────────────────────────────

/// The state of a prefix-list or community-list editor.
pub struct TextListEditor<E> {
    pub name: String,
    pub entries: Vec<E>,
    pub selected: usize,
    pub editing: bool,
    pub field: usize,
    pub buf: String,
    pub step: WizardStep,
    pub error: Option<String>,
}

pub type PrefixListEditor = TextListEditor<PrefixListEntry>;

pub type CommunityListEditor = TextListEditor<CommunityListEntry>;

impl<E: TextEntry> View for TextListEditor<E> {
    type V = TextModel;

    open spec fn view(&self) -> TextModel {
        ListEditorModel {
            name: self.name@,
            entries: self.entries@.map_values(text_view_fn::<E>()),
            selected: self.selected as int,
            editing: self.editing,
            field: self.field as int,
            buf: self.buf@,
            step: self.step,
            error: opt_view(self.error),
        }
    }
}

pub proof fn lemma_text_keys<E: TextEntry>()
    ensures
        forall|a: E| #[trigger] text_key()(text_view_fn::<E>()(a)) == key_of::<E>()(a),
{
    assert forall|a: E| #[trigger] text_key()(text_view_fn::<E>()(a)) == key_of::<E>()(a) by {
        E::lemma_key(a);
    }
}

impl<E: TextEntry> TextListEditor<E> {
    /// A fresh editor on the named list.
    pub fn open(name: &str, entries: Vec<E>) -> (r: Self)
        ensures
            r@ == (ListEditorModel {
                name: name@,
                entries: entries@.map_values(text_view_fn::<E>()),
                selected: 0,
                editing: false,
                field: 0,
                buf: Seq::<char>::empty(),
                step: WizardStep::Fields,
                error: None::<Seq<char>>,
            }),
            text_wf(E::list_kind(), r@),
    {
        TextListEditor {
            name: string_of(&chars_of(name)),
            entries,
            selected: 0,
            editing: false,
            field: 0,
            buf: String::new(),
            step: WizardStep::Fields,
            error: None,
        }
    }

    /// Whether `a` can number a new entry within `u32`.
    pub fn can_add(&self) -> (r: bool)
        ensures
            r == append_fits(self@.entries, text_key(), 5),
    {
        let r = can_append(&self.entries, 5);
        proof {
            let s = self.entries@;
            let t = s.map_values(text_view_fn::<E>());
            lemma_text_keys::<E>();
            lemma_keys_map(s, key_of::<E>(), text_view_fn::<E>(), text_key(), 0, 0, 5);
            let start = next_start(t, text_key(), 5);
            if append_fits(s, key_of::<E>(), 5) {
                let w = choose|w: int| start <= w <= u32::MAX && !has_key(s, key_of::<E>(), w);
                lemma_keys_map(s, key_of::<E>(), text_view_fn::<E>(), text_key(), w, 0, 5);
            }
            if append_fits(t, text_key(), 5) {
                let w = choose|w: int| start <= w <= u32::MAX && !has_key(t, text_key(), w);
                lemma_keys_map(s, key_of::<E>(), text_view_fn::<E>(), text_key(), w, 0, 5);
            }
        }
        r
    }

    fn set_entry(&mut self, i: usize, e: E)
        requires
            i < old(self).entries.len(),
        ensures
            final(self)@ == (ListEditorModel {
                entries: old(self)@.entries.update(i as int, e.text_view()),
                ..old(self)@
            }),
    {
        let ghost before = self.entries@;
        self.entries.set(i, e);
        assert(self.entries@.map_values(text_view_fn::<E>()) =~= before.map_values(
            text_view_fn::<E>(),
        ).update(i as int, e.text_view()));
    }

    fn sort(&mut self)
        ensures
            final(self)@ == (ListEditorModel {
                entries: sort_by_seq(old(self)@.entries, text_key()),
                ..old(self)@
            }),
    {
        let ghost before = self.entries@;
        sort_entries(&mut self.entries);
        proof {
            lemma_text_keys::<E>();
            lemma_sort_map(before, key_of::<E>(), text_view_fn::<E>(), text_key());
        }
    }

    /// Pushes a blank `permit` entry and sorts.
    fn add_blank(&mut self, n: u32)
        ensures
            final(self)@ == (ListEditorModel {
                entries: sort_by_seq(old(self)@.entries.push(blank_text_entry(n)), text_key()),
                ..old(self)@
            }),
    {
        let e = E::make(n, String::from_str("permit"), String::new());
        let ghost before = self.entries@;
        self.entries.push(e);
        assert(self.entries@.map_values(text_view_fn::<E>()) =~= before.map_values(
            text_view_fn::<E>(),
        ).push(blank_text_entry(n)));
        self.sort();
    }

    /// The entry's number committed from the buffer when the field is the
    /// number, else the buffer's text into the field.
    fn commit(&mut self) -> (ok: bool)
        requires
            text_wf(E::list_kind(), old(self)@),
            old(self).editing,
            old(self).field < 3,
        ensures
            ok == (text_commit(old(self)@) is Some),
            ok ==> final(self)@ == text_commit(old(self)@)->0,
            !ok ==> final(self)@ == with_error(old(self)@, duplicate_seq_msg(typed_seq(old(self)@))),
    {
        let ghost m = self@;
        let i = self.selected;
        let cur = self.entries[i].seq_number();
        proof {
            lemma_text_keys::<E>();
            E::lemma_key(self.entries@[i as int]);
            assert(m.entries[i as int] == self.entries@[i as int].text_view());
        }
        if self.field == 0 {
            let n: u32 = match parse_unsigned_chars(&chars_of(self.buf.as_str()), 0xffff_ffff) {
                Some(v) => v as u32,
                None => cur,
            };
            assert(n == typed_seq(m));
            proof {
                lemma_keys_map(self.entries@, key_of::<E>(), text_view_fn::<E>(), text_key(), n as int, i as int, 0);
            }
            if n != cur && key_exists_except(&self.entries, i, n) {
                self.error = Some(duplicate_seq_message(n));
                return false;
            }
            self.error = None;
            let e = E::make(
                n,
                copy_string(self.entries[i].action_text()),
                copy_string(self.entries[i].value_text()),
            );
            self.set_entry(i, e);
        } else {
            let e = if self.field == 1 {
                E::make(cur, copy_string(&self.buf), copy_string(self.entries[i].value_text()))
            } else {
                E::make(cur, copy_string(self.entries[i].action_text()), copy_string(&self.buf))
            };
            self.set_entry(i, e);
        }
        assert(self@ == text_commit(m)->0);
        true
    }

    /// The text of field `f` of the selected entry.
    fn field_text(&self, f: usize) -> (r: String)
        requires
            self.selected < self.entries.len(),
        ensures
            r@ == text_field_of(self@.entries[self.selected as int], f as int),
    {
        let e = &self.entries[self.selected];
        proof {
            E::lemma_key(*e);
        }
        if f == 0 {
            string_of(&decimal_chars(e.seq_number() as u64))
        } else if f == 1 {
            copy_string(e.action_text())
        } else if f == 2 {
            copy_string(e.value_text())
        } else {
            String::new()
        }
    }

    fn insert_key(&mut self, key: Key)
        requires
            text_wf(E::list_kind(), old(self)@),
            old(self).editing,
            old(self).field == 100,
        ensures
            final(self)@ == text_insert_key(E::list_kind(), old(self)@, key),
    {
        let ghost m = self@;
        match key {
            Key::Esc => {
                self.editing = false;
                self.error = None;
            },
            Key::Enter => {
                match parse_unsigned_chars(&chars_of(self.buf.as_str()), 0xffff_ffff) {
                    None => {
                        self.error = Some(String::from_str("Invalid sequence number"));
                    },
                    Some(v) => {
                        let n = v as u32;
                        proof {
                            lemma_text_keys::<E>();
                            lemma_keys_map(self.entries@, key_of::<E>(), text_view_fn::<E>(), text_key(), n as int, 0, 0);
                        }
                        if key_exists(&self.entries, n) {
                            self.error = Some(duplicate_seq_message(n));
                        } else {
                            self.error = None;
                            self.add_blank(n);
                            proof {
                                lemma_text_keys::<E>();
                                lemma_keys_map(self.entries@, key_of::<E>(), text_view_fn::<E>(), text_key(), n as int, 0, 0);
                            }
                            self.selected = match key_position(&self.entries, n) {
                                Some(p) => p,
                                None => 0,
                            };
                            self.editing = true;
                            if E::kind() == TextListKind::PrefixList {
                                self.field = 2;
                                self.buf = String::new();
                            } else {
                                self.field = 1;
                                self.buf = String::from_str("permit");
                            }
                        }
                    },
                }
            },
            Key::Backspace => {
                self.buf = pop_char(&self.buf);
            },
            Key::Char(c) => {
                if ascii_digit(c) {
                    self.buf = push_char(&self.buf, c);
                }
            },
            _ => {},
        }
    }

    fn rename_key(&mut self, key: Key)
        ensures
            final(self)@ == text_rename_key(old(self)@, key),
    {
        match key {
            Key::Esc => {
                self.editing = false;
            },
            Key::Enter => {
                if chars_of(self.buf.as_str()).len() > 0 {
                    self.name = copy_string(&self.buf);
                }
                self.editing = false;
            },
            Key::Backspace => {
                self.buf = pop_char(&self.buf);
            },
            Key::Char(c) => {
                self.buf = push_char(&self.buf, c);
            },
            _ => {},
        }
    }

    fn field_key(&mut self, key: Key)
        requires
            text_wf(E::list_kind(), old(self)@),
            old(self).editing,
            old(self).field != 100,
            !(old(self).field == 99 && E::list_kind() == TextListKind::PrefixList),
        ensures
            final(self)@ == text_field_key(E::list_kind(), old(self)@, key),
    {
        match key {
            Key::Esc => {
                self.editing = false;
            },
            Key::Tab => {
                if self.commit() {
                    let f = (self.field + 1) % 3;
                    self.field = f;
                    self.buf = self.field_text(f);
                }
            },
            Key::Enter => {
                let f0 = self.field;
                if self.commit() {
                    if E::kind() == TextListKind::PrefixList && f0 < 2 {
                        self.field = f0 + 1;
                        self.buf = self.field_text(f0 + 1);
                    } else {
                        self.editing = false;
                        self.sort();
                    }
                }
            },
            Key::Char(c) => {
                if c == ' ' && self.field == 1 {
                    self.buf = toggle_action(&self.buf);
                } else {
                    self.buf = push_char(&self.buf, c);
                }
            },
            Key::Backspace => {
                self.buf = pop_char(&self.buf);
            },
            _ => {},
        }
    }

    fn up(&mut self)
        ensures
            final(self)@ == move_up(old(self)@),
    {
        if self.selected > 0 {
            self.selected = self.selected - 1;
        }
    }

    fn down(&mut self)
        requires
            text_wf(E::list_kind(), old(self)@),
        ensures
            final(self)@ == move_down(old(self)@),
    {
        assert(self@.entries.len() == self.entries.len());
        if self.selected + 1 < self.entries.len() {
            self.selected = self.selected + 1;
        }
    }

    fn open_entry(&mut self)
        ensures
            final(self)@ == text_open_entry(E::list_kind(), old(self)@),
    {
        if self.selected < self.entries.len() {
            let blank = E::kind() == TextListKind::PrefixList && trim_chars(
                &chars_of(self.entries[self.selected].value_text().as_str()),
            ).len() == 0;
            self.editing = true;
            if blank {
                self.field = 2;
                self.buf = String::new();
            } else {
                self.field = 0;
                self.buf = self.field_text(0);
            }
        }
    }

    fn append(&mut self)
        requires
            text_wf(E::list_kind(), old(self)@),
            append_fits(old(self)@.entries, text_key(), 5),
        ensures
            final(self)@ == text_append(E::list_kind(), old(self)@),
    {
        let ghost m = self@;
        let len = self.entries.len();
        proof {
            lemma_text_keys::<E>();
            lemma_keys_map(self.entries@, key_of::<E>(), text_view_fn::<E>(), text_key(), 0, 0, 5);
            if len > 0 {
                assert(m.entries.last() == self.entries@.last().text_view());
                E::lemma_key(self.entries@.last());
            }
        }
        let start: u32 = if len == 0 {
            5
        } else {
            self.entries[len - 1].seq_number() + 5
        };
        proof {
            let w = choose|w: int| start <= w <= u32::MAX && !has_key(m.entries, text_key(), w);
            lemma_keys_map(self.entries@, key_of::<E>(), text_view_fn::<E>(), text_key(), w, 0, 5);
        }
        let n = first_free_seq(&self.entries, start);
        proof {
            lemma_first_free_map(self.entries@, key_of::<E>(), text_view_fn::<E>(), text_key(), start as int, n as int);
        }
        self.add_blank(n);
        proof {
            lemma_sort_keys(m.entries.push(blank_text_entry(n)), text_key(), n as int);
            assert(m.entries.push(blank_text_entry(n))[m.entries.len() as int] == blank_text_entry(n));
            lemma_keys_map(self.entries@, key_of::<E>(), text_view_fn::<E>(), text_key(), n as int, 0, 5);
        }
        if E::kind() == TextListKind::PrefixList {
            let l = self.entries.len();
            self.selected = match key_position(&self.entries, n) {
                Some(p) => p,
                None => l - 1,
            };
            self.editing = true;
            self.field = 2;
            self.buf = String::new();
        } else {
            self.selected = self.entries.len() - 1;
        }
    }

    fn toggle_selected(&mut self)
        ensures
            final(self)@ == text_toggle_selected(old(self)@),
    {
        if self.selected < self.entries.len() {
            let i = self.selected;
            proof {
                E::lemma_key(self.entries@[i as int]);
            }
            let e = E::make(
                self.entries[i].seq_number(),
                toggle_action(self.entries[i].action_text()),
                copy_string(self.entries[i].value_text()),
            );
            self.set_entry(i, e);
        }
    }

    fn delete_selected(&mut self)
        requires
            text_wf(E::list_kind(), old(self)@),
        ensures
            final(self)@ == text_delete_selected(old(self)@),
    {
        if self.entries.len() > 0 {
            let ghost before = self.entries@;
            self.entries.remove(self.selected);
            assert(self.entries@.map_values(text_view_fn::<E>()) =~= before.map_values(
                text_view_fn::<E>(),
            ).remove(self.selected as int));
            self.selected = selection_after_delete(self.selected, self.entries.len());
        }
    }

    fn preview(&mut self) -> (r: EditorEffect)
        ensures
            (final(self)@, r@) == text_preview(E::list_kind(), old(self)@),
    {
        let ghost m = self@;
        let mut i: usize = 0;
        while i < self.entries.len()
            invariant
                i <= self.entries.len(),
                m.entries.len() == self.entries.len(),
                self@ == m,
                m == old(self)@,
                first_invalid(E::list_kind(), m.entries, 0) == first_invalid(
                    E::list_kind(),
                    m.entries,
                    i as int,
                ),
            decreases self.entries.len() - i,
        {
            proof {
                E::lemma_key(self.entries@[i as int]);
                assert(m.entries[i as int] == self.entries@[i as int].text_view());
            }
            match self.entries[i].check() {
                Err(e) => {
                    let msg = invalid_entry_message(i, self.entries[i].seq_number(), &e);
                    assert(first_invalid(E::list_kind(), m.entries, i as int) == Some(msg@));
                    self.error = Some(msg);
                    assert(self@ == with_error(m, msg@));
                    return EditorEffect::Stay;
                },
                Ok(()) => {},
            }
            i = i + 1;
        }
        self.error = None;
        self.step = WizardStep::Review;
        EditorEffect::Preview
    }

    fn browse_key(&mut self, key: Key) -> (r: EditorEffect)
        requires
            text_wf(E::list_kind(), old(self)@),
            !old(self).editing,
            old(self).step == WizardStep::Fields,
            text_appends(old(self)@, key) ==> append_fits(old(self)@.entries, text_key(), 5),
        ensures
            (final(self)@, r@) == text_browse_key(E::list_kind(), old(self)@, key),
    {
        match key {
            Key::Esc => {
                self.step = WizardStep::Fields;
                self.error = None;
                EditorEffect::Close
            },
            Key::Up => {
                self.up();
                EditorEffect::Stay
            },
            Key::Down => {
                self.down();
                EditorEffect::Stay
            },
            Key::Enter => {
                self.open_entry();
                EditorEffect::Stay
            },
            Key::Char(c) => {
                if c == 'k' {
                    self.up();
                    EditorEffect::Stay
                } else if c == 'j' {
                    self.down();
                    EditorEffect::Stay
                } else if c == 'i' {
                    self.editing = true;
                    self.field = 100;
                    self.buf = String::new();
                    self.error = None;
                    EditorEffect::Stay
                } else if c == 'a' {
                    self.append();
                    EditorEffect::Stay
                } else if c == ' ' {
                    self.toggle_selected();
                    EditorEffect::Stay
                } else if c == 'd' {
                    self.delete_selected();
                    EditorEffect::Stay
                } else if c == 'N' && E::kind() == TextListKind::PrefixList {
                    self.editing = true;
                    self.field = 99;
                    self.buf = copy_string(&self.name);
                    EditorEffect::Stay
                } else if c == 's' {
                    self.preview()
                } else {
                    EditorEffect::Stay
                }
            },
            _ => EditorEffect::Stay,
        }
    }

    /// Handles one key: the transition `text_next`.
    pub fn handle_key(&mut self, key: Key) -> (r: EditorEffect)
        requires
            text_wf(E::list_kind(), old(self)@),
            text_appends(old(self)@, key) ==> append_fits(old(self)@.entries, text_key(), 5),
        ensures
            (final(self)@, r@) == text_next(E::list_kind(), old(self)@, key),
            text_wf(E::list_kind(), final(self)@),
            distinct_keys(old(self)@.entries, text_key()) ==> distinct_keys(
                final(self)@.entries,
                text_key(),
            ),
    {
        proof {
            law_text_editor_keeps_invariant(E::list_kind(), self@, key);
        }
        match self.step {
            WizardStep::Fields => {
                if self.editing {
                    if self.field == 100 {
                        self.insert_key(key);
                    } else if self.field == 99 && E::kind() == TextListKind::PrefixList {
                        self.rename_key(key);
                    } else {
                        self.field_key(key);
                    }
                    EditorEffect::Stay
                } else {
                    self.browse_key(key)
                }
            },
            WizardStep::Review => {
                if key == Key::Esc {
                    self.step = WizardStep::Fields;
                    EditorEffect::Stay
                } else if key == Key::Enter {
                    EditorEffect::Apply
                } else {
                    EditorEffect::Stay
                }
            },
            WizardStep::Applying => EditorEffect::Stay,
            WizardStep::Result(_) => {
                if key == Key::Enter || key == Key::Esc {
                    self.step = WizardStep::Fields;
                    self.error = None;
                    EditorEffect::Close
                } else {
                    EditorEffect::Stay
                }
            },
        }
    }
}

/// Every key keeps the editor's invariant, and numbers that were distinct
/// stay distinct.
pub proof fn law_text_editor_keeps_invariant(kind: TextListKind, m: TextModel, key: Key)
    requires
        text_wf(kind, m),
        text_appends(m, key) ==> append_fits(m.entries, text_key(), 5),
    ensures
        text_wf(kind, text_next(kind, m, key).0),
        distinct_keys(m.entries, text_key()) ==> distinct_keys(
            text_next(kind, m, key).0.entries,
            text_key(),
        ),
{
    let k = text_key();
    if m.step == WizardStep::Fields {
        if m.editing {
            if m.field == 100 {
                if key == Key::Enter {
                    if let Some(n) = parse_unsigned(m.buf, u32::MAX as nat) {
                        lemma_added_position(m.entries, blank_text_entry(n as u32), k, 0);
                    }
                }
            } else if !(m.field == 99 && kind == TextListKind::PrefixList) {
                if key == Key::Tab || key == Key::Enter {
                    if let Some(c) = text_commit(m) {
                        let i = m.selected;
                        if distinct_keys(m.entries, k) {
                            if m.field == 0 {
                                lemma_update_distinct(m.entries, i, c.entries[i], k);
                            } else {
                                lemma_update_distinct(m.entries, i, c.entries[i], k);
                            }
                        }
                        lemma_sort_keys(c.entries, k, 0);
                    }
                }
            }
        } else {
            if key == Key::Char('a') {
                let n = append_seq(m.entries, k, 5);
                let start = next_start(m.entries, k, 5);
                let w = choose|w: int| start <= w <= u32::MAX && !has_key(m.entries, k, w);
                let r = choose|r: int| is_first_free(m.entries, k, start, r);
                assert(is_first_free(m.entries, k, start, r)) by {
                    lemma_least_free_exists(m.entries, k, start, w);
                }
                lemma_added_position(m.entries, blank_text_entry(n as u32), k, m.entries.len() as int);
            } else if key == Key::Char(' ') && m.selected < m.entries.len() {
                let e = m.entries[m.selected];
                if distinct_keys(m.entries, k) {
                    lemma_update_distinct(
                        m.entries,
                        m.selected,
                        TextEntryView { action: toggled_action(e.action), ..e },
                        k,
                    );
                }
            } else if key == Key::Char('d') && m.entries.len() > 0 {
                if distinct_keys(m.entries, k) {
                    lemma_remove_distinct(m.entries, m.selected, k);
                }
            }
        }
    }
}

/// No entry from `i` on fails validation exactly when every one passes.
proof fn lemma_first_invalid_none(kind: TextListKind, es: Seq<TextEntryView>, i: int)
    requires
        0 <= i <= es.len(),
    ensures
        first_invalid(kind, es, i) is None <==> (forall|j: int|
            i <= j < es.len() ==> #[trigger] entry_check(kind, es[j]) is Ok),
    decreases es.len() - i,
{
    if i < es.len() {
        lemma_first_invalid_none(kind, es, i + 1);
    }
}

/// `s` on the list asks for the preview exactly when every entry passes
/// validation; then the editor goes to review, else it stays on the fields
/// with an error. Either way the entries are untouched.
pub proof fn law_text_preview_checks_all(kind: TextListKind, m: TextModel)
    requires
        m.step == WizardStep::Fields,
        !m.editing,
    ensures
        ({
            let (r, eff) = text_next(kind, m, Key::Char('s'));
            &&& (eff == EffectModel::Preview) <==> (forall|j: int|
                0 <= j < m.entries.len() ==> #[trigger] entry_check(kind, m.entries[j]) is Ok)
            &&& eff == EffectModel::Preview || eff == EffectModel::Stay
            &&& eff == EffectModel::Preview ==> r.step == WizardStep::Review && r.error is None
            &&& eff == EffectModel::Stay ==> r.step == WizardStep::Fields && r.error is Some
            &&& r.entries == m.entries
        }),
{
    lemma_first_invalid_none(kind, m.entries, 0);
}

/// Space on the list flips the selected entry's action, so that a second
/// space gives the editor back as it was; the other entries stay.
pub proof fn law_text_toggle_twice(kind: TextListKind, m: TextModel)
    requires
        m.step == WizardStep::Fields,
        !m.editing,
        0 <= m.selected < m.entries.len(),
        m.entries[m.selected].action == "permit"@ || m.entries[m.selected].action == "deny"@,
    ensures
        ({
            let r = text_next(kind, m, Key::Char(' ')).0;
            &&& r.entries.len() == m.entries.len()
            &&& r.entries[m.selected].action != m.entries[m.selected].action
            &&& r.entries[m.selected].seq == m.entries[m.selected].seq
            &&& r.entries[m.selected].value == m.entries[m.selected].value
            &&& forall|j: int|
                0 <= j < m.entries.len() && j != m.selected ==> #[trigger] r.entries[j]
                    == m.entries[j]
            &&& text_next(kind, r, Key::Char(' ')).0 == m
        }),
{
    let e = m.entries[m.selected];
    assert("permit"@ != "deny"@) by {
        reveal_strlit("permit");
        reveal_strlit("deny");
        assert("permit"@.len() != "deny"@.len());
    }
    let r = text_next(kind, m, Key::Char(' ')).0;
    let r2 = text_next(kind, r, Key::Char(' ')).0;
    assert(r2.entries[m.selected] == e);
    assert(r2.entries =~= m.entries);
}

/// `d` on a non-empty list removes the selected entry and nothing else: the
/// entries before it stay in place, those after it move up by one, and the
/// selection stays inside the list.
pub proof fn law_text_delete_selected(kind: TextListKind, m: TextModel)
    requires
        m.step == WizardStep::Fields,
        !m.editing,
        0 <= m.selected < m.entries.len(),
    ensures
        ({
            let r = text_next(kind, m, Key::Char('d')).0;
            &&& r.entries.len() == m.entries.len() - 1
            &&& forall|j: int| 0 <= j < m.selected ==> #[trigger] r.entries[j] == m.entries[j]
            &&& forall|j: int|
                m.selected <= j < r.entries.len() ==> #[trigger] r.entries[j] == m.entries[j + 1]
            &&& (r.selected < r.entries.len() || (r.entries.len() == 0 && r.selected == 0))
        }),
{
}

/// `a` on the list adds one blank `permit` entry and keeps every other
/// entry: its number is the least one, from the last entry's number plus 5
/// (or 5 on an empty list) on, that no entry uses. The list comes out in
/// order of numbers, and a prefix-list editor selects the new entry.
pub proof fn law_text_append_fresh(kind: TextListKind, m: TextModel)
    requires
        m.step == WizardStep::Fields,
        !m.editing,
        append_fits(m.entries, text_key(), 5),
    ensures
        ({
            let r = text_next(kind, m, Key::Char('a')).0;
            let start: int = if m.entries.len() == 0 {
                5
            } else {
                m.entries.last().seq + 5
            };
            exists|n: u32|
                {
                    &&& start <= n
                    &&& forall|j: int| 0 <= j < m.entries.len() ==> #[trigger] m.entries[j].seq != n
                    &&& forall|t: int| start <= t < n ==> #[trigger] has_key(m.entries, text_key(), t)
                    &&& r.entries.to_multiset() == #[trigger] m.entries.push(
                        blank_text_entry(n),
                    ).to_multiset()
                    &&& sorted_by(r.entries, text_key())
                    &&& kind == TextListKind::PrefixList ==> 0 <= r.selected < r.entries.len()
                        && r.entries[r.selected] == blank_text_entry(n)
                }
        }),
{
    broadcast use vstd::seq_lib::group_to_multiset_ensures;

    let k = text_key();
    let start = next_start(m.entries, k, 5);
    let w = choose|w: int| start <= w <= u32::MAX && !has_key(m.entries, k, w);
    lemma_least_free_exists(m.entries, k, start, w);
    let n0 = append_seq(m.entries, k, 5);
    assert(is_first_free(m.entries, k, start, n0));
    assert(n0 <= w);
    let n = n0 as u32;
    let b = blank_text_entry(n);
    let p = m.entries.push(b);
    let es = sort_by_seq(p, k);
    let r = text_next(kind, m, Key::Char('a')).0;
    assert(r.entries == es);
    law_sort_by_seq(p, k);
    assert forall|j: int| 0 <= j < m.entries.len() implies #[trigger] m.entries[j].seq != n by {
        if m.entries[j].seq == n {
            assert(k(m.entries[j]) == n0);
        }
    }
    if kind == TextListKind::PrefixList {
        assert(p[m.entries.len() as int] == b);
        assert(has_key(p, k, n as int));
        lemma_sort_keys(p, k, n as int);
        lemma_find_key_bounds(es, k, n as int, 0);
        let i = find_key(es, k, n as int, 0)->0;
        assert(r.selected == i);
        assert(es.contains(es[i]));
        assert(es.to_multiset().count(es[i]) > 0);
        assert(p.contains(es[i]));
        let v = choose|v: int| 0 <= v < p.len() && p[v] == es[i];
        if v < m.entries.len() {
            assert(p[v] == m.entries[v]);
            assert(m.entries[v].seq == n);
        }
    }
    assert(start == (if m.entries.len() == 0 {
        5
    } else {
        m.entries.last().seq + 5
    }));
    assert(r.entries.to_multiset() == m.entries.push(b).to_multiset());
}

} // verus!

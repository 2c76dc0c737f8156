//! The neighbor wizards: the form that creates or edits a BGP neighbor,
//! and the confirmation of a neighbor's deletion.

use vstd::prelude::*;

use crate::app::list_edit::{pop_char, popped, push_char, Key};
use crate::app::types::WizardStep;
use crate::app::types::WizardMode;
use crate::bgp::neighbor_draft::{
    draft_check, field_name, field_text, is_toggle_index, timer_check_overflows, toggled,
    with_field, DraftModel, NeighborDraft,
};
use crate::net::ip_text;
use crate::text::{append_chars, chars_eq, chars_of, copy_string, string_of};

verus! {

/// The number of fields of the neighbor form.
pub const NEIGHBOR_NFIELDS: usize = 16;

/// The state of the neighbor form.
pub struct NeighborWizard {
    pub step: WizardStep,
    pub field: usize,
    pub buf: String,
    pub draft: Option<NeighborDraft>,
    pub error: Option<String>,
}

pub struct NeighborWizardModel {
    pub step: WizardStep,
    pub field: int,
    pub buf: Seq<char>,
    pub draft: Option<DraftModel>,
    pub error: Option<Seq<char>>,
}

pub open spec fn neighbor_draft_view(d: Option<NeighborDraft>) -> Option<DraftModel> {
    match d {
        Some(x) => Some(x@),
        None => None,
    }
}

impl View for NeighborWizard {
    type V = NeighborWizardModel;

    open spec fn view(&self) -> NeighborWizardModel {
        NeighborWizardModel {
            step: self.step,
            field: self.field as int,
            buf: self.buf@,
            draft: neighbor_draft_view(self.draft),
            error: crate::text::opt_view(self.error),
        }
    }
}

/// What the application does after the wizard handled a key.
#[derive(Debug, Clone, Copy, PartialEq, Eq, Structural)]
pub enum WizardEffect {
    Stay,
    Close,
    /// The draft passed validation: render its commands (the wizard is now
    /// in review).
    Preview,
    Apply,
}

/// The text a field shows when it is entered. Field 8 is the keepalive
/// field, yet entering it loads the draft's password into the buffer (the
/// password field itself is 9), so committing it unedited writes the
/// password text into the keepalive. This is how the form behaves, and it
/// is kept so; it looks like a slip in the form's field numbering.
pub open spec fn wizard_field_text(d: DraftModel, f: int) -> Seq<char> {
    if f == 8 {
        d.password
    } else {
        field_text(d, f)
    }
}

/// The field's text loaded into the buffer (empty without a draft).
pub open spec fn wizard_loaded(m: NeighborWizardModel) -> NeighborWizardModel {
    NeighborWizardModel {
        buf: match m.draft {
            Some(d) => wizard_field_text(d, m.field),
            None => seq![],
        },
        ..m
    }
}

/// The buffer committed to the draft, unless the field is a toggle.
pub open spec fn wizard_committed(m: NeighborWizardModel) -> NeighborWizardModel {
    match m.draft {
        Some(d) => {
            if !is_toggle_index(m.field) {
                NeighborWizardModel { draft: Some(with_field(d, m.field, m.buf)), ..m }
            } else {
                m
            }
        },
        None => m,
    }
}

pub open spec fn wizard_closed(m: NeighborWizardModel) -> NeighborWizardModel {
    NeighborWizardModel { step: WizardStep::Fields, draft: None, error: None, ..m }
}

/// Enter on the form: validate the draft; in review when it passes.
pub open spec fn wizard_preview(m: NeighborWizardModel) -> (NeighborWizardModel, WizardEffect) {
    match m.draft {
        Some(d) => match draft_check(d) {
            Err(e) => (NeighborWizardModel { error: Some(e), ..m }, WizardEffect::Stay),
            Ok(()) => (
                NeighborWizardModel { error: None, step: WizardStep::Review, ..m },
                WizardEffect::Preview,
            ),
        },
        None => (m, WizardEffect::Stay),
    }
}

/// A key on the form's fields.
pub open spec fn wizard_fields_key(m: NeighborWizardModel, key: Key) -> (
    NeighborWizardModel,
    WizardEffect,
) {
    let toggle = is_toggle_index(m.field);
    if key == Key::Esc {
        (wizard_closed(m), WizardEffect::Close)
    } else if key == Key::Tab || key == Key::Down {
        let c = wizard_committed(m);
        (
            wizard_loaded(
                NeighborWizardModel { field: (c.field + 1) % (NEIGHBOR_NFIELDS as int), ..c },
            ),
            WizardEffect::Stay,
        )
    } else if key == Key::BackTab || key == Key::Up {
        let c = wizard_committed(m);
        (
            wizard_loaded(
                NeighborWizardModel {
                    field: if c.field == 0 {
                        NEIGHBOR_NFIELDS - 1
                    } else {
                        c.field - 1
                    },
                    ..c
                },
            ),
            WizardEffect::Stay,
        )
    } else if key == Key::Enter {
        wizard_preview(wizard_committed(m))
    } else if key == Key::Char(' ') && toggle {
        match m.draft {
            Some(d) => (
                NeighborWizardModel { draft: Some(toggled(d, m.field)), ..m },
                WizardEffect::Stay,
            ),
            None => (m, WizardEffect::Stay),
        }
    } else if key == Key::Backspace {
        if !toggle {
            (NeighborWizardModel { buf: popped(m.buf), ..m }, WizardEffect::Stay)
        } else {
            (m, WizardEffect::Stay)
        }
    } else {
        match key {
            Key::Char(c) => {
                if !toggle {
                    (NeighborWizardModel { buf: m.buf.push(c), ..m }, WizardEffect::Stay)
                } else {
                    (m, WizardEffect::Stay)
                }
            },
            _ => (m, WizardEffect::Stay),
        }
    }
}

/// What a key does to the neighbor form.
pub open spec fn wizard_next(m: NeighborWizardModel, key: Key) -> (
    NeighborWizardModel,
    WizardEffect,
) {
    match m.step {
        WizardStep::Fields => wizard_fields_key(m, key),
        WizardStep::Review => {
            if key == Key::Esc {
                (
                    wizard_loaded(NeighborWizardModel { step: WizardStep::Fields, ..m }),
                    WizardEffect::Stay,
                )
            } else if key == Key::Enter {
                (m, WizardEffect::Apply)
            } else {
                (m, WizardEffect::Stay)
            }
        },
        WizardStep::Applying => (m, WizardEffect::Stay),
        WizardStep::Result(_) => {
            if key == Key::Enter || key == Key::Esc {
                (wizard_closed(m), WizardEffect::Close)
            } else {
                (m, WizardEffect::Stay)
            }
        },
    }
}

/// Enter on the form would validate a draft whose timer check overflows
/// (`keepalive * 3` computed in `u16`).
pub open spec fn wizard_key_overflows(m: NeighborWizardModel, key: Key) -> bool {
    m.step == WizardStep::Fields && key == Key::Enter && (match wizard_committed(m).draft {
        Some(d) => timer_check_overflows(d),
        None => false,
    })
}

/// What a key does to the deletion confirmation.
pub open spec fn delete_wizard_key(step: WizardStep, key: Key) -> WizardEffect {
    match step {
        WizardStep::Review => {
            if key == Key::Esc || key == Key::Char('n') {
                WizardEffect::Close
            } else if key == Key::Char('y') || key == Key::Enter {
                WizardEffect::Apply
            } else {
                WizardEffect::Stay
            }
        },
        WizardStep::Result(_) => {
            if key == Key::Enter || key == Key::Esc {
                WizardEffect::Close
            } else {
                WizardEffect::Stay
            }
        },
        _ => WizardEffect::Stay,
    }
}

pub fn delete_key(step: WizardStep, key: Key) -> (r: WizardEffect)
    ensures
        r == delete_wizard_key(step, key),
{
    match step {
        WizardStep::Review => {
            if key == Key::Esc || key == Key::Char('n') {
                WizardEffect::Close
            } else if key == Key::Char('y') || key == Key::Enter {
                WizardEffect::Apply
            } else {
                WizardEffect::Stay
            }
        },
        WizardStep::Result(_) => {
            if key == Key::Enter || key == Key::Esc {
                WizardEffect::Close
            } else {
                WizardEffect::Stay
            }
        },
        _ => WizardEffect::Stay,
    }
}

impl NeighborWizard {
    /// The form on a new neighbor.
    pub fn open_create() -> (r: Self)
        ensures
            r@ == (NeighborWizardModel {
                step: WizardStep::Fields,
                field: 0,
                buf: Seq::<char>::empty(),
                draft: Some(crate::bgp::neighbor_draft::default_draft()),
                error: None,
            }),
    {
        NeighborWizard {
            step: WizardStep::Fields,
            field: 0,
            buf: String::new(),
            draft: Some(NeighborDraft::default()),
            error: None,
        }
    }

    /// The form on an existing neighbor's draft, at its first field.
    pub fn open_edit(draft: NeighborDraft) -> (r: Self)
        ensures
            r@ == (NeighborWizardModel {
                step: WizardStep::Fields,
                field: 0,
                buf: field_text(draft@, 0),
                draft: Some(draft@),
                error: None,
            }),
    {
        let buf = draft.field_value(0);
        NeighborWizard { step: WizardStep::Fields, field: 0, buf, draft: Some(draft), error: None }
    }

    fn load(&mut self)
        ensures
            final(self)@ == wizard_loaded(old(self)@),
            final(self).field == old(self).field,
    {
        self.buf = match &self.draft {
            Some(d) => {
                if self.field == 8 {
                    copy_string(&d.password)
                } else {
                    d.field_value(self.field)
                }
            },
            None => String::new(),
        };
    }

    fn commit(&mut self)
        ensures
            final(self)@ == wizard_committed(old(self)@),
            final(self).field == old(self).field,
    {
        let f = self.field;
        let buf = self.buf.clone();
        match &mut self.draft {
            Some(d) => {
                if !NeighborDraft::is_toggle_field(f) {
                    d.set_field(f, buf.as_str());
                }
            },
            None => {},
        }
    }

    fn preview(&mut self) -> (r: WizardEffect)
        requires
            old(self).draft matches Some(d) ==> !timer_check_overflows(d@),
        ensures
            (final(self)@, r) == wizard_preview(old(self)@),
            final(self).field == old(self).field,
    {
        let checked = match &self.draft {
            Some(d) => Some(d.validate()),
            None => None,
        };
        match checked {
            Some(Err(e)) => {
                self.error = Some(e);
                WizardEffect::Stay
            },
            Some(Ok(())) => {
                self.error = None;
                self.step = WizardStep::Review;
                WizardEffect::Preview
            },
            None => WizardEffect::Stay,
        }
    }

    fn fields_key(&mut self, key: Key) -> (r: WizardEffect)
        requires
            old(self).field < NEIGHBOR_NFIELDS,
            !wizard_key_overflows(old(self)@, key),
            old(self).step == WizardStep::Fields,
        ensures
            (final(self)@, r) == wizard_fields_key(old(self)@, key),
            final(self).field < NEIGHBOR_NFIELDS,
    {
        let toggle = NeighborDraft::is_toggle_field(self.field);
        if key == Key::Esc {
            self.step = WizardStep::Fields;
            self.draft = None;
            self.error = None;
            WizardEffect::Close
        } else if key == Key::Tab || key == Key::Down {
            self.commit();
            self.field = (self.field + 1) % NEIGHBOR_NFIELDS;
            self.load();
            WizardEffect::Stay
        } else if key == Key::BackTab || key == Key::Up {
            self.commit();
            self.field = if self.field == 0 {
                NEIGHBOR_NFIELDS - 1
            } else {
                self.field - 1
            };
            self.load();
            WizardEffect::Stay
        } else if key == Key::Enter {
            self.commit();
            self.preview()
        } else if key == Key::Char(' ') && toggle {
            let f = self.field;
            match &mut self.draft {
                Some(d) => {
                    d.toggle_field(f);
                },
                None => {},
            }
            WizardEffect::Stay
        } else if key == Key::Backspace {
            if !toggle {
                self.buf = pop_char(&self.buf);
            }
            WizardEffect::Stay
        } else {
            match key {
                Key::Char(c) => {
                    if !toggle {
                        self.buf = push_char(&self.buf, c);
                    }
                },
                _ => {},
            }
            WizardEffect::Stay
        }
    }

    /// Handles a key on the neighbor form.
    pub fn handle_key(&mut self, key: Key) -> (r: WizardEffect)
        requires
            old(self).field < NEIGHBOR_NFIELDS,
            !wizard_key_overflows(old(self)@, key),
        ensures
            (final(self)@, r) == wizard_next(old(self)@, key),
            final(self).field < NEIGHBOR_NFIELDS,
    {
        match self.step {
            WizardStep::Fields => self.fields_key(key),
            WizardStep::Review => {
                if key == Key::Esc {
                    self.step = WizardStep::Fields;
                    self.load();
                    WizardEffect::Stay
                } else if key == Key::Enter {
                    WizardEffect::Apply
                } else {
                    WizardEffect::Stay
                }
            },
            WizardStep::Applying => WizardEffect::Stay,
            WizardStep::Result(_) => {
                if key == Key::Enter || key == Key::Esc {
                    self.step = WizardStep::Fields;
                    self.draft = None;
                    self.error = None;
                    WizardEffect::Close
                } else {
                    WizardEffect::Stay
                }
            },
        }
    }

    /// Whether Enter would validate a draft whose timer check overflows
    /// (the caller refuses the key then: the product does not fit a `u16`).
    pub fn key_overflows(&self, key: Key) -> (r: bool)
        ensures
            r == wizard_key_overflows(self@, key),
    {
        if self.step == WizardStep::Fields && key == Key::Enter {
            match &self.draft {
                Some(d) => {
                    if NeighborDraft::is_toggle_field(self.field) {
                        d.timer_check_would_overflow()
                    } else {
                        let mut c = d.clone_draft();
                        c.set_field(self.field, self.buf.as_str());
                        c.timer_check_would_overflow()
                    }
                },
                None => false,
            }
        } else {
            false
        }
    }
}

// ─── Review texts ────────────────────────────────────────────────────────────

/// The fields an edit changes, in form order: the label, and
/// "old → new" of the shown texts.
pub open spec fn draft_diff(old: DraftModel, new: DraftModel, n: int) -> Seq<(Seq<char>, Seq<char>)>
    decreases n,
{
    if n <= 0 {
        seq![]
    } else {
        let rest = draft_diff(old, new, n - 1);
        let a = field_text(old, n - 1);
        let b = field_text(new, n - 1);
        if a != b {
            rest.push((field_name(n - 1), a + " \u{2192} "@ + b))
        } else {
            rest
        }
    }
}

pub open spec fn pairs_view(v: Seq<(String, String)>) -> Seq<(Seq<char>, Seq<char>)> {
    v.map_values(|p: (String, String)| (p.0@, p.1@))
}

fn cat(a: Vec<char>, b: Vec<char>) -> (r: Vec<char>)
    ensures
        r@ == a@ + b@,
{
    let mut v = a;
    append_chars(&mut v, b);
    v
}

/// The changes an edit of a stored neighbor makes.
pub fn neighbor_diff(old: &NeighborDraft, new: &NeighborDraft) -> (r: Vec<(String, String)>)
    ensures
        pairs_view(r@) == draft_diff(old@, new@, NEIGHBOR_NFIELDS as int),
{
    let mut out: Vec<(String, String)> = Vec::new();
    let mut i: usize = 0;
    while i < NEIGHBOR_NFIELDS
        invariant
            i <= NEIGHBOR_NFIELDS,
            pairs_view(out@) == draft_diff(old@, new@, i as int),
        decreases NEIGHBOR_NFIELDS - i,
    {
        let a = chars_of(old.field_value(i).as_str());
        let b = chars_of(new.field_value(i).as_str());
        if !chars_eq(&a, &b) {
            let label = String::from_str(NeighborDraft::field_label(i));
            let text = string_of(&cat(cat(a, chars_of(" \u{2192} ")), b));
            let ghost pv = (label@, text@);
            let ghost before = out@;
            out.push((label, text));
            assert(pairs_view(out@) =~= pairs_view(before).push(pv));
        }
        i = i + 1;
    }
    out
}

/// The change description and history action of an apply, by wizard.
pub open spec fn apply_texts(mode: WizardMode, draft_description: Seq<char>) -> Option<
    (Seq<char>, Seq<char>),
> {
    match mode {
        WizardMode::NeighborCreate => Some(
            ("Create neighbor "@ + draft_description, "neighbor_create"@),
        ),
        WizardMode::NeighborEdit(ip) => Some(("Update neighbor "@ + ip_text(ip), "neighbor_edit"@)),
        WizardMode::NeighborDelete(ip) => Some(
            ("Delete neighbor "@ + ip_text(ip), "neighbor_delete"@),
        ),
        WizardMode::RouteMapEdit(n) => Some(("Update route-map "@ + n@, "routemap_save"@)),
        WizardMode::PrefixListEdit(n) => Some(("Update prefix-list "@ + n@, "prefixlist_save"@)),
        WizardMode::CommunityListEdit(n) => Some(
            ("Update community-list "@ + n@, "communitylist_save"@),
        ),
        WizardMode::Closed => None,
    }
}

/// What an apply is recorded as: its description and action (none while
/// no wizard is open).
pub fn apply_description(mode: &WizardMode, draft_description: &String) -> (r: Option<
    (String, &'static str),
>)
    ensures
        match r {
            Some((d, a)) => apply_texts(*mode, draft_description@) == Some((d@, a@)),
            None => apply_texts(*mode, draft_description@) is None,
        },
{
    match mode {
        WizardMode::NeighborCreate => Some(
            (
                string_of(&cat(chars_of("Create neighbor "), chars_of(draft_description.as_str()))),
                "neighbor_create",
            ),
        ),
        WizardMode::NeighborEdit(ip) => Some(
            (string_of(&cat(chars_of("Update neighbor "), ip.text())), "neighbor_edit"),
        ),
        WizardMode::NeighborDelete(ip) => Some(
            (string_of(&cat(chars_of("Delete neighbor "), ip.text())), "neighbor_delete"),
        ),
        WizardMode::RouteMapEdit(n) => Some(
            (string_of(&cat(chars_of("Update route-map "), chars_of(n.as_str()))), "routemap_save"),
        ),
        WizardMode::PrefixListEdit(n) => Some(
            (
                string_of(&cat(chars_of("Update prefix-list "), chars_of(n.as_str()))),
                "prefixlist_save",
            ),
        ),
        WizardMode::CommunityListEdit(n) => Some(
            (
                string_of(&cat(chars_of("Update community-list "), chars_of(n.as_str()))),
                "communitylist_save",
            ),
        ),
        WizardMode::Closed => None,
    }
}

/// The review of an edit lists nothing exactly when no field shows another
/// text, and lists every field that does, under its label, as its old text,
/// an arrow and its new text.
pub proof fn law_draft_diff_lists_changes(old: DraftModel, new: DraftModel, n: int)
    requires
        0 <= n,
    ensures
        draft_diff(old, new, n).len() == 0 <==> (forall|i: int|
            0 <= i < n ==> #[trigger] field_text(old, i) == field_text(new, i)),
        forall|i: int|
            0 <= i < n && #[trigger] field_text(old, i) != field_text(new, i) ==> draft_diff(
                old,
                new,
                n,
            ).contains((field_name(i), field_text(old, i) + " \u{2192} "@ + field_text(new, i))),
    decreases n,
{
    if n > 0 {
        law_draft_diff_lists_changes(old, new, n - 1);
        let rest = draft_diff(old, new, n - 1);
        let a = field_text(old, n - 1);
        let b = field_text(new, n - 1);
        let e = (field_name(n - 1), a + " \u{2192} "@ + b);
        if a != b {
            let r = rest.push(e);
            assert(r[rest.len() as int] == e);
            assert forall|i: int|
                0 <= i < n && #[trigger] field_text(old, i) != field_text(new, i) implies r.contains(
                (field_name(i), field_text(old, i) + " \u{2192} "@ + field_text(new, i)),
            ) by {
                if i < n - 1 {
                    let k = choose|k: int|
                        0 <= k < rest.len() && rest[k] == (
                            field_name(i),
                            field_text(old, i) + " \u{2192} "@ + field_text(new, i),
                        );
                    assert(r[k] == rest[k]);
                }
            }
        }
    }
}

/// Enter on the form commits the edited text field and asks for the preview
/// exactly when the committed draft passes validation; the wizard is then in
/// review, else it stays on the form with the validation error.
pub proof fn law_wizard_enter_validates(m: NeighborWizardModel)
    requires
        m.step == WizardStep::Fields,
        m.draft is Some,
    ensures
        ({
            let d = m.draft->0;
            let committed = if is_toggle_index(m.field) {
                d
            } else {
                with_field(d, m.field, m.buf)
            };
            let (r, eff) = wizard_next(m, Key::Enter);
            &&& r.draft == Some(committed)
            &&& (eff == WizardEffect::Preview) <==> draft_check(committed) is Ok
            &&& eff == WizardEffect::Preview ==> r.step == WizardStep::Review && r.error is None
            &&& eff != WizardEffect::Preview ==> eff == WizardEffect::Stay && r.step
                == WizardStep::Fields && r.error == Some(draft_check(committed)->Err_0)
        }),
{
}

/// Tab commits the field and moves to the next one, from the last
/// back to the first, loading its text; BackTab then comes back to
/// the field it started from.
pub proof fn law_wizard_field_cycle(m: NeighborWizardModel)
    requires
        m.step == WizardStep::Fields,
        0 <= m.field < NEIGHBOR_NFIELDS,
    ensures
        ({
            let t = wizard_next(m, Key::Tab).0;
            &&& t.field == (if m.field + 1 < NEIGHBOR_NFIELDS {
                m.field + 1
            } else {
                0
            })
            &&& (t.draft matches Some(d) ==> t.buf == wizard_field_text(d, t.field))
            &&& wizard_next(t, Key::BackTab).0.field == m.field
        }),
{
}

} // verus!

//! The router editor form: one field at a time, Tab/Enter forward,
//! Shift-Tab back, Space cycling the vendor; leaving the last field saves.

use vstd::prelude::*;

use crate::app::helpers::{
    apply_buf_to_draft, editor_field_value, law_router_field_unchanged, not_blank,
    router_field_text, router_with_field,
};
use crate::app::list_edit::{pop_char, popped, push_char, Key};
use crate::app::types::{EditorMode, EDITOR_NFIELDS};
use crate::router::{
    default_router, vendor_after, vendor_label, RouterConfig, RouterModel, RouterVendor,
};

verus! {

/// The router editor form.
pub struct RouterForm {
    pub mode: EditorMode,
    pub field: usize,
    pub buf: String,
    pub draft: Option<RouterConfig>,
}

pub struct RouterFormModel {
    pub mode: EditorMode,
    pub field: int,
    pub buf: Seq<char>,
    pub draft: Option<RouterModel>,
}

pub open spec fn draft_view(d: Option<RouterConfig>) -> Option<RouterModel> {
    match d {
        Some(r) => Some(r@),
        None => None,
    }
}

impl View for RouterForm {
    type V = RouterFormModel;

    open spec fn view(&self) -> RouterFormModel {
        RouterFormModel {
            mode: self.mode,
            field: self.field as int,
            buf: self.buf@,
            draft: draft_view(self.draft),
        }
    }
}

/// What the application does after the form handled a key.
#[derive(Debug, Clone)]
pub enum FormEffect {
    Stay,
    /// The edit was cancelled.
    Cancelled,
    /// The edited router is to be stored.
    Saved(RouterConfig),
}

pub enum FormEffectModel {
    Stay,
    Cancelled,
    Saved(RouterModel),
}

impl View for FormEffect {
    type V = FormEffectModel;

    open spec fn view(&self) -> FormEffectModel {
        match self {
            FormEffect::Stay => FormEffectModel::Stay,
            FormEffect::Cancelled => FormEffectModel::Cancelled,
            FormEffect::Saved(r) => FormEffectModel::Saved(r@),
        }
    }
}

pub open spec fn form_wf(m: RouterFormModel) -> bool {
    0 <= m.field < EDITOR_NFIELDS
}

/// The buffer committed to the draft's current field.
pub open spec fn form_committed(m: RouterFormModel) -> RouterFormModel {
    match m.draft {
        Some(d) => RouterFormModel { draft: Some(router_with_field(d, m.field, m.buf)), ..m },
        None => m,
    }
}

/// The field's text loaded into the buffer (when there is a draft).
pub open spec fn form_loaded(m: RouterFormModel) -> RouterFormModel {
    match m.draft {
        Some(d) => RouterFormModel { buf: router_field_text(d, m.field), ..m },
        None => m,
    }
}

/// Tab / Enter: commit, then the next field, or save after the last one.
pub open spec fn form_advance(m: RouterFormModel) -> (RouterFormModel, FormEffectModel) {
    let c = form_committed(m);
    if c.field + 1 < EDITOR_NFIELDS {
        (form_loaded(RouterFormModel { field: c.field + 1, ..c }), FormEffectModel::Stay)
    } else {
        match c.draft {
            Some(d) => (
                RouterFormModel {
                    draft: None,
                    mode: EditorMode::Browse,
                    buf: seq![],
                    ..c
                },
                FormEffectModel::Saved(d),
            ),
            None => (c, FormEffectModel::Stay),
        }
    }
}

/// Shift-Tab: commit, then the previous field (the first one stays).
pub open spec fn form_retreat(m: RouterFormModel) -> RouterFormModel {
    let c = form_committed(m);
    if c.field > 0 {
        form_loaded(RouterFormModel { field: c.field - 1, ..c })
    } else {
        c
    }
}

/// A key while a field is edited.
pub open spec fn form_key(m: RouterFormModel, key: Key) -> (RouterFormModel, FormEffectModel) {
    match key {
        Key::Esc => (
            RouterFormModel { mode: EditorMode::Browse, draft: None, buf: seq![], ..m },
            FormEffectModel::Cancelled,
        ),
        Key::Backspace => (RouterFormModel { buf: popped(m.buf), ..m }, FormEffectModel::Stay),
        Key::Tab => form_advance(m),
        Key::Enter => form_advance(m),
        Key::BackTab => (form_retreat(m), FormEffectModel::Stay),
        Key::Char(c) => {
            if m.field == 5 {
                if c == ' ' {
                    match m.draft {
                        Some(d) => {
                            let v = vendor_after(d.vendor);
                            (
                                RouterFormModel {
                                    draft: Some(RouterModel { vendor: v, ..d }),
                                    buf: vendor_label(v),
                                    ..m
                                },
                                FormEffectModel::Stay,
                            )
                        },
                        None => (m, FormEffectModel::Stay),
                    }
                } else {
                    (m, FormEffectModel::Stay)
                }
            } else {
                (RouterFormModel { buf: m.buf.push(c), ..m }, FormEffectModel::Stay)
            }
        },
        _ => (m, FormEffectModel::Stay),
    }
}

/// The buffer shows the draft's own text for the field.
pub open spec fn buf_is_field_text(m: RouterFormModel) -> bool {
    match m.draft {
        Some(d) => m.buf == router_field_text(d, m.field) && not_blank(d.password) && not_blank(
            d.vdom,
        ),
        None => false,
    }
}

impl RouterForm {
    /// A closed form.
    pub fn new() -> (r: Self)
        ensures
            r@ == (RouterFormModel {
                mode: EditorMode::Browse,
                field: 0,
                buf: Seq::<char>::empty(),
                draft: None,
            }),
            form_wf(r@),
    {
        RouterForm { mode: EditorMode::Browse, field: 0, buf: String::new(), draft: None }
    }

    /// `a`: a new router in the form.
    pub fn start_add(&mut self)
        ensures
            final(self)@ == (RouterFormModel {
                mode: EditorMode::EditField,
                field: 0,
                buf: Seq::<char>::empty(),
                draft: Some(default_router()),
            }),
    {
        self.draft = Some(RouterConfig::default());
        self.field = 0;
        self.buf = String::new();
        self.mode = EditorMode::EditField;
    }

    /// Enter on a router: a copy of it in the form, on its first field.
    pub fn start_edit(&mut self, router: &RouterConfig)
        ensures
            final(self)@ == (RouterFormModel {
                mode: EditorMode::EditField,
                field: 0,
                buf: router_field_text(router@, 0),
                draft: Some(router@),
            }),
    {
        let draft = router.duplicate();
        self.buf = editor_field_value(&draft, 0);
        self.field = 0;
        self.draft = Some(draft);
        self.mode = EditorMode::EditField;
    }

    fn commit(&mut self)
        requires
            form_wf(old(self)@),
        ensures
            final(self)@ == form_committed(old(self)@),
            final(self).draft is Some == old(self).draft is Some,
            buf_is_field_text(old(self)@) ==> final(self)@.draft == old(self)@.draft,
    {
        let buf = self.buf.clone();
        let f = self.field;
        match &mut self.draft {
            Some(d) => {
                apply_buf_to_draft(d, f, buf.as_str());
            },
            None => {},
        }
    }

    fn load(&mut self)
        requires
            form_wf(old(self)@),
        ensures
            final(self)@ == form_loaded(old(self)@),
            final(self).draft is Some == old(self).draft is Some,
    {
        match &self.draft {
            Some(d) => {
                self.buf = editor_field_value(d, self.field);
            },
            None => {},
        }
    }

    fn advance(&mut self) -> (r: FormEffect)
        requires
            form_wf(old(self)@),
        ensures
            (final(self)@, r@) == form_advance(old(self)@),
            form_wf(final(self)@),
            buf_is_field_text(old(self)@) ==> (match r@ {
                FormEffectModel::Saved(d) => old(self)@.draft == Some(d),
                _ => final(self)@.draft == old(self)@.draft && buf_is_field_text(final(self)@),
            }),
    {
        self.commit();
        if self.field + 1 < EDITOR_NFIELDS {
            self.field = self.field + 1;
            self.load();
            FormEffect::Stay
        } else {
            match self.draft.take() {
                Some(d) => {
                    self.mode = EditorMode::Browse;
                    self.buf = String::new();
                    FormEffect::Saved(d)
                },
                None => FormEffect::Stay,
            }
        }
    }

    fn retreat(&mut self)
        requires
            form_wf(old(self)@),
        ensures
            final(self)@ == form_retreat(old(self)@),
            form_wf(final(self)@),
            buf_is_field_text(old(self)@) ==> final(self)@.draft == old(self)@.draft
                && buf_is_field_text(final(self)@),
    {
        self.commit();
        if self.field > 0 {
            self.field = self.field - 1;
            self.load();
        }
    }

    /// Handles a key while a field is edited. Moving on from a field whose
    /// text was not changed leaves the router as it was.
    pub fn handle_key(&mut self, key: Key) -> (r: FormEffect)
        requires
            form_wf(old(self)@),
        ensures
            (final(self)@, r@) == form_key(old(self)@, key),
            form_wf(final(self)@),
            buf_is_field_text(old(self)@) && (key == Key::Tab || key == Key::Enter) ==> (match r@ {
                FormEffectModel::Saved(d) => old(self)@.draft == Some(d),
                _ => final(self)@.draft == old(self)@.draft && buf_is_field_text(final(self)@),
            }),
            buf_is_field_text(old(self)@) && key == Key::BackTab ==> final(self)@.draft == old(
                self,
            )@.draft && buf_is_field_text(final(self)@),
    {
        match key {
            Key::Esc => {
                self.mode = EditorMode::Browse;
                self.draft = None;
                self.buf = String::new();
                FormEffect::Cancelled
            },
            Key::Backspace => {
                self.buf = pop_char(&self.buf);
                FormEffect::Stay
            },
            Key::Tab => self.advance(),
            Key::Enter => self.advance(),
            Key::BackTab => {
                self.retreat();
                FormEffect::Stay
            },
            Key::Char(c) => {
                if self.field == 5 {
                    if c == ' ' {
                        match &mut self.draft {
                            Some(d) => {
                                let v = d.vendor.cycled();
                                d.vendor = v;
                                self.buf = String::from_str(v.label());
                            },
                            None => {},
                        }
                    }
                } else {
                    self.buf = push_char(&self.buf, c);
                }
                FormEffect::Stay
            },
            _ => FormEffect::Stay,
        }
    }
}

/// Walking through the router editor with Tab without typing changes
/// nothing: from a field that shows the draft's own text, Tab moves to the
/// next field, which shows the draft's own text in turn, and Tab on the last
/// field saves the draft as it was.
pub proof fn law_form_walk_unchanged(m: RouterFormModel)
    requires
        form_wf(m),
        buf_is_field_text(m),
    ensures
        ({
            let (r, eff) = form_key(m, Key::Tab);
            &&& m.field + 1 < EDITOR_NFIELDS ==> r.draft == m.draft && buf_is_field_text(r)
                && r.field == m.field + 1 && eff == FormEffectModel::Stay
            &&& m.field + 1 == EDITOR_NFIELDS ==> eff == FormEffectModel::Saved(m.draft->0)
        }),
{
    law_router_field_unchanged(m.draft->0, m.field);
}

} // verus!

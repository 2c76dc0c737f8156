//! The two prompts shown before the main screen: the passphrase of the
//! encrypted database, and the choice (or creation) of a project.

use vstd::prelude::*;

use crate::app::helpers::utf8_len;
use crate::app::keys::{is_down, is_up, wrap_down, wrap_up, wrapped_down, wrapped_up};
use crate::app::list_edit::{pop_char, popped, push_char, Key};
use crate::text::{chars_of, repeat_char, repeated, string_of, trim, trim_chars};

verus! {

/// How a prompt goes on after a key.
#[derive(Debug, Clone)]
pub enum PromptOutcome {
    Continue,
    /// The prompt is answered with this text.
    Done(String),
    Cancelled,
}

pub enum PromptOutcomeModel {
    Continue,
    Done(Seq<char>),
    Cancelled,
}

impl View for PromptOutcome {
    type V = PromptOutcomeModel;

    open spec fn view(&self) -> PromptOutcomeModel {
        match self {
            PromptOutcome::Continue => PromptOutcomeModel::Continue,
            PromptOutcome::Done(s) => PromptOutcomeModel::Done(s@),
            PromptOutcome::Cancelled => PromptOutcomeModel::Cancelled,
        }
    }
}

// ─── Passphrase ──────────────────────────────────────────────────────────────

/// The passphrase prompt: what was typed and the last error.
pub struct PassphrasePrompt {
    pub buf: String,
    pub error: Option<String>,
}

pub struct PassphraseModel {
    pub buf: Seq<char>,
    pub error: Option<Seq<char>>,
}

impl View for PassphrasePrompt {
    type V = PassphraseModel;

    open spec fn view(&self) -> PassphraseModel {
        PassphraseModel { buf: self.buf@, error: crate::text::opt_view(self.error) }
    }
}

/// A key at the passphrase prompt: every key clears the error; Enter
/// answers with a non-empty passphrase, Esc or Control-C cancel.
pub open spec fn passphrase_key(m: PassphraseModel, key: Key, ctrl: bool) -> (
    PassphraseModel,
    PromptOutcomeModel,
) {
    let m0 = PassphraseModel { error: None, ..m };
    match key {
        Key::Enter => {
            if m.buf.len() == 0 {
                (
                    PassphraseModel { error: Some("Passphrase cannot be empty"@), ..m0 },
                    PromptOutcomeModel::Continue,
                )
            } else {
                (m0, PromptOutcomeModel::Done(m.buf))
            }
        },
        Key::Char(c) => {
            if c == 'c' && ctrl {
                (m0, PromptOutcomeModel::Cancelled)
            } else {
                (PassphraseModel { buf: m.buf.push(c), ..m0 }, PromptOutcomeModel::Continue)
            }
        },
        Key::Esc => (m0, PromptOutcomeModel::Cancelled),
        Key::Backspace => (PassphraseModel { buf: popped(m.buf), ..m0 }, PromptOutcomeModel::Continue),
        _ => (m0, PromptOutcomeModel::Continue),
    }
}

impl PassphrasePrompt {
    pub fn new() -> (r: Self)
        ensures
            r@ == (PassphraseModel { buf: Seq::<char>::empty(), error: None }),
    {
        PassphrasePrompt { buf: String::new(), error: None }
    }

    pub fn handle_key(&mut self, key: Key, ctrl: bool) -> (r: PromptOutcome)
        ensures
            (final(self)@, r@) == passphrase_key(old(self)@, key, ctrl),
    {
        self.error = None;
        match key {
            Key::Enter => {
                if chars_of(self.buf.as_str()).len() == 0 {
                    self.error = Some(String::from_str("Passphrase cannot be empty"));
                    PromptOutcome::Continue
                } else {
                    PromptOutcome::Done(self.buf.clone())
                }
            },
            Key::Char(c) => {
                if c == 'c' && ctrl {
                    PromptOutcome::Cancelled
                } else {
                    self.buf = push_char(&self.buf, c);
                    PromptOutcome::Continue
                }
            },
            Key::Esc => PromptOutcome::Cancelled,
            Key::Backspace => {
                self.buf = pop_char(&self.buf);
                PromptOutcome::Continue
            },
            _ => PromptOutcome::Continue,
        }
    }

    /// One dot per byte of the typed passphrase.
    pub fn masked(&self) -> (r: String)
        requires
            utf8_len(self.buf@) <= usize::MAX,
        ensures
            r@ == repeated('\u{25cf}', utf8_len(self.buf@)),
    {
        let n = crate::app::helpers::utf8_byte_len(&chars_of(self.buf.as_str()));
        string_of(&repeat_char('\u{25cf}', n))
    }
}

// ─── Project choice ──────────────────────────────────────────────────────────

/// The project chooser: the selected row (the row after the projects is
/// "new project"), and the name being typed for a new project.
pub struct ProjectPicker {
    pub selected: Option<usize>,
    pub naming: bool,
    pub name_buf: String,
}

pub struct PickerModel {
    pub selected: Option<usize>,
    pub naming: bool,
    pub name_buf: Seq<char>,
}

impl View for ProjectPicker {
    type V = PickerModel;

    open spec fn view(&self) -> PickerModel {
        PickerModel { selected: self.selected, naming: self.naming, name_buf: self.name_buf@ }
    }
}

/// How the chooser goes on after a key.
#[derive(Debug, Clone)]
pub enum PickOutcome {
    Continue,
    /// The project at this row was chosen.
    Chosen(usize),
    /// A new project with this name is to be created and chosen.
    Create(String),
    Cancelled,
}

pub enum PickOutcomeModel {
    Continue,
    Chosen(usize),
    Create(Seq<char>),
    Cancelled,
}

impl View for PickOutcome {
    type V = PickOutcomeModel;

    open spec fn view(&self) -> PickOutcomeModel {
        match self {
            PickOutcome::Continue => PickOutcomeModel::Continue,
            PickOutcome::Chosen(i) => PickOutcomeModel::Chosen(*i),
            PickOutcome::Create(s) => PickOutcomeModel::Create(s@),
            PickOutcome::Cancelled => PickOutcomeModel::Cancelled,
        }
    }
}

/// A key at the chooser over `n` projects (and the "new project" row).
pub open spec fn picker_key(m: PickerModel, key: Key, ctrl: bool, n: nat) -> (
    PickerModel,
    PickOutcomeModel,
) {
    let total = n + 1;
    if m.naming {
        match key {
            Key::Enter => {
                if trim(m.name_buf).len() > 0 {
                    (m, PickOutcomeModel::Create(trim(m.name_buf)))
                } else {
                    (m, PickOutcomeModel::Continue)
                }
            },
            Key::Esc => (
                PickerModel { naming: false, name_buf: seq![], ..m },
                PickOutcomeModel::Continue,
            ),
            Key::Backspace => (
                PickerModel { name_buf: popped(m.name_buf), ..m },
                PickOutcomeModel::Continue,
            ),
            Key::Char(c) => (
                PickerModel { name_buf: m.name_buf.push(c), ..m },
                PickOutcomeModel::Continue,
            ),
            _ => (m, PickOutcomeModel::Continue),
        }
    } else if key == Key::Enter {
        match m.selected {
            Some(i) => {
                if i < n {
                    (m, PickOutcomeModel::Chosen(i))
                } else {
                    (PickerModel { naming: true, ..m }, PickOutcomeModel::Continue)
                }
            },
            None => (m, PickOutcomeModel::Continue),
        }
    } else if is_up(key) {
        (
            PickerModel { selected: Some(wrapped_up(m.selected, total) as usize), ..m },
            PickOutcomeModel::Continue,
        )
    } else if is_down(key) {
        (
            PickerModel { selected: Some(wrapped_down(m.selected, total) as usize), ..m },
            PickOutcomeModel::Continue,
        )
    } else if key == Key::Char('n') {
        (PickerModel { selected: Some(n as usize), naming: true, ..m }, PickOutcomeModel::Continue)
    } else if (key == Key::Char('c') && ctrl) || key == Key::Esc {
        (m, PickOutcomeModel::Cancelled)
    } else {
        (m, PickOutcomeModel::Continue)
    }
}

/// A selected row of the chooser (the projects and the "new" row).
pub open spec fn in_rows(sel: Option<usize>, n: usize) -> bool {
    sel matches Some(i) && i <= n
}

impl ProjectPicker {
    /// The chooser on `n` projects: the first one selected, if any.
    pub fn new(n: usize) -> (r: Self)
        ensures
            r@ == (PickerModel {
                selected: if n > 0 {
                    Some(0usize)
                } else {
                    None
                },
                naming: false,
                name_buf: Seq::<char>::empty(),
            }),
    {
        ProjectPicker {
            selected: if n > 0 {
                Some(0)
            } else {
                None
            },
            naming: false,
            name_buf: String::new(),
        }
    }

    pub fn handle_key(&mut self, key: Key, ctrl: bool, n: usize) -> (r: PickOutcome)
        requires
            n < usize::MAX,
            !(is_down(key) && !old(self).naming && old(self).selected == Some(usize::MAX)),
        ensures
            (final(self)@, r@) == picker_key(old(self)@, key, ctrl, n as nat),
            in_rows(old(self).selected, n) && !old(self).naming ==> in_rows(final(self).selected, n),
    {
        let total = n + 1;
        if self.naming {
            match key {
                Key::Enter => {
                    let t = trim_chars(&chars_of(self.name_buf.as_str()));
                    if t.len() > 0 {
                        PickOutcome::Create(string_of(&t))
                    } else {
                        PickOutcome::Continue
                    }
                },
                Key::Esc => {
                    self.naming = false;
                    self.name_buf = String::new();
                    PickOutcome::Continue
                },
                Key::Backspace => {
                    self.name_buf = pop_char(&self.name_buf);
                    PickOutcome::Continue
                },
                Key::Char(c) => {
                    self.name_buf = push_char(&self.name_buf, c);
                    PickOutcome::Continue
                },
                _ => PickOutcome::Continue,
            }
        } else if key == Key::Enter {
            match self.selected {
                Some(i) => {
                    if i < n {
                        PickOutcome::Chosen(i)
                    } else {
                        self.naming = true;
                        PickOutcome::Continue
                    }
                },
                None => PickOutcome::Continue,
            }
        } else if key == Key::Up || key == Key::Char('k') {
            self.selected = Some(wrap_up(self.selected, total));
            PickOutcome::Continue
        } else if key == Key::Down || key == Key::Char('j') {
            self.selected = Some(wrap_down(self.selected, total));
            PickOutcome::Continue
        } else if key == Key::Char('n') {
            self.selected = Some(n);
            self.naming = true;
            PickOutcome::Continue
        } else if (key == Key::Char('c') && ctrl) || key == Key::Esc {
            PickOutcome::Cancelled
        } else {
            PickOutcome::Continue
        }
    }
}

} // verus!

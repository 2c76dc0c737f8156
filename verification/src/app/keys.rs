//! What a key press means to the front end: the popups and input modes that
//! capture keys, in their order of precedence, then the global keys and the
//! keys of the current tab. The application performs the returned command.

use vstd::prelude::*;

use crate::app::list_edit::Key;
use crate::app::types::{tab_next, tab_prev, ActiveTab, FilterMode, ProjectEditorMode};
use crate::bgp::types::PeerRouteDirection;

verus! {

// ─── Moving a selection through a list ───────────────────────────────────────

/// Up in a list of `len` rows: from the first row (or none) to the last,
/// else one row up.
pub open spec fn wrapped_up(sel: Option<usize>, len: nat) -> int {
    match sel {
        Some(i) => {
            if i == 0 {
                len - 1
            } else {
                i - 1
            }
        },
        None => len - 1,
    }
}

/// Down in a list of `len` rows: one row down, from the last to the first;
/// none selected goes to the first.
pub open spec fn wrapped_down(sel: Option<usize>, len: nat) -> int {
    match sel {
        Some(i) => (i + 1) % (len as int),
        None => 0,
    }
}

pub fn wrap_up(sel: Option<usize>, len: usize) -> (r: usize)
    requires
        len > 0,
    ensures
        r == wrapped_up(sel, len as nat),
{
    match sel {
        Some(i) => {
            if i == 0 {
                len - 1
            } else {
                i - 1
            }
        },
        None => len - 1,
    }
}

pub fn wrap_down(sel: Option<usize>, len: usize) -> (r: usize)
    requires
        len > 0,
        sel != Some(usize::MAX),
    ensures
        r == wrapped_down(sel, len as nat),
{
    match sel {
        Some(i) => (i + 1) % len,
        None => 0,
    }
}

/// Up and down keep a selection inside the list, and down undoes up.
pub proof fn law_wrap_in_range(i: usize, len: nat)
    requires
        i < len <= usize::MAX,
    ensures
        0 <= wrapped_up(Some(i), len) < len,
        0 <= wrapped_down(Some(i), len) < len,
        wrapped_down(Some(wrapped_up(Some(i), len) as usize), len) == i,
        wrapped_up(Some(wrapped_down(Some(i), len) as usize), len) == i,
{
    let l = len as int;
    assert((l - 1 + 1) % l == 0) by (nonlinear_arith)
        requires
            l > 0,
    ;
    assert(forall|x: int| 0 <= x < l ==> #[trigger] (x % l) == x) by (nonlinear_arith)
        requires
            l > 0,
    ;
    if i + 1 < l {
        assert((i + 1) % l == i + 1);
    } else {
        assert((i + 1) % l == 0) by (nonlinear_arith)
            requires
                i + 1 == l,
        ;
    }
    let u = wrapped_up(Some(i), len);
    assert(0 <= u < l);
    if i > 0 {
        assert(u + 1 < l || u + 1 == l);
        assert((u + 1) % l == i);
    }
}

// ─── The command a key asks for ──────────────────────────────────────────────

/// The filter bars.
#[derive(Debug, Clone, Copy, PartialEq, Eq, Structural)]
pub enum FilterKind {
    Peers,
    Routes,
    Config,
    Logs,
    ConnLog,
}

/// The filter bar of a tab, if it has one.
pub open spec fn filter_of(tab: ActiveTab) -> Option<FilterKind> {
    match tab {
        ActiveTab::Peers => Some(FilterKind::Peers),
        ActiveTab::Routes => Some(FilterKind::Routes),
        ActiveTab::Config => Some(FilterKind::Config),
        ActiveTab::Logs => Some(FilterKind::Logs),
        ActiveTab::ConnLog => Some(FilterKind::ConnLog),
        _ => None,
    }
}

pub fn filter_kind(tab: ActiveTab) -> (r: Option<FilterKind>)
    ensures
        r == filter_of(tab),
{
    match tab {
        ActiveTab::Peers => Some(FilterKind::Peers),
        ActiveTab::Routes => Some(FilterKind::Routes),
        ActiveTab::Config => Some(FilterKind::Config),
        ActiveTab::Logs => Some(FilterKind::Logs),
        ActiveTab::ConnLog => Some(FilterKind::ConnLog),
        _ => None,
    }
}

/// What the key handler reads of the application's state.
#[derive(Debug, Clone, Copy, PartialEq, Eq, Structural)]
pub struct KeyContext {
    pub tab: ActiveTab,
    /// A delete waits for confirmation.
    pub confirm_pending: bool,
    pub show_history: bool,
    pub history_selected: Option<usize>,
    pub history_len: usize,
    pub show_help: bool,
    /// A neighbor is being cloned to another router.
    pub cloning: bool,
    pub clone_target: Option<usize>,
    /// All routers, whatever the project.
    pub all_routers_len: usize,
    /// The router editor form is open.
    pub router_editing: bool,
    pub wizard_open: bool,
    pub project_popup: bool,
    pub project_mode: ProjectEditorMode,
    pub projects_len: usize,
    pub project_selected: Option<usize>,
    pub toggle_selected: Option<usize>,
    /// The mode of the current tab's filter bar (`Off` for tabs without one).
    pub filter_mode: FilterMode,
    /// The current tab's filter text is empty.
    pub filter_empty: bool,
    /// The per-peer route view is open.
    pub peer_view_open: bool,
    pub peer_view_direction: PeerRouteDirection,
    pub peer_routes_len: usize,
    pub peer_route_selected: Option<usize>,
    pub has_pending_update: bool,
    /// A route-map detail is shown beside the configuration.
    pub routemap_shown: bool,
    pub detail_scroll: u16,
    /// The rows of the current tab's list, and its selection.
    pub list_len: usize,
    pub list_selected: Option<usize>,
}

/// What the application is asked to do.
#[derive(Debug, Clone, Copy, PartialEq, Eq, Structural)]
pub enum Command {
    Nothing,
    ConfirmExecute,
    ConfirmCancel,
    CloseHistory,
    SelectHistory(usize),
    Rollback(usize),
    CloseHelp,
    SelectCloneTarget(usize),
    ExecuteClone,
    CancelClone,
    /// The router editor form handles the key.
    RouterEditorKey,
    /// The open wizard handles the key.
    WizardKey,
    ProjectNameCancel,
    ProjectNamePop,
    ProjectNameSave,
    ProjectNamePush(char),
    ProjectBrowse,
    SelectToggleRouter(usize),
    ToggleProjectRouter,
    CloseProjects,
    SelectProjectRow(usize),
    /// Switch to the project at this row (none: all routers) and close.
    SwitchProject(Option<usize>),
    AddProject,
    RequestDeleteProject,
    EditProjectRouters,
    FilterClear(FilterKind),
    FilterDone(FilterKind, FilterMode),
    FilterPop(FilterKind),
    FilterPush(FilterKind, char),
    ClosePeerRoutes,
    TogglePeerDirection,
    RefreshPeerRoutes,
    SelectPeerRoute(usize),
    Quit,
    /// Switch tabs, first accepting a held-back update when leaving the
    /// configuration, and refresh the BGP data soon.
    SwitchTab(ActiveTab, bool, bool),
    /// Select this row of the current tab's list.
    Navigate(usize),
    ToggleHelp,
    FilterStart(FilterKind),
    Scroll(u16),
    Refresh,
    ShowHistory,
    AcceptUpdate,
    DismissUpdate,
    OpenProjects,
    RouterAdd,
    RouterRequestDelete,
    RouterSave,
    RouterEdit,
    OpenPeerRoutes(PeerRouteDirection),
    MtuProbe,
    ToggleShutdown,
    NewNeighbor,
    EditNeighbor,
    DeleteNeighbor,
    CloneNeighbor,
    /// Open the policy editor for the selected configuration line.
    EditPolicyAtLine,
    NewPrefixList,
    NewCommunityList,
}

pub open spec fn is_up(key: Key) -> bool {
    key == Key::Up || key == Key::Char('k')
}

pub open spec fn is_down(key: Key) -> bool {
    key == Key::Down || key == Key::Char('j')
}

/// Keys in the confirmation dialog.
pub open spec fn confirm_command(key: Key) -> Command {
    if key == Key::Char('y') || key == Key::Enter {
        Command::ConfirmExecute
    } else if key == Key::Char('n') || key == Key::Esc {
        Command::ConfirmCancel
    } else {
        Command::Nothing
    }
}

/// Keys in the configuration-history popup.
pub open spec fn history_command(c: KeyContext, key: Key) -> Command {
    let i: int = match c.history_selected {
        Some(i) => i as int,
        None => 0,
    };
    let max: int = if c.history_len > 0 {
        c.history_len - 1
    } else {
        0
    };
    if key == Key::Esc || key == Key::Char('h') {
        Command::CloseHistory
    } else if is_up(key) {
        if i > 0 {
            Command::SelectHistory((i - 1) as usize)
        } else {
            Command::Nothing
        }
    } else if is_down(key) {
        Command::SelectHistory(
            if i + 1 < max {
                (i + 1) as usize
            } else {
                max as usize
            },
        )
    } else if key == Key::Char('u') {
        match c.history_selected {
            Some(j) => Command::Rollback(j),
            None => Command::Nothing,
        }
    } else {
        Command::Nothing
    }
}

/// Keys in the clone-neighbor popup.
pub open spec fn clone_command(c: KeyContext, key: Key) -> Command {
    if is_up(key) {
        match c.clone_target {
            Some(i) => {
                if i > 0 {
                    Command::SelectCloneTarget((i - 1) as usize)
                } else {
                    Command::Nothing
                }
            },
            None => Command::Nothing,
        }
    } else if is_down(key) {
        match c.clone_target {
            Some(i) => {
                let max: int = if c.all_routers_len > 0 {
                    c.all_routers_len - 1
                } else {
                    0
                };
                Command::SelectCloneTarget(
                    if i + 1 < max {
                        (i + 1) as usize
                    } else {
                        max as usize
                    },
                )
            },
            None => Command::Nothing,
        }
    } else if key == Key::Enter {
        Command::ExecuteClone
    } else if key == Key::Esc {
        Command::CancelClone
    } else {
        Command::Nothing
    }
}

/// Keys in the project popup.
pub open spec fn project_command(c: KeyContext, key: Key) -> Command {
    match c.project_mode {
        ProjectEditorMode::EditName => match key {
            Key::Esc => Command::ProjectNameCancel,
            Key::Backspace => Command::ProjectNamePop,
            Key::Enter => Command::ProjectNameSave,
            Key::Char(ch) => Command::ProjectNamePush(ch),
            _ => Command::Nothing,
        },
        ProjectEditorMode::ToggleRouters => {
            if key == Key::Esc || key == Key::Enter {
                Command::ProjectBrowse
            } else if is_up(key) {
                if c.all_routers_len == 0 {
                    Command::Nothing
                } else {
                    Command::SelectToggleRouter(
                        wrapped_up(c.toggle_selected, c.all_routers_len as nat) as usize,
                    )
                }
            } else if is_down(key) {
                if c.all_routers_len == 0 {
                    Command::Nothing
                } else {
                    Command::SelectToggleRouter(
                        wrapped_down(c.toggle_selected, c.all_routers_len as nat) as usize,
                    )
                }
            } else if key == Key::Char(' ') {
                Command::ToggleProjectRouter
            } else {
                Command::Nothing
            }
        },
        ProjectEditorMode::Browse => {
            if key == Key::Esc || key == Key::Char('p') {
                Command::CloseProjects
            } else if is_up(key) {
                if c.projects_len == 0 {
                    Command::Nothing
                } else {
                    Command::SelectProjectRow(
                        wrapped_up(c.project_selected, c.projects_len as nat) as usize,
                    )
                }
            } else if is_down(key) {
                if c.projects_len == 0 {
                    Command::Nothing
                } else {
                    Command::SelectProjectRow(
                        wrapped_down(c.project_selected, c.projects_len as nat) as usize,
                    )
                }
            } else if key == Key::Enter {
                Command::SwitchProject(c.project_selected)
            } else if key == Key::Char('0') {
                Command::SwitchProject(None)
            } else if key == Key::Char('a') {
                Command::AddProject
            } else if key == Key::Char('d') {
                Command::RequestDeleteProject
            } else if key == Key::Char('e') {
                Command::EditProjectRouters
            } else {
                Command::Nothing
            }
        },
    }
}

/// Keys while a filter is typed.
pub open spec fn filter_typing_command(c: KeyContext, kind: FilterKind, key: Key) -> Command {
    match key {
        Key::Esc => Command::FilterClear(kind),
        Key::Enter => Command::FilterDone(
            kind,
            if c.filter_empty {
                FilterMode::Off
            } else {
                FilterMode::Active
            },
        ),
        Key::Backspace => Command::FilterPop(kind),
        Key::Char(ch) => Command::FilterPush(kind, ch),
        _ => Command::Nothing,
    }
}

/// Keys in the per-peer route view.
pub open spec fn peer_view_command(c: KeyContext, key: Key) -> Command {
    if key == Key::Esc {
        Command::ClosePeerRoutes
    } else if key == Key::Char('i') {
        if c.peer_view_direction != PeerRouteDirection::Received {
            Command::TogglePeerDirection
        } else {
            Command::Nothing
        }
    } else if key == Key::Char('o') {
        if c.peer_view_direction != PeerRouteDirection::Advertised {
            Command::TogglePeerDirection
        } else {
            Command::Nothing
        }
    } else if key == Key::Tab {
        Command::TogglePeerDirection
    } else if key == Key::Char('r') || key == Key::F(5) {
        Command::RefreshPeerRoutes
    } else if is_up(key) {
        if c.peer_routes_len > 0 {
            Command::SelectPeerRoute(
                wrapped_up(c.peer_route_selected, c.peer_routes_len as nat) as usize,
            )
        } else {
            Command::Nothing
        }
    } else if is_down(key) {
        if c.peer_routes_len > 0 {
            Command::SelectPeerRoute(
                wrapped_down(c.peer_route_selected, c.peer_routes_len as nat) as usize,
            )
        } else {
            Command::Nothing
        }
    } else {
        Command::Nothing
    }
}

/// Switching to a tab with a number key (`4` only switches).
pub open spec fn number_tab(c: KeyContext, tab: ActiveTab) -> Command {
    Command::SwitchTab(tab, c.tab == ActiveTab::Config && c.has_pending_update, true)
}

/// Keys of the tabs themselves, once no popup or input mode took the key.
pub open spec fn tab_command(c: KeyContext, key: Key) -> Command {
    let t = c.tab;
    let leave = t == ActiveTab::Config && c.has_pending_update;
    let peers_plain = t == ActiveTab::Peers && !c.peer_view_open;
    match key {
        Key::Tab => Command::SwitchTab(tab_next(t), leave, false),
        Key::BackTab => Command::SwitchTab(tab_prev(t), leave, false),
        Key::Up => nav_up_command(c),
        Key::Down => nav_down_command(c),
        Key::Esc => match filter_of(t) {
            Some(k) => {
                if c.filter_mode != FilterMode::Off {
                    Command::FilterClear(k)
                } else {
                    Command::Nothing
                }
            },
            None => Command::Nothing,
        },
        Key::PageDown => {
            if t == ActiveTab::Config && c.routemap_shown {
                Command::Scroll(
                    if c.detail_scroll + 10 <= u16::MAX {
                        (c.detail_scroll + 10) as u16
                    } else {
                        u16::MAX
                    },
                )
            } else {
                Command::Nothing
            }
        },
        Key::PageUp => {
            if t == ActiveTab::Config && c.routemap_shown {
                Command::Scroll(
                    if c.detail_scroll >= 10 {
                        (c.detail_scroll - 10) as u16
                    } else {
                        0
                    },
                )
            } else {
                Command::Nothing
            }
        },
        Key::F(n) => {
            if n == 5 {
                Command::Refresh
            } else {
                Command::Nothing
            }
        },
        Key::Enter => {
            if t == ActiveTab::Routers {
                Command::RouterEdit
            } else if t == ActiveTab::Peers {
                Command::OpenPeerRoutes(PeerRouteDirection::Received)
            } else {
                Command::Nothing
            }
        },
        Key::Char(ch) => char_command(c, ch, leave, peers_plain),
        _ => Command::Nothing,
    }
}

pub open spec fn nav_up_command(c: KeyContext) -> Command {
    if c.list_len == 0 {
        Command::Nothing
    } else {
        Command::Navigate(wrapped_up(c.list_selected, c.list_len as nat) as usize)
    }
}

pub open spec fn nav_down_command(c: KeyContext) -> Command {
    if c.list_len == 0 {
        Command::Nothing
    } else {
        Command::Navigate(wrapped_down(c.list_selected, c.list_len as nat) as usize)
    }
}

/// Character keys of the tabs.
pub open spec fn char_command(c: KeyContext, ch: char, leave: bool, peers_plain: bool) -> Command {
    let t = c.tab;
    if ch == '1' {
        number_tab(c, ActiveTab::Dashboard)
    } else if ch == '2' {
        number_tab(c, ActiveTab::Peers)
    } else if ch == '3' {
        number_tab(c, ActiveTab::Routes)
    } else if ch == '4' {
        Command::SwitchTab(ActiveTab::Config, false, false)
    } else if ch == '5' {
        number_tab(c, ActiveTab::Logs)
    } else if ch == '6' {
        number_tab(c, ActiveTab::Routers)
    } else if ch == '7' {
        number_tab(c, ActiveTab::ConnLog)
    } else if ch == 'k' {
        nav_up_command(c)
    } else if ch == 'j' {
        nav_down_command(c)
    } else if ch == '?' {
        Command::ToggleHelp
    } else if ch == '/' {
        match filter_of(t) {
            Some(k) => Command::FilterStart(k),
            None => Command::Nothing,
        }
    } else if ch == 'r' {
        Command::Refresh
    } else if ch == 'h' && t == ActiveTab::Config {
        Command::ShowHistory
    } else if ch == 'y' && t == ActiveTab::Config && c.has_pending_update {
        Command::AcceptUpdate
    } else if ch == 'n' && t == ActiveTab::Config && c.has_pending_update {
        Command::DismissUpdate
    } else if ch == 'p' {
        Command::OpenProjects
    } else if ch == 'a' && t == ActiveTab::Routers {
        Command::RouterAdd
    } else if ch == 'd' && t == ActiveTab::Routers {
        Command::RouterRequestDelete
    } else if ch == 's' && t == ActiveTab::Routers {
        Command::RouterSave
    } else if ch == 'i' && t == ActiveTab::Peers {
        Command::OpenPeerRoutes(PeerRouteDirection::Received)
    } else if ch == 'o' && t == ActiveTab::Peers {
        Command::OpenPeerRoutes(PeerRouteDirection::Advertised)
    } else if ch == 'm' && t == ActiveTab::Peers {
        Command::MtuProbe
    } else if ch == 's' && peers_plain {
        Command::ToggleShutdown
    } else if ch == 'n' && (t == ActiveTab::Peers || t == ActiveTab::Dashboard) {
        Command::NewNeighbor
    } else if ch == 'e' && peers_plain {
        Command::EditNeighbor
    } else if ch == 'x' && peers_plain {
        Command::DeleteNeighbor
    } else if ch == 'c' && peers_plain {
        Command::CloneNeighbor
    } else if ch == 'e' && t == ActiveTab::Config {
        Command::EditPolicyAtLine
    } else if ch == 'P' && t == ActiveTab::Config {
        Command::NewPrefixList
    } else if ch == 'C' && t == ActiveTab::Config {
        Command::NewCommunityList
    } else {
        Command::Nothing
    }
}

/// What a key asks for, `ctrl` telling whether Control was held: the first
/// popup or input mode that is open takes the key (confirmation, history,
/// help, clone, router form, wizard, projects, filter typing, per-peer
/// routes); otherwise `q` or Control-C quits, and the tab keys apply.
pub open spec fn key_command(c: KeyContext, key: Key, ctrl: bool) -> Command {
    if c.confirm_pending {
        confirm_command(key)
    } else if c.show_history {
        history_command(c, key)
    } else if c.show_help {
        Command::CloseHelp
    } else if c.cloning {
        clone_command(c, key)
    } else if c.tab == ActiveTab::Routers && c.router_editing {
        Command::RouterEditorKey
    } else if c.wizard_open {
        Command::WizardKey
    } else if c.project_popup {
        project_command(c, key)
    } else if c.filter_mode == FilterMode::Typing && filter_of(c.tab) is Some {
        filter_typing_command(c, filter_of(c.tab)->0, key)
    } else if c.peer_view_open && c.tab == ActiveTab::Peers {
        peer_view_command(c, key)
    } else if key == Key::Char('q') || key == Key::Char('Q') || (key == Key::Char('c') && ctrl) {
        Command::Quit
    } else {
        tab_command(c, key)
    }
}

/// The inputs on which the handler's `+ 1` on a selection would overflow:
/// a selection at the largest index moved down.
pub open spec fn key_overflows(c: KeyContext, key: Key) -> bool {
    let k = key_command_stage(c);
    ||| (k == 1 && is_down(key) && c.history_selected == Some(usize::MAX))
    ||| (k == 3 && is_down(key) && c.clone_target == Some(usize::MAX))
    ||| (k == 6 && is_down(key) && c.all_routers_len > 0 && c.project_mode
        == ProjectEditorMode::ToggleRouters && c.toggle_selected == Some(usize::MAX))
    ||| (k == 6 && is_down(key) && c.projects_len > 0 && c.project_mode
        == ProjectEditorMode::Browse && c.project_selected == Some(usize::MAX))
    ||| (k == 8 && is_down(key) && c.peer_routes_len > 0 && c.peer_route_selected == Some(
        usize::MAX,
    ))
    ||| (k == 9 && is_down(key) && c.list_len > 0 && c.list_selected == Some(usize::MAX))
}

/// Which stage takes the key: 0 confirmation, 1 history, 2 help, 3 clone,
/// 4 router form, 5 wizard, 6 projects, 7 filter typing, 8 per-peer routes,
/// 9 the tabs.
pub open spec fn key_command_stage(c: KeyContext) -> int {
    if c.confirm_pending {
        0
    } else if c.show_history {
        1
    } else if c.show_help {
        2
    } else if c.cloning {
        3
    } else if c.tab == ActiveTab::Routers && c.router_editing {
        4
    } else if c.wizard_open {
        5
    } else if c.project_popup {
        6
    } else if c.filter_mode == FilterMode::Typing && filter_of(c.tab) is Some {
        7
    } else if c.peer_view_open && c.tab == ActiveTab::Peers {
        8
    } else {
        9
    }
}

// ─── The handler ─────────────────────────────────────────────────────────────

fn up_key(key: Key) -> (r: bool)
    ensures
        r == is_up(key),
{
    key == Key::Up || key == Key::Char('k')
}

fn down_key(key: Key) -> (r: bool)
    ensures
        r == is_down(key),
{
    key == Key::Down || key == Key::Char('j')
}

fn history_key(c: &KeyContext, key: Key) -> (r: Command)
    requires
        !(is_down(key) && c.history_selected == Some(usize::MAX)),
    ensures
        r == history_command(*c, key),
{
    let i: usize = match c.history_selected {
        Some(i) => i,
        None => 0,
    };
    let max: usize = if c.history_len > 0 {
        c.history_len - 1
    } else {
        0
    };
    if key == Key::Esc || key == Key::Char('h') {
        Command::CloseHistory
    } else if up_key(key) {
        if i > 0 {
            Command::SelectHistory(i - 1)
        } else {
            Command::Nothing
        }
    } else if down_key(key) {
        Command::SelectHistory(
            if i + 1 < max {
                i + 1
            } else {
                max
            },
        )
    } else if key == Key::Char('u') {
        match c.history_selected {
            Some(j) => Command::Rollback(j),
            None => Command::Nothing,
        }
    } else {
        Command::Nothing
    }
}

fn clone_key(c: &KeyContext, key: Key) -> (r: Command)
    requires
        !(is_down(key) && c.clone_target == Some(usize::MAX)),
    ensures
        r == clone_command(*c, key),
{
    if up_key(key) {
        match c.clone_target {
            Some(i) => {
                if i > 0 {
                    Command::SelectCloneTarget(i - 1)
                } else {
                    Command::Nothing
                }
            },
            None => Command::Nothing,
        }
    } else if down_key(key) {
        match c.clone_target {
            Some(i) => {
                let max: usize = if c.all_routers_len > 0 {
                    c.all_routers_len - 1
                } else {
                    0
                };
                Command::SelectCloneTarget(
                    if i + 1 < max {
                        i + 1
                    } else {
                        max
                    },
                )
            },
            None => Command::Nothing,
        }
    } else if key == Key::Enter {
        Command::ExecuteClone
    } else if key == Key::Esc {
        Command::CancelClone
    } else {
        Command::Nothing
    }
}

fn project_key(c: &KeyContext, key: Key) -> (r: Command)
    requires
        !(is_down(key) && c.all_routers_len > 0 && c.project_mode == ProjectEditorMode::ToggleRouters
            && c.toggle_selected == Some(usize::MAX)),
        !(is_down(key) && c.projects_len > 0 && c.project_mode == ProjectEditorMode::Browse
            && c.project_selected == Some(usize::MAX)),
    ensures
        r == project_command(*c, key),
{
    match c.project_mode {
        ProjectEditorMode::EditName => match key {
            Key::Esc => Command::ProjectNameCancel,
            Key::Backspace => Command::ProjectNamePop,
            Key::Enter => Command::ProjectNameSave,
            Key::Char(ch) => Command::ProjectNamePush(ch),
            _ => Command::Nothing,
        },
        ProjectEditorMode::ToggleRouters => {
            if key == Key::Esc || key == Key::Enter {
                Command::ProjectBrowse
            } else if up_key(key) {
                if c.all_routers_len == 0 {
                    Command::Nothing
                } else {
                    Command::SelectToggleRouter(wrap_up(c.toggle_selected, c.all_routers_len))
                }
            } else if down_key(key) {
                if c.all_routers_len == 0 {
                    Command::Nothing
                } else {
                    Command::SelectToggleRouter(wrap_down(c.toggle_selected, c.all_routers_len))
                }
            } else if key == Key::Char(' ') {
                Command::ToggleProjectRouter
            } else {
                Command::Nothing
            }
        },
        ProjectEditorMode::Browse => {
            if key == Key::Esc || key == Key::Char('p') {
                Command::CloseProjects
            } else if up_key(key) {
                if c.projects_len == 0 {
                    Command::Nothing
                } else {
                    Command::SelectProjectRow(wrap_up(c.project_selected, c.projects_len))
                }
            } else if down_key(key) {
                if c.projects_len == 0 {
                    Command::Nothing
                } else {
                    Command::SelectProjectRow(wrap_down(c.project_selected, c.projects_len))
                }
            } else if key == Key::Enter {
                Command::SwitchProject(c.project_selected)
            } else if key == Key::Char('0') {
                Command::SwitchProject(None)
            } else if key == Key::Char('a') {
                Command::AddProject
            } else if key == Key::Char('d') {
                Command::RequestDeleteProject
            } else if key == Key::Char('e') {
                Command::EditProjectRouters
            } else {
                Command::Nothing
            }
        },
    }
}

fn filter_typing_key(c: &KeyContext, kind: FilterKind, key: Key) -> (r: Command)
    ensures
        r == filter_typing_command(*c, kind, key),
{
    match key {
        Key::Esc => Command::FilterClear(kind),
        Key::Enter => Command::FilterDone(
            kind,
            if c.filter_empty {
                FilterMode::Off
            } else {
                FilterMode::Active
            },
        ),
        Key::Backspace => Command::FilterPop(kind),
        Key::Char(ch) => Command::FilterPush(kind, ch),
        _ => Command::Nothing,
    }
}

fn peer_view_key(c: &KeyContext, key: Key) -> (r: Command)
    requires
        !(is_down(key) && c.peer_routes_len > 0 && c.peer_route_selected == Some(usize::MAX)),
    ensures
        r == peer_view_command(*c, key),
{
    if key == Key::Esc {
        Command::ClosePeerRoutes
    } else if key == Key::Char('i') {
        if c.peer_view_direction != PeerRouteDirection::Received {
            Command::TogglePeerDirection
        } else {
            Command::Nothing
        }
    } else if key == Key::Char('o') {
        if c.peer_view_direction != PeerRouteDirection::Advertised {
            Command::TogglePeerDirection
        } else {
            Command::Nothing
        }
    } else if key == Key::Tab {
        Command::TogglePeerDirection
    } else if key == Key::Char('r') || key == Key::F(5) {
        Command::RefreshPeerRoutes
    } else if up_key(key) {
        if c.peer_routes_len > 0 {
            Command::SelectPeerRoute(wrap_up(c.peer_route_selected, c.peer_routes_len))
        } else {
            Command::Nothing
        }
    } else if down_key(key) {
        if c.peer_routes_len > 0 {
            Command::SelectPeerRoute(wrap_down(c.peer_route_selected, c.peer_routes_len))
        } else {
            Command::Nothing
        }
    } else {
        Command::Nothing
    }
}

fn nav_up(c: &KeyContext) -> (r: Command)
    ensures
        r == nav_up_command(*c),
{
    if c.list_len == 0 {
        Command::Nothing
    } else {
        Command::Navigate(wrap_up(c.list_selected, c.list_len))
    }
}

fn nav_down(c: &KeyContext) -> (r: Command)
    requires
        !(c.list_len > 0 && c.list_selected == Some(usize::MAX)),
    ensures
        r == nav_down_command(*c),
{
    if c.list_len == 0 {
        Command::Nothing
    } else {
        Command::Navigate(wrap_down(c.list_selected, c.list_len))
    }
}

fn char_key(c: &KeyContext, ch: char, leave: bool, peers_plain: bool) -> (r: Command)
    requires
        !(ch == 'j' && c.list_len > 0 && c.list_selected == Some(usize::MAX)),
    ensures
        r == char_command(*c, ch, leave, peers_plain),
{
    let t = c.tab;
    let from_config = c.tab == ActiveTab::Config && c.has_pending_update;
    if ch == '1' {
        Command::SwitchTab(ActiveTab::Dashboard, from_config, true)
    } else if ch == '2' {
        Command::SwitchTab(ActiveTab::Peers, from_config, true)
    } else if ch == '3' {
        Command::SwitchTab(ActiveTab::Routes, from_config, true)
    } else if ch == '4' {
        Command::SwitchTab(ActiveTab::Config, false, false)
    } else if ch == '5' {
        Command::SwitchTab(ActiveTab::Logs, from_config, true)
    } else if ch == '6' {
        Command::SwitchTab(ActiveTab::Routers, from_config, true)
    } else if ch == '7' {
        Command::SwitchTab(ActiveTab::ConnLog, from_config, true)
    } else if ch == 'k' {
        nav_up(c)
    } else if ch == 'j' {
        nav_down(c)
    } else if ch == '?' {
        Command::ToggleHelp
    } else if ch == '/' {
        match filter_kind(t) {
            Some(k) => Command::FilterStart(k),
            None => Command::Nothing,
        }
    } else if ch == 'r' {
        Command::Refresh
    } else if ch == 'h' && t == ActiveTab::Config {
        Command::ShowHistory
    } else if ch == 'y' && t == ActiveTab::Config && c.has_pending_update {
        Command::AcceptUpdate
    } else if ch == 'n' && t == ActiveTab::Config && c.has_pending_update {
        Command::DismissUpdate
    } else if ch == 'p' {
        Command::OpenProjects
    } else if ch == 'a' && t == ActiveTab::Routers {
        Command::RouterAdd
    } else if ch == 'd' && t == ActiveTab::Routers {
        Command::RouterRequestDelete
    } else if ch == 's' && t == ActiveTab::Routers {
        Command::RouterSave
    } else if ch == 'i' && t == ActiveTab::Peers {
        Command::OpenPeerRoutes(PeerRouteDirection::Received)
    } else if ch == 'o' && t == ActiveTab::Peers {
        Command::OpenPeerRoutes(PeerRouteDirection::Advertised)
    } else if ch == 'm' && t == ActiveTab::Peers {
        Command::MtuProbe
    } else if ch == 's' && peers_plain {
        Command::ToggleShutdown
    } else if ch == 'n' && (t == ActiveTab::Peers || t == ActiveTab::Dashboard) {
        Command::NewNeighbor
    } else if ch == 'e' && peers_plain {
        Command::EditNeighbor
    } else if ch == 'x' && peers_plain {
        Command::DeleteNeighbor
    } else if ch == 'c' && peers_plain {
        Command::CloneNeighbor
    } else if ch == 'e' && t == ActiveTab::Config {
        Command::EditPolicyAtLine
    } else if ch == 'P' && t == ActiveTab::Config {
        Command::NewPrefixList
    } else if ch == 'C' && t == ActiveTab::Config {
        Command::NewCommunityList
    } else {
        Command::Nothing
    }
}

fn tab_key(c: &KeyContext, key: Key) -> (r: Command)
    requires
        !(is_down(key) && c.list_len > 0 && c.list_selected == Some(usize::MAX)),
    ensures
        r == tab_command(*c, key),
{
    let t = c.tab;
    let leave = t == ActiveTab::Config && c.has_pending_update;
    let peers_plain = t == ActiveTab::Peers && !c.peer_view_open;
    match key {
        Key::Tab => Command::SwitchTab(t.next(), leave, false),
        Key::BackTab => Command::SwitchTab(t.prev(), leave, false),
        Key::Up => nav_up(c),
        Key::Down => nav_down(c),
        Key::Esc => match filter_kind(t) {
            Some(k) => {
                if c.filter_mode != FilterMode::Off {
                    Command::FilterClear(k)
                } else {
                    Command::Nothing
                }
            },
            None => Command::Nothing,
        },
        Key::PageDown => {
            if t == ActiveTab::Config && c.routemap_shown {
                Command::Scroll(c.detail_scroll.saturating_add(10))
            } else {
                Command::Nothing
            }
        },
        Key::PageUp => {
            if t == ActiveTab::Config && c.routemap_shown {
                Command::Scroll(c.detail_scroll.saturating_sub(10))
            } else {
                Command::Nothing
            }
        },
        Key::F(n) => {
            if n == 5 {
                Command::Refresh
            } else {
                Command::Nothing
            }
        },
        Key::Enter => {
            if t == ActiveTab::Routers {
                Command::RouterEdit
            } else if t == ActiveTab::Peers {
                Command::OpenPeerRoutes(PeerRouteDirection::Received)
            } else {
                Command::Nothing
            }
        },
        Key::Char(ch) => char_key(c, ch, leave, peers_plain),
        _ => Command::Nothing,
    }
}

/// What a key asks for; `ctrl` tells whether Control was held.
pub fn route_key(c: &KeyContext, key: Key, ctrl: bool) -> (r: Command)
    requires
        !key_overflows(*c, key),
    ensures
        r == key_command(*c, key, ctrl),
{
    if c.confirm_pending {
        if key == Key::Char('y') || key == Key::Enter {
            Command::ConfirmExecute
        } else if key == Key::Char('n') || key == Key::Esc {
            Command::ConfirmCancel
        } else {
            Command::Nothing
        }
    } else if c.show_history {
        history_key(c, key)
    } else if c.show_help {
        Command::CloseHelp
    } else if c.cloning {
        clone_key(c, key)
    } else if c.tab == ActiveTab::Routers && c.router_editing {
        Command::RouterEditorKey
    } else if c.wizard_open {
        Command::WizardKey
    } else if c.project_popup {
        project_key(c, key)
    } else if c.filter_mode == FilterMode::Typing && filter_kind(c.tab).is_some() {
        match filter_kind(c.tab) {
            Some(k) => filter_typing_key(c, k, key),
            None => Command::Nothing,
        }
    } else if c.peer_view_open && c.tab == ActiveTab::Peers {
        peer_view_key(c, key)
    } else if key == Key::Char('q') || key == Key::Char('Q') || (key == Key::Char('c') && ctrl) {
        Command::Quit
    } else {
        tab_key(c, key)
    }
}

/// Whether the handler's `+ 1` would overflow on this key (the caller
/// refuses the key then).
pub fn key_overflows_exec(c: &KeyContext, key: Key) -> (r: bool)
    ensures
        r == key_overflows(*c, key),
{
    let down = down_key(key);
    let m = usize::MAX;
    if c.confirm_pending {
        false
    } else if c.show_history {
        down && c.history_selected == Some(m)
    } else if c.show_help {
        false
    } else if c.cloning {
        down && c.clone_target == Some(m)
    } else if c.tab == ActiveTab::Routers && c.router_editing {
        false
    } else if c.wizard_open {
        false
    } else if c.project_popup {
        (down && c.all_routers_len > 0 && c.project_mode == ProjectEditorMode::ToggleRouters
            && c.toggle_selected == Some(m)) || (down && c.projects_len > 0 && c.project_mode
            == ProjectEditorMode::Browse && c.project_selected == Some(m))
    } else if c.filter_mode == FilterMode::Typing && filter_kind(c.tab).is_some() {
        false
    } else if c.peer_view_open && c.tab == ActiveTab::Peers {
        down && c.peer_routes_len > 0 && c.peer_route_selected == Some(m)
    } else {
        down && c.list_len > 0 && c.list_selected == Some(m)
    }
}

/// The rows that Up and Down move through on a tab: the routers on the
/// dashboard and the router list, the filtered rows on the peer and route
/// tables, and on the text tabs the filtered rows while a filter is on,
/// else all rows.
pub open spec fn nav_len_of(
    tab: ActiveTab,
    mode: FilterMode,
    filtered: nat,
    rows: nat,
    routers: nat,
) -> nat {
    match tab {
        ActiveTab::Dashboard => routers,
        ActiveTab::Routers => routers,
        ActiveTab::Peers => filtered,
        ActiveTab::Routes => filtered,
        _ => {
            if mode != FilterMode::Off {
                filtered
            } else {
                rows
            }
        },
    }
}

pub fn nav_list_len(
    tab: ActiveTab,
    mode: FilterMode,
    filtered: usize,
    rows: usize,
    routers: usize,
) -> (r: usize)
    ensures
        r == nav_len_of(tab, mode, filtered as nat, rows as nat, routers as nat),
{
    match tab {
        ActiveTab::Dashboard => routers,
        ActiveTab::Routers => routers,
        ActiveTab::Peers => filtered,
        ActiveTab::Routes => filtered,
        _ => {
            if mode != FilterMode::Off {
                filtered
            } else {
                rows
            }
        },
    }
}

/// Up and down keep a selection that lies in its list inside that list.
proof fn lemma_wrapped_in_range(sel: Option<usize>, len: nat)
    requires
        0 < len <= usize::MAX,
        sel matches Some(s) ==> s < len,
    ensures
        0 <= wrapped_up(sel, len) < len,
        0 <= wrapped_down(sel, len) < len,
{
    if let Some(s) = sel {
        law_wrap_in_range(s, len);
    }
}

/// A key never moves a selection out of its list: where the current
/// selections lie inside their lists, a row that a key selects in the
/// current tab's list, the configuration history, the clone targets, the
/// per-peer routes, the project's router toggles or the project list lies
/// inside that list (the history's first row when the history is empty).
pub proof fn law_key_selection_in_range(c: KeyContext, key: Key, ctrl: bool)
    requires
        c.list_selected matches Some(s) ==> s < c.list_len,
        c.peer_route_selected matches Some(s) ==> s < c.peer_routes_len,
        c.toggle_selected matches Some(s) ==> s < c.all_routers_len,
        c.project_selected matches Some(s) ==> s < c.projects_len,
        c.history_selected matches Some(s) ==> s < c.history_len,
        c.clone_target matches Some(s) ==> s < c.all_routers_len,
    ensures
        key_command(c, key, ctrl) matches Command::SelectHistory(i) ==> i < c.history_len || (i
            == 0 && c.history_len == 0),
        key_command(c, key, ctrl) matches Command::SelectCloneTarget(i) ==> i < c.all_routers_len,
        key_command(c, key, ctrl) matches Command::Navigate(i) ==> i < c.list_len,
        key_command(c, key, ctrl) matches Command::SelectPeerRoute(i) ==> i < c.peer_routes_len,
        key_command(c, key, ctrl) matches Command::SelectToggleRouter(i) ==> i < c.all_routers_len,
        key_command(c, key, ctrl) matches Command::SelectProjectRow(i) ==> i < c.projects_len,
{
    if c.list_len > 0 {
        lemma_wrapped_in_range(c.list_selected, c.list_len as nat);
    }
    if c.peer_routes_len > 0 {
        lemma_wrapped_in_range(c.peer_route_selected, c.peer_routes_len as nat);
    }
    if c.all_routers_len > 0 {
        lemma_wrapped_in_range(c.toggle_selected, c.all_routers_len as nat);
    }
    if c.projects_len > 0 {
        lemma_wrapped_in_range(c.project_selected, c.projects_len as nat);
    }
}

/// An open confirmation takes every key and only confirms, cancels or does
/// nothing; the program quits only on `q`, `Q` or Control-C and only when no
/// popup or input mode is open to take the key.
pub proof fn law_key_precedence(c: KeyContext, key: Key, ctrl: bool)
    ensures
        c.confirm_pending ==> (key_command(c, key, ctrl) == Command::ConfirmExecute
            || key_command(c, key, ctrl) == Command::ConfirmCancel || key_command(c, key, ctrl)
            == Command::Nothing),
        (key_command(c, key, ctrl) == Command::Quit) <==> ({
            &&& !c.confirm_pending
            &&& !c.show_history
            &&& !c.show_help
            &&& !c.cloning
            &&& !(c.tab == ActiveTab::Routers && c.router_editing)
            &&& !c.wizard_open
            &&& !c.project_popup
            &&& !(c.filter_mode == FilterMode::Typing && filter_of(c.tab) is Some)
            &&& !(c.peer_view_open && c.tab == ActiveTab::Peers)
            &&& (key == Key::Char('q') || key == Key::Char('Q') || (key == Key::Char('c') && ctrl))
        }),
{
}

} // verus!

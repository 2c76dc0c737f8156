//! The modes and tabs of the terminal front end.

use vstd::prelude::*;

use crate::net::IpAddress;

verus! {

// ─── Editor Mode ─────────────────────────────────────────────────────────────

#[derive(Debug, Clone, Copy, PartialEq, Eq, Structural)]
pub enum EditorMode {
    Browse,
    EditField,
}

#[derive(Debug, Clone, Copy, PartialEq, Eq, Structural)]
pub enum ProjectEditorMode {
    /// Browsing the project list
    Browse,
    /// Typing a project name (create / rename)
    EditName,
    /// Toggling routers in/out of the selected project
    ToggleRouters,
}

/// The number of fields of the router editor form.
pub const EDITOR_NFIELDS: usize = 7;

pub open spec fn editor_field_name(i: int) -> Seq<char> {
    if i == 0 {
        "Name"@
    } else if i == 1 {
        "Hostname"@
    } else if i == 2 {
        "Port"@
    } else if i == 3 {
        "Username"@
    } else if i == 4 {
        "Password"@
    } else if i == 5 {
        "Vendor"@
    } else {
        "VDOM"@
    }
}

/// The label of a field of the router editor form.
pub fn editor_field_label(i: usize) -> (r: &'static str)
    requires
        i < EDITOR_NFIELDS,
    ensures
        r@ == editor_field_name(i as int),
{
    if i == 0 {
        "Name"
    } else if i == 1 {
        "Hostname"
    } else if i == 2 {
        "Port"
    } else if i == 3 {
        "Username"
    } else if i == 4 {
        "Password"
    } else if i == 5 {
        "Vendor"
    } else {
        "VDOM"
    }
}

// ─── Filter Mode ─────────────────────────────────────────────────────────────

#[derive(Debug, Clone, Copy, PartialEq, Eq, Structural)]
pub enum FilterMode {
    /// No filter active.
    Off,
    /// Filter bar visible and user is typing.
    Typing,
    /// Filter applied and bar visible, but not actively typing.
    Active,
}

// ─── Wizard Mode ─────────────────────────────────────────────────────────────

#[derive(Debug, Clone, PartialEq, Eq)]
pub enum WizardMode {
    Closed,
    NeighborCreate,
    NeighborEdit(IpAddress),
    NeighborDelete(IpAddress),
    RouteMapEdit(String),
    PrefixListEdit(String),
    CommunityListEdit(String),
}

// ─── Confirm Action ──────────────────────────────────────────────────────────

/// An action waiting for the user's confirmation; routers and projects are
/// named by their 128-bit ids.
#[derive(Debug, Clone, Copy, PartialEq, Eq, Structural)]
pub enum ConfirmAction {
    DeleteRouter(u128),
    DeleteProject(u128),
}

/// The step of a wizard popup.
#[derive(Debug, Clone, Copy, PartialEq, Eq, Structural)]
pub enum WizardStep {
    Fields,
    Review,
    Applying,
    Result(bool),
}

// ─── Active Tab ──────────────────────────────────────────────────────────────

#[derive(Debug, Clone, Copy, PartialEq, Eq, Structural)]
pub enum ActiveTab {
    Dashboard,
    Peers,
    Routes,
    Config,
    Logs,
    Routers,
    ConnLog,
}

/// The tab's place in the tab bar, from 0.
pub open spec fn tab_index(t: ActiveTab) -> nat {
    match t {
        ActiveTab::Dashboard => 0,
        ActiveTab::Peers => 1,
        ActiveTab::Routes => 2,
        ActiveTab::Config => 3,
        ActiveTab::Logs => 4,
        ActiveTab::Routers => 5,
        ActiveTab::ConnLog => 6,
    }
}

pub open spec fn tab_at(i: nat) -> ActiveTab {
    if i == 0 {
        ActiveTab::Dashboard
    } else if i == 1 {
        ActiveTab::Peers
    } else if i == 2 {
        ActiveTab::Routes
    } else if i == 3 {
        ActiveTab::Config
    } else if i == 4 {
        ActiveTab::Logs
    } else if i == 5 {
        ActiveTab::Routers
    } else {
        ActiveTab::ConnLog
    }
}

/// The tab to the right, the last one wrapping to the first.
pub open spec fn tab_next(t: ActiveTab) -> ActiveTab {
    tab_at(((tab_index(t) + 1) % 7) as nat)
}

/// The tab to the left, the first one wrapping to the last.
pub open spec fn tab_prev(t: ActiveTab) -> ActiveTab {
    tab_at(((tab_index(t) + 6) % 7) as nat)
}

pub open spec fn tab_label(t: ActiveTab) -> Seq<char> {
    match t {
        ActiveTab::Dashboard => "1 Dashboard"@,
        ActiveTab::Peers => "2 Peers"@,
        ActiveTab::Routes => "3 Routes"@,
        ActiveTab::Config => "4 Config"@,
        ActiveTab::Logs => "5 BGP Log"@,
        ActiveTab::Routers => "6 Routers"@,
        ActiveTab::ConnLog => "7 SSH Log"@,
    }
}

impl ActiveTab {
    /// The tab to the right, the last one wrapping to the first.
    pub fn next(self) -> (r: Self)
        ensures
            r == tab_next(self),
    {
        match self {
            ActiveTab::Dashboard => ActiveTab::Peers,
            ActiveTab::Peers => ActiveTab::Routes,
            ActiveTab::Routes => ActiveTab::Config,
            ActiveTab::Config => ActiveTab::Logs,
            ActiveTab::Logs => ActiveTab::Routers,
            ActiveTab::Routers => ActiveTab::ConnLog,
            ActiveTab::ConnLog => ActiveTab::Dashboard,
        }
    }

    /// The tab to the left, the first one wrapping to the last.
    pub fn prev(self) -> (r: Self)
        ensures
            r == tab_prev(self),
    {
        match self {
            ActiveTab::Dashboard => ActiveTab::ConnLog,
            ActiveTab::Peers => ActiveTab::Dashboard,
            ActiveTab::Routes => ActiveTab::Peers,
            ActiveTab::Config => ActiveTab::Routes,
            ActiveTab::Logs => ActiveTab::Config,
            ActiveTab::Routers => ActiveTab::Logs,
            ActiveTab::ConnLog => ActiveTab::Routers,
        }
    }

    pub fn label(self) -> (r: &'static str)
        ensures
            r@ == tab_label(self),
    {
        match self {
            ActiveTab::Dashboard => "1 Dashboard",
            ActiveTab::Peers => "2 Peers",
            ActiveTab::Routes => "3 Routes",
            ActiveTab::Config => "4 Config",
            ActiveTab::Logs => "5 BGP Log",
            ActiveTab::Routers => "6 Routers",
            ActiveTab::ConnLog => "7 SSH Log",
        }
    }

    /// The tab's place in the tab bar (its discriminant).
    pub fn index(self) -> (r: usize)
        ensures
            r == tab_index(self),
    {
        match self {
            ActiveTab::Dashboard => 0,
            ActiveTab::Peers => 1,
            ActiveTab::Routes => 2,
            ActiveTab::Config => 3,
            ActiveTab::Logs => 4,
            ActiveTab::Routers => 5,
            ActiveTab::ConnLog => 6,
        }
    }

    /// All tabs in tab-bar order.
    pub fn all() -> (r: Vec<ActiveTab>)
        ensures
            r.len() == 7,
            forall|i: int| 0 <= i < 7 ==> tab_index(#[trigger] r@[i]) == i,
    {
        let mut v: Vec<ActiveTab> = Vec::new();
        v.push(ActiveTab::Dashboard);
        v.push(ActiveTab::Peers);
        v.push(ActiveTab::Routes);
        v.push(ActiveTab::Config);
        v.push(ActiveTab::Logs);
        v.push(ActiveTab::Routers);
        v.push(ActiveTab::ConnLog);
        v
    }
}

/// `next` and `prev` undo each other, and seven steps either way come back
/// to the same tab.
pub proof fn law_tab_next_prev(t: ActiveTab)
    ensures
        tab_prev(tab_next(t)) == t,
        tab_next(tab_prev(t)) == t,
        tab_next(tab_next(tab_next(tab_next(tab_next(tab_next(tab_next(t))))))) == t,
{
}

} // verus!

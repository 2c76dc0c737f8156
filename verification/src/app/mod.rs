//! The decisions of the terminal front end: tabs, editor modes, router
//! records, filters, navigation and the policy editors.

pub mod filters;
pub mod list_edit;
pub mod routemap_editor;
pub mod sort;
pub mod text_list_editor;
pub mod types;
pub mod helpers;
pub mod keys;
pub mod router_form;
pub mod projects;
pub mod prompts;
pub mod neighbor_wizard;
pub mod peers;
pub mod monitor;
pub mod bgp_updates;
pub mod notices;
pub mod layout;

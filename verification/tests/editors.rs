use bgp_link_manager::app::list_edit::{EditorEffect, Key};
use bgp_link_manager::app::routemap_editor::{ClauseKind, RouteMapEditor};
use bgp_link_manager::app::text_list_editor::{CommunityListEditor, PrefixListEditor};
use bgp_link_manager::app::types::WizardStep;
use bgp_link_manager::bgp::policy::{CommunityListEntry, PrefixListEntry, RouteMapEntry};

fn cl(seq: u32, action: &str, community: &str) -> CommunityListEntry {
    CommunityListEntry { seq, action: action.into(), community: community.into() }
}

fn pl(seq: u32, prefix: &str) -> PrefixListEntry {
    PrefixListEntry { seq, action: "permit".into(), prefix: prefix.into() }
}

fn rm(seq: u32) -> RouteMapEntry {
    RouteMapEntry {
        sequence: seq,
        action: "permit".into(),
        match_clauses: vec![],
        set_clauses: vec![],
    }
}

fn typed(ed: &mut CommunityListEditor, s: &str) {
    for c in s.chars() {
        ed.handle_key(Key::Char(c));
    }
}

fn cl_seqs(ed: &CommunityListEditor) -> Vec<u32> {
    ed.entries.iter().map(|e| e.seq).collect()
}

#[test]
fn community_append_numbers_after_last() {
    let mut ed = CommunityListEditor::open("CL", vec![cl(5, "permit", "1:1"), cl(10, "deny", "1:2")]);
    assert!(ed.can_add());
    ed.handle_key(Key::Char('a'));
    assert_eq!(cl_seqs(&ed), vec![5, 10, 15]);
    assert_eq!(ed.selected, 2);
    assert_eq!(ed.entries[2].action, "permit");
    assert!(!ed.editing);
}

#[test]
fn community_append_on_empty_list() {
    let mut ed = CommunityListEditor::open("CL", vec![]);
    ed.handle_key(Key::Char('a'));
    assert_eq!(cl_seqs(&ed), vec![5]);
}

#[test]
fn community_append_skips_taken_numbers() {
    let mut ed = CommunityListEditor::open("CL", vec![cl(15, "permit", "x"), cl(10, "permit", "y")]);
    ed.handle_key(Key::Char('a'));
    assert_eq!(cl_seqs(&ed), vec![10, 15, 16]);
}

#[test]
fn community_append_that_would_overflow_is_refused_by_can_add() {
    let ed = CommunityListEditor::open("CL", vec![cl(u32::MAX - 2, "permit", "x")]);
    assert!(!ed.can_add());
}

#[test]
fn community_insert_prompt() {
    let mut ed = CommunityListEditor::open("CL", vec![cl(10, "permit", "x")]);
    ed.handle_key(Key::Char('i'));
    assert!(ed.editing);
    assert_eq!(ed.field, 100);
    typed(&mut ed, "7x");
    assert_eq!(ed.buf, "7");
    ed.handle_key(Key::Enter);
    assert_eq!(cl_seqs(&ed), vec![7, 10]);
    assert_eq!(ed.selected, 0);
    assert_eq!(ed.field, 1);
    assert_eq!(ed.buf, "permit");
    assert!(ed.error.is_none());
}

#[test]
fn community_insert_duplicate_and_invalid() {
    let mut ed = CommunityListEditor::open("CL", vec![cl(10, "permit", "x")]);
    ed.handle_key(Key::Char('i'));
    typed(&mut ed, "10");
    ed.handle_key(Key::Enter);
    assert_eq!(ed.error.as_deref(), Some("Seq 10 already exists"));
    assert_eq!(cl_seqs(&ed), vec![10]);
    ed.handle_key(Key::Backspace);
    ed.handle_key(Key::Backspace);
    ed.handle_key(Key::Enter);
    assert_eq!(ed.error.as_deref(), Some("Invalid sequence number"));
    ed.handle_key(Key::Esc);
    assert!(!ed.editing);
    assert!(ed.error.is_none());
}

#[test]
fn community_edit_fields_with_tab() {
    let mut ed = CommunityListEditor::open("CL", vec![cl(10, "permit", "1:1"), cl(20, "permit", "1:2")]);
    ed.handle_key(Key::Enter);
    assert_eq!(ed.field, 0);
    assert_eq!(ed.buf, "10");
    ed.handle_key(Key::Tab);
    assert_eq!(ed.field, 1);
    assert_eq!(ed.buf, "permit");
    ed.handle_key(Key::Char(' '));
    assert_eq!(ed.buf, "deny");
    ed.handle_key(Key::Tab);
    assert_eq!(ed.entries[0].action, "deny");
    assert_eq!(ed.field, 2);
    assert_eq!(ed.buf, "1:1");
    ed.handle_key(Key::Backspace);
    typed(&mut ed, "9");
    ed.handle_key(Key::Enter);
    assert!(!ed.editing);
    assert_eq!(ed.entries[0].community, "1:9");
}

#[test]
fn community_renumber_refuses_duplicates_and_sorts() {
    let mut ed = CommunityListEditor::open("CL", vec![cl(10, "permit", "a"), cl(20, "permit", "b")]);
    ed.handle_key(Key::Enter);
    ed.handle_key(Key::Backspace);
    ed.handle_key(Key::Backspace);
    typed(&mut ed, "20");
    ed.handle_key(Key::Enter);
    assert_eq!(ed.error.as_deref(), Some("Seq 20 already exists"));
    assert!(ed.editing);
    ed.handle_key(Key::Backspace);
    ed.handle_key(Key::Backspace);
    typed(&mut ed, "30");
    ed.handle_key(Key::Enter);
    assert!(ed.error.is_none());
    assert!(!ed.editing);
    assert_eq!(cl_seqs(&ed), vec![20, 30]);
    assert_eq!(ed.entries[1].community, "a");
}

#[test]
fn community_navigation_delete_and_toggle() {
    let mut ed = CommunityListEditor::open(
        "CL",
        vec![cl(5, "permit", "a"), cl(10, "permit", "b"), cl(15, "deny", "c")],
    );
    ed.handle_key(Key::Up);
    assert_eq!(ed.selected, 0);
    ed.handle_key(Key::Char('j'));
    ed.handle_key(Key::Down);
    ed.handle_key(Key::Down);
    assert_eq!(ed.selected, 2);
    ed.handle_key(Key::Char(' '));
    assert_eq!(ed.entries[2].action, "permit");
    ed.handle_key(Key::Char('d'));
    assert_eq!(cl_seqs(&ed), vec![5, 10]);
    assert_eq!(ed.selected, 1);
    ed.handle_key(Key::Char('k'));
    ed.handle_key(Key::Char('d'));
    ed.handle_key(Key::Char('d'));
    assert!(ed.entries.is_empty());
    assert_eq!(ed.selected, 0);
    ed.handle_key(Key::Char('d'));
    assert!(ed.entries.is_empty());
}

#[test]
fn community_preview_validates_entries() {
    let mut ed = CommunityListEditor::open("CL", vec![cl(5, "permit", "1:1"), cl(10, "permit", " ")]);
    let e = ed.handle_key(Key::Char('s'));
    assert!(matches!(e, EditorEffect::Stay));
    assert_eq!(ed.error.as_deref(), Some("Entry 2 (seq 10): Community value is required"));
    assert_eq!(ed.step, WizardStep::Fields);
    ed.entries[1].community = "1:2".into();
    let e = ed.handle_key(Key::Char('s'));
    assert!(matches!(e, EditorEffect::Preview));
    assert_eq!(ed.step, WizardStep::Review);
    assert!(ed.error.is_none());
    assert!(matches!(ed.handle_key(Key::Enter), EditorEffect::Apply));
    ed.handle_key(Key::Esc);
    assert_eq!(ed.step, WizardStep::Fields);
    assert!(matches!(ed.handle_key(Key::Esc), EditorEffect::Close));
}

#[test]
fn wizard_result_closes() {
    let mut ed = CommunityListEditor::open("CL", vec![]);
    ed.step = WizardStep::Applying;
    assert!(matches!(ed.handle_key(Key::Enter), EditorEffect::Stay));
    ed.step = WizardStep::Result(true);
    ed.error = Some("x".into());
    assert!(matches!(ed.handle_key(Key::Char('q')), EditorEffect::Stay));
    assert!(matches!(ed.handle_key(Key::Esc), EditorEffect::Close));
    assert_eq!(ed.step, WizardStep::Fields);
    assert!(ed.error.is_none());
}

#[test]
fn prefix_append_opens_prefix_field() {
    let mut ed = PrefixListEditor::open("PL", vec![pl(5, "10.0.0.0/8")]);
    ed.handle_key(Key::Char('a'));
    assert_eq!(ed.entries.iter().map(|e| e.seq).collect::<Vec<_>>(), vec![5, 10]);
    assert_eq!(ed.selected, 1);
    assert!(ed.editing);
    assert_eq!(ed.field, 2);
    assert_eq!(ed.buf, "");
}

#[test]
fn prefix_enter_walks_fields_then_sorts() {
    let mut ed = PrefixListEditor::open("PL", vec![pl(5, "10.0.0.0/8"), pl(10, "")]);
    ed.handle_key(Key::Enter);
    assert_eq!(ed.field, 0);
    assert_eq!(ed.buf, "5");
    ed.handle_key(Key::Backspace);
    ed.handle_key(Key::Char('2'));
    ed.handle_key(Key::Char('0'));
    ed.handle_key(Key::Enter);
    assert_eq!(ed.field, 1);
    assert_eq!(ed.buf, "permit");
    assert_eq!(ed.entries[0].seq, 20);
    ed.handle_key(Key::Enter);
    assert_eq!(ed.field, 2);
    assert_eq!(ed.buf, "10.0.0.0/8");
    ed.handle_key(Key::Enter);
    assert!(!ed.editing);
    assert_eq!(ed.entries.iter().map(|e| e.seq).collect::<Vec<_>>(), vec![10, 20]);
    ed.selected = 0;
    ed.handle_key(Key::Enter);
    assert_eq!(ed.field, 2);
}

#[test]
fn prefix_rename_and_insert() {
    let mut ed = PrefixListEditor::open("OLD", vec![]);
    ed.handle_key(Key::Char('N'));
    assert_eq!(ed.field, 99);
    assert_eq!(ed.buf, "OLD");
    for _ in 0..3 {
        ed.handle_key(Key::Backspace);
    }
    ed.handle_key(Key::Enter);
    assert_eq!(ed.name, "OLD");
    ed.handle_key(Key::Char('N'));
    ed.handle_key(Key::Char('2'));
    ed.handle_key(Key::Enter);
    assert_eq!(ed.name, "OLD2");
    ed.handle_key(Key::Char('i'));
    ed.handle_key(Key::Char('3'));
    ed.handle_key(Key::Enter);
    assert_eq!(ed.entries[0].seq, 3);
    assert_eq!(ed.field, 2);
    assert_eq!(ed.buf, "");
}

#[test]
fn prefix_preview_reports_first_bad_entry() {
    let mut ed = PrefixListEditor::open("PL", vec![pl(5, "10.0.0.0/8"), pl(10, "10.0.0.0/40")]);
    ed.handle_key(Key::Char('s'));
    assert_eq!(
        ed.error.as_deref(),
        Some("Entry 2 (seq 10): Prefix length 40 exceeds maximum 32")
    );
}

#[test]
fn routemap_fields_and_clause_lines() {
    let mut ed = RouteMapEditor::open("RM", vec![rm(10)]);
    ed.handle_key(Key::Enter);
    ed.handle_key(Key::Tab);
    ed.handle_key(Key::Tab);
    assert_eq!(ed.field, 2);
    assert_eq!(ed.buf, "");
    for c in "ip address prefix-list A".chars() {
        ed.handle_key(Key::Char(c));
    }
    ed.buf.push('\n');
    ed.buf.push_str("community 5");
    ed.handle_key(Key::Tab);
    assert_eq!(
        ed.entries[0].match_clauses,
        vec!["ip address prefix-list A".to_string(), "community 5".to_string()]
    );
    assert_eq!(ed.field, 3);
    ed.handle_key(Key::Tab);
    assert_eq!(ed.field, 0);
    assert_eq!(ed.buf, "10");
    ed.handle_key(Key::Tab);
    ed.handle_key(Key::Tab);
    assert_eq!(ed.buf, "ip address prefix-list A\ncommunity 5");
}

#[test]
fn routemap_append_steps_by_ten() {
    let mut ed = RouteMapEditor::open("RM", vec![rm(10), rm(20)]);
    assert!(ed.can_add());
    ed.handle_key(Key::Char('a'));
    assert_eq!(ed.entries.iter().map(|e| e.sequence).collect::<Vec<_>>(), vec![10, 20, 30]);
    assert_eq!(ed.selected, 2);
    let mut empty = RouteMapEditor::open("RM", vec![]);
    empty.handle_key(Key::Char('a'));
    assert_eq!(empty.entries[0].sequence, 10);
    empty.handle_key(Key::Char('s'));
    assert_eq!(empty.step, WizardStep::Review);
}

#[test]
fn routemap_clause_mode() {
    let mut ed = RouteMapEditor::open("RM", vec![rm(10)]);
    ed.handle_key(Key::Char('m'));
    assert!(ed.clause_mode);
    assert_eq!(ed.clause_kind, ClauseKind::Matches);
    assert_eq!(ed.clause_kind.label(), "match");
    ed.handle_key(Key::Char('a'));
    assert!(ed.clause_editing);
    assert_eq!(ed.clause_buf, "ip address prefix-list NAME");
    ed.handle_key(Key::Enter);
    assert_eq!(ed.entries[0].match_clauses, vec!["ip address prefix-list NAME".to_string()]);
    let e = ed.handle_key(Key::Char('p'));
    match e {
        EditorEffect::OpenPrefixList(n) => assert_eq!(n, "NAME"),
        _ => panic!("expected the prefix list to open"),
    }
    assert!(!ed.clause_mode);
    ed.handle_key(Key::Char('t'));
    assert_eq!(ed.clause_kind, ClauseKind::Sets);
    ed.handle_key(Key::Char('a'));
    assert_eq!(ed.clause_buf, "local-preference 100");
    ed.handle_key(Key::Backspace);
    ed.handle_key(Key::Backspace);
    ed.handle_key(Key::Backspace);
    ed.handle_key(Key::Char('2'));
    ed.handle_key(Key::Char('0'));
    ed.handle_key(Key::Char('0'));
    ed.handle_key(Key::Enter);
    assert_eq!(ed.entries[0].set_clauses, vec!["local-preference 200".to_string()]);
    ed.handle_key(Key::Char('d'));
    assert!(ed.entries[0].set_clauses.is_empty());
    assert_eq!(ed.clause_idx, 0);
    ed.handle_key(Key::Esc);
    assert!(!ed.clause_mode);
}

#[test]
fn routemap_clause_mode_needs_an_entry() {
    let mut ed = RouteMapEditor::open("RM", vec![]);
    ed.handle_key(Key::Char('m'));
    assert!(!ed.clause_mode);
}

use bgp_link_manager::bgp::naming::{generate_policy_names, sanitize_description};

#[test]
fn basic_naming() {
    let names = generate_policy_names("Transit ISP1");
    assert_eq!(names.rm_in, "RM-TRANSIT-ISP1-IN");
    assert_eq!(names.rm_out, "RM-TRANSIT-ISP1-OUT");
    assert_eq!(names.pl_in, "PL-TRANSIT-ISP1-IN");
    assert_eq!(names.pl_out, "PL-TRANSIT-ISP1-OUT");
}

#[test]
fn special_chars() {
    let names = generate_policy_names("  peer--core_01.lab  ");
    assert_eq!(names.rm_in, "RM-PEER-CORE-01-LAB-IN");
}

#[test]
fn already_upper() {
    let names = generate_policy_names("UPSTREAM-PROVIDER");
    assert_eq!(names.rm_in, "RM-UPSTREAM-PROVIDER-IN");
}

#[test]
fn sanitize_collapses_and_trims_dashes() {
    assert_eq!(sanitize_description("--a  b--"), "A-B");
    assert_eq!(sanitize_description("x"), "X");
    assert_eq!(sanitize_description(""), "");
    assert_eq!(sanitize_description("***"), "");
}

#[test]
fn sanitized_names_have_no_edge_dashes() {
    for d in ["-x-", "  a.b  ", "Über Peer", "7"] {
        let s = sanitize_description(d);
        assert!(!s.starts_with('-') && !s.ends_with('-'), "{s}");
        assert!(!s.contains("--"), "{s}");
    }
}

#[test]
fn empty_description_gives_bare_names() {
    let names = generate_policy_names("");
    assert_eq!(names.rm_in, "RM--IN");
    assert_eq!(names.pl_out, "PL--OUT");
}

#[test]
fn tag_is_capitals_digits_and_dashes_for_any_text() {
    for d in ["Ünïcode peer ß", "straße-1", "  ﬁber  link  ", "東京 ix", "a_b.c"] {
        let t = sanitize_description(d);
        assert!(t.chars().all(|c| c.is_ascii_uppercase() || c.is_ascii_digit() || c == '-'), "{t}");
        assert!(!t.starts_with('-') && !t.ends_with('-') && !t.contains("--"), "{t}");
    }
    assert_eq!(sanitize_description("straße-1"), "STRASSE-1");
}

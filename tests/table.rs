use dash_button::error::Error;
use dash_button::prefixes::{amazon_prefixes, build_prefix_table, contains_text, parse_assignment, RegistryRow, AMAZON_PREFIXES};

fn row(assignment: &str, organization: &str) -> RegistryRow {
    RegistryRow {
        registry: "MA-L".to_string(),
        assignment: assignment.to_string(),
        organization: organization.to_string(),
        address: "somewhere".to_string(),
    }
}

#[test]
fn table_keeps_only_matching_rows() {
    let rows = vec![row("AABBCC", "Amazon Technologies Inc."), row("112233", "Other Corp")];
    let t = build_prefix_table(&rows, "Amazon").unwrap();
    assert_eq!(t, vec![[0xAA, 0xBB, 0xCC]]);
}

#[test]
fn table_keeps_registry_order() {
    let rows = vec![
        row("0C47C9", "Amazon Technologies Inc."),
        row("112233", "Other Corp"),
        row("ac63be", "Amazon Technologies Inc."),
    ];
    let t = build_prefix_table(&rows, "Amazon Technologies").unwrap();
    assert_eq!(t, vec![[0x0C, 0x47, 0xC9], [0xAC, 0x63, 0xBE]]);
}

#[test]
fn table_match_is_case_sensitive() {
    let rows = vec![row("AABBCC", "amazon lowercase")];
    assert_eq!(build_prefix_table(&rows, "Amazon").unwrap(), Vec::<[u8; 3]>::new());
}

#[test]
fn table_refuses_malformed_selected_row() {
    let rows = vec![row("AABBC", "Amazon Technologies Inc.")];
    assert_eq!(build_prefix_table(&rows, "Amazon").unwrap_err(), Error::Parse);
}

#[test]
fn table_ignores_malformed_unselected_row() {
    let rows = vec![row("zz", "Other Corp"), row("AABBCC", "Amazon")];
    assert_eq!(build_prefix_table(&rows, "Amazon").unwrap(), vec![[0xAA, 0xBB, 0xCC]]);
}

#[test]
fn substring_search() {
    assert!(contains_text("Amazon Technologies Inc.", "Amazon"));
    assert!(contains_text("Big Amazon", "Amazon"));
    assert!(contains_text("abc", ""));
    assert!(!contains_text("Amazo", "Amazon"));
    assert!(!contains_text("AMAZON", "Amazon"));
}

#[test]
fn assignment_parsing() {
    assert_eq!(parse_assignment("F0272D").unwrap(), [0xF0, 0x27, 0x2D]);
    assert_eq!(parse_assignment("F0272").unwrap_err(), Error::Parse);
    assert_eq!(parse_assignment("F0272X").unwrap_err(), Error::Parse);
}

#[test]
fn built_in_table() {
    let t = amazon_prefixes();
    assert_eq!(t.len(), 22);
    assert_eq!(t.as_slice(), &AMAZON_PREFIXES[..]);
    assert!(t.contains(&[0xAC, 0x63, 0xBE]));
}

//! Change-report rendering behaviour.

use cliff::render::ChangeRecord;
use cliff::render::Marker;
use cliff::render::render_change;
use cliff::render::render_changeset;
use cliff::render::sort_changes_by_action;

fn record(action: &str, logical_id: &str, replacement: bool) -> ChangeRecord {
    ChangeRecord {
        kind: "Resource".to_string(),
        action: action.to_string(),
        resource_type: "AWS::DynamoDB::Table".to_string(),
        logical_id: logical_id.to_string(),
        physical_id: "tbl".to_string(),
        scope: vec!["Properties".to_string()],
        replacement_required: replacement,
    }
}

#[test]
fn actions_group_in_string_order() {
    let changes = vec![
        record_action("Remove", "Old"),
        record_action("Add", "New"),
        record_action("Modify", "Table"),
    ];
    let lines = render_changeset("CREATE_COMPLETE", changes);
    assert_eq!(lines.len(), 3);
    assert_eq!(lines[0].marker, Marker::Add);
    assert_eq!(lines[1].marker, Marker::Modify);
    assert_eq!(lines[2].marker, Marker::Remove);
    assert!(lines[0].text.starts_with("Add "));
    assert!(lines[1].text.starts_with("Modify "));
    assert!(lines[2].text.starts_with("Remove "));
}

fn record_action(action: &str, logical_id: &str) -> ChangeRecord {
    record(action, logical_id, false)
}

#[test]
fn sorting_is_by_action_and_keeps_records() {
    let mut v = vec![
        record_action("Remove", "a"),
        record_action("Add", "b"),
        record_action("Remove", "c"),
        record_action("Modify", "d"),
    ];
    sort_changes_by_action(&mut v);
    let actions: Vec<&str> = v.iter().map(|r| r.action.as_str()).collect();
    assert_eq!(actions, vec!["Add", "Modify", "Remove", "Remove"]);
    assert_eq!(v.len(), 4);
}

#[test]
fn replacement_is_marked() {
    let lines = render_changeset("CREATE_COMPLETE", vec![record("Modify", "Table", true)]);
    assert_eq!(lines.len(), 1);
    assert!(lines[0].replacement);
    assert!(lines[0].text.ends_with("Requires replacement"));
    let lines = render_changeset("CREATE_COMPLETE", vec![record("Modify", "Table", false)]);
    assert!(!lines[0].replacement);
    assert!(!lines[0].text.contains("Requires replacement"));
}

#[test]
fn line_text_composes_all_fields() {
    let line = render_change(&record("Add", "Table", false));
    assert_eq!(line.marker, Marker::Add);
    assert_eq!(line.text, "Add AWS::DynamoDB::Table Table tbl Properties ");
}

#[test]
fn scope_entries_join_with_commas() {
    let mut r = record("Modify", "Table", false);
    r.scope = vec!["Properties".to_string(), "Tags".to_string()];
    let line = render_change(&r);
    assert_eq!(line.text, "Modify AWS::DynamoDB::Table Table tbl Properties, Tags ");
}

#[test]
fn unknown_action_renders_plain() {
    let line = render_change(&record("Import", "Table", false));
    assert_eq!(line.marker, Marker::Plain);
}

#[test]
fn non_resource_records_fall_back_instead_of_dropping() {
    let mut r = record("Add", "Out", false);
    r.kind = "Output".to_string();
    let lines = render_changeset("CREATE_COMPLETE", vec![r]);
    assert_eq!(lines.len(), 1);
    assert_eq!(lines[0].marker, Marker::Plain);
    assert!(lines[0].text.starts_with("other Add "));
}

#[test]
fn non_success_status_is_surfaced() {
    let lines = render_changeset("FAILED", vec![record("Add", "Table", false)]);
    assert_eq!(lines.len(), 1);
    assert_eq!(lines[0].marker, Marker::Plain);
    assert_eq!(lines[0].text, "change set status is FAILED");
}

#[test]
fn add_line_precedes_remove_line() {
    let changes = vec![record_action("Remove", "Old"), record_action("Add", "New")];
    let lines = render_changeset("CREATE_COMPLETE", changes);
    assert_eq!(lines.len(), 2);
    assert_eq!(lines[0].marker, Marker::Add);
    assert_eq!(lines[1].marker, Marker::Remove);
}

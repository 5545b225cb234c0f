//! Status classification and poll-until-terminal behaviour.

use std::cell::Cell;

use cliff::error::Error;
use cliff::lifecycle::ChangeSetDescription;
use cliff::lifecycle::StatusClass;
use cliff::lifecycle::classify_status;
use cliff::lifecycle::poll_until_terminal;
use cliff::render::ChangeRecord;

fn record(action: &str, logical_id: &str) -> ChangeRecord {
    ChangeRecord {
        kind: "Resource".to_string(),
        action: action.to_string(),
        resource_type: "AWS::DynamoDB::Table".to_string(),
        logical_id: logical_id.to_string(),
        physical_id: String::new(),
        scope: Vec::new(),
        replacement_required: false,
    }
}

#[test]
fn suffix_rule_classifies_statuses() {
    assert_eq!(classify_status("CREATE_IN_PROGRESS"), StatusClass::InFlight);
    assert_eq!(classify_status("CREATE_PENDING"), StatusClass::InFlight);
    assert_eq!(classify_status("CREATE_COMPLETE"), StatusClass::Succeeded);
    assert_eq!(classify_status("DELETE_COMPLETE"), StatusClass::Succeeded);
    assert_eq!(classify_status("FAILED"), StatusClass::Failed);
    assert_eq!(classify_status(""), StatusClass::Failed);
    assert_eq!(classify_status("PROGRESS"), StatusClass::Failed);
}

#[test]
fn scripted_statuses_take_three_describes() {
    let script = ["CREATE_IN_PROGRESS", "CREATE_IN_PROGRESS", "CREATE_COMPLETE"];
    let calls = Cell::new(0u32);
    let (out, polls) = poll_until_terminal(
        |attempt: u32| -> Result<ChangeSetDescription, Error> {
            calls.set(calls.get() + 1);
            let status = script[(attempt - 1) as usize].to_string();
            let changes = if attempt == 3 {
                vec![record("Add", "Table")]
            } else {
                Vec::new()
            };
            Ok(ChangeSetDescription { status, changes })
        },
        |_d: u64| {},
        500,
        100,
    );
    assert_eq!(calls.get(), 3);
    assert_eq!(polls, 3);
    let desc = out.unwrap();
    assert_eq!(desc.status, "CREATE_COMPLETE");
    assert_eq!(desc.changes, vec![record("Add", "Table")]);
}

#[test]
fn non_success_terminal_status_is_surfaced_not_retried() {
    let calls = Cell::new(0u32);
    let (out, polls) = poll_until_terminal(
        |_attempt: u32| -> Result<ChangeSetDescription, Error> {
            calls.set(calls.get() + 1);
            Ok(ChangeSetDescription { status: "FAILED".to_string(), changes: Vec::new() })
        },
        |_d: u64| {},
        500,
        100,
    );
    assert_eq!(calls.get(), 1);
    assert_eq!(polls, 1);
    assert_eq!(out.unwrap().status, "FAILED");
}

#[test]
fn describe_failure_propagates_immediately() {
    let (out, polls) = poll_until_terminal(
        |_attempt: u32| -> Result<ChangeSetDescription, Error> {
            Err(Error::Validation("no such stack".to_string()))
        },
        |_d: u64| {},
        500,
        100,
    );
    assert_eq!(polls, 1);
    assert_eq!(out, Err(Error::Validation("no such stack".to_string())));
}

#[test]
fn exhausted_poll_budget_is_a_polling_error() {
    let calls = Cell::new(0u32);
    let (out, polls) = poll_until_terminal(
        |_attempt: u32| -> Result<ChangeSetDescription, Error> {
            calls.set(calls.get() + 1);
            Ok(ChangeSetDescription {
                status: "CREATE_IN_PROGRESS".to_string(),
                changes: Vec::new(),
            })
        },
        |_d: u64| {},
        500,
        2,
    );
    assert_eq!(calls.get(), 2);
    assert_eq!(polls, 2);
    assert!(matches!(out, Err(Error::Polling(_))));
}

#[test]
fn poll_interval_reaches_the_sleeper() {
    let slept = Cell::new(0u64);
    let script = ["CREATE_IN_PROGRESS", "CREATE_COMPLETE"];
    let (_out, polls) = poll_until_terminal(
        |attempt: u32| -> Result<ChangeSetDescription, Error> {
            Ok(ChangeSetDescription {
                status: script[(attempt - 1) as usize].to_string(),
                changes: Vec::new(),
            })
        },
        |d: u64| slept.set(slept.get() + d),
        500,
        10,
    );
    assert_eq!(polls, 2);
    assert_eq!(slept.get(), 500);
}

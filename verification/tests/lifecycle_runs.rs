//! Whole-lifecycle runs against scripted collaborators.

use std::cell::Cell;

use cliff::error::Error;
use cliff::lifecycle::CHANGESET_NAME;
use cliff::lifecycle::ChangeSetDescription;
use cliff::lifecycle::ChangeSetRequest;
use cliff::lifecycle::run_changeset_lifecycle;
use cliff::render::ChangeRecord;
use cliff::render::Marker;
use cliff::retry::RetryPolicy;

fn zero_delay_policy() -> RetryPolicy {
    RetryPolicy { initial_delay_ms: 0, max_attempts: 15, jitter: false }
}

fn add_record() -> ChangeRecord {
    ChangeRecord {
        kind: "Resource".to_string(),
        action: "Add".to_string(),
        resource_type: "AWS::SQS::Queue".to_string(),
        logical_id: "Queue".to_string(),
        physical_id: String::new(),
        scope: Vec::new(),
        replacement_required: false,
    }
}

#[test]
fn happy_path_creates_polls_renders_deletes() {
    let deleted = Cell::new(false);
    let out = run_changeset_lifecycle(
        &zero_delay_policy(),
        |_attempt: u32| -> Result<String, Error> { Ok("changeset-id".to_string()) },
        |_attempt: u32| -> Result<ChangeSetDescription, Error> {
            Ok(ChangeSetDescription {
                status: "CREATE_COMPLETE".to_string(),
                changes: vec![add_record()],
            })
        },
        || -> Result<(), Error> {
            deleted.set(true);
            Ok(())
        },
        |_d: u64| {},
        500,
        100,
    );
    assert!(deleted.get());
    assert_eq!(out.delete_error, None);
    let report = out.report.unwrap();
    assert_eq!(report.status, "CREATE_COMPLETE");
    assert_eq!(report.polls, 1);
    assert_eq!(report.lines.len(), 1);
    assert_eq!(report.lines[0].marker, Marker::Add);
}

#[test]
fn fatal_create_error_aborts_without_delete() {
    let deleted = Cell::new(false);
    let out = run_changeset_lifecycle(
        &zero_delay_policy(),
        |_attempt: u32| -> Result<String, Error> {
            Err(Error::Validation("bad template".to_string()))
        },
        |_attempt: u32| -> Result<ChangeSetDescription, Error> {
            panic!("describe must not run when create failed")
        },
        || -> Result<(), Error> {
            deleted.set(true);
            Ok(())
        },
        |_d: u64| {},
        500,
        100,
    );
    assert!(!deleted.get());
    assert_eq!(out.report, Err(Error::Validation("bad template".to_string())));
    assert_eq!(out.delete_error, None);
}

#[test]
fn create_is_retried_on_limit_exceeded() {
    let creates = Cell::new(0u32);
    let out = run_changeset_lifecycle(
        &zero_delay_policy(),
        |attempt: u32| -> Result<String, Error> {
            creates.set(creates.get() + 1);
            if attempt < 3 {
                Err(Error::LimitExceeded)
            } else {
                Ok("changeset-id".to_string())
            }
        },
        |_attempt: u32| -> Result<ChangeSetDescription, Error> {
            Ok(ChangeSetDescription { status: "FAILED".to_string(), changes: Vec::new() })
        },
        || -> Result<(), Error> { Ok(()) },
        |_d: u64| {},
        500,
        100,
    );
    assert_eq!(creates.get(), 3);
    let report = out.report.unwrap();
    assert_eq!(report.lines.len(), 1);
    assert_eq!(report.lines[0].text, "change set status is FAILED");
}

#[test]
fn delete_failure_is_reported_but_keeps_the_report() {
    let out = run_changeset_lifecycle(
        &zero_delay_policy(),
        |_attempt: u32| -> Result<String, Error> { Ok("changeset-id".to_string()) },
        |_attempt: u32| -> Result<ChangeSetDescription, Error> {
            Ok(ChangeSetDescription {
                status: "CREATE_COMPLETE".to_string(),
                changes: Vec::new(),
            })
        },
        || -> Result<(), Error> { Err(Error::Polling("delete failed".to_string())) },
        |_d: u64| {},
        500,
        100,
    );
    assert!(out.report.is_ok());
    assert_eq!(out.delete_error, Some(Error::Polling("delete failed".to_string())));
}

#[test]
fn request_carries_constant_name_and_capabilities() {
    let r = ChangeSetRequest::new(
        "my-stack".to_string(),
        "Resources: {}".to_string(),
        vec![("k".to_string(), "v".to_string())],
    );
    assert_eq!(r.stack_name, "my-stack");
    assert_eq!(r.change_set_name, CHANGESET_NAME);
    assert_eq!(r.change_set_name, "cliff");
    assert_eq!(r.template_body, "Resources: {}");
    assert_eq!(r.parameters, vec![("k".to_string(), "v".to_string())]);
    assert_eq!(
        r.capabilities,
        vec!["CAPABILITY_IAM".to_string(), "CAPABILITY_NAMED_IAM".to_string()]
    );
}

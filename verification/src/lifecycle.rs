//! The changeset lifecycle: create, poll until terminal, render, delete.
//!
//! The remote calls themselves are handed in as plain closures; the
//! library owns the sequencing, the terminal-detection rule, the polling
//! cadence and the bounded retry of the create call.

use vstd::prelude::*;
use vstd::string::StrSliceExecFns;
use vstd::string::StringExecFns;

use crate::error::Error;
use crate::render::ChangeRecord;
use crate::render::RenderedLine;
use crate::render::render_changeset;
use crate::render::render_post;
use crate::retry::RetryPolicy;
use crate::retry::retry_create_changeset;
use crate::retry::retry_if;
use crate::text::ends_with;
use crate::text::str_ends_with;

verus! {

/// The changeset name used on the remote service, fixed for the lifetime
/// of one invocation.
pub const CHANGESET_NAME: &'static str = "cliff";

/// How a changeset status string is classified by its suffix.
#[derive(Clone, Copy, Debug, PartialEq, Eq, Structural)]
pub enum StatusClass {
    /// The service is still computing the changeset.
    InFlight,
    /// The changeset reached a successful terminal status.
    Succeeded,
    /// Any other status: terminal but not a success.
    Failed,
}

/// The suffix rule: `_PROGRESS` or `_PENDING` means in-flight,
/// `_COMPLETE` means succeeded, anything else is a non-success terminal
/// status.
pub open spec fn spec_status_class(s: Seq<char>) -> StatusClass {
    if ends_with(s, "_PROGRESS"@) || ends_with(s, "_PENDING"@) {
        StatusClass::InFlight
    } else if ends_with(s, "_COMPLETE"@) {
        StatusClass::Succeeded
    } else {
        StatusClass::Failed
    }
}

/// Classify a status string by the suffix rule.
pub fn classify_status(s: &str) -> (c: StatusClass)
    ensures
        c == spec_status_class(s@),
{
    if str_ends_with(s, "_PROGRESS") || str_ends_with(s, "_PENDING") {
        StatusClass::InFlight
    } else if str_ends_with(s, "_COMPLETE") {
        StatusClass::Succeeded
    } else {
        StatusClass::Failed
    }
}

/// What one describe call reported: the status string and the change list.
#[derive(Debug, Clone, PartialEq)]
pub struct ChangeSetDescription {
    pub status: String,
    pub changes: Vec<ChangeRecord>,
}

/// The immutable input of one run: stack, fixed changeset name, template
/// body, parameters, and the capabilities the create call always passes.
#[derive(Debug, Clone, PartialEq)]
pub struct ChangeSetRequest {
    pub stack_name: String,
    pub change_set_name: String,
    pub template_body: String,
    pub parameters: Vec<(String, String)>,
    pub capabilities: Vec<String>,
}

impl ChangeSetRequest {
    /// Build the request for one run: the changeset name is the process
    /// constant and the capabilities are the two IAM capabilities.
    pub fn new(
        stack_name: String,
        template_body: String,
        parameters: Vec<(String, String)>,
    ) -> (r: ChangeSetRequest)
        ensures
            r.stack_name == stack_name,
            r.template_body == template_body,
            r.parameters == parameters,
            r.change_set_name@ == CHANGESET_NAME@,
            r.capabilities.deep_view() =~= seq!["CAPABILITY_IAM"@, "CAPABILITY_NAMED_IAM"@],
    {
        let mut capabilities: Vec<String> = Vec::new();
        capabilities.push(String::from_str("CAPABILITY_IAM"));
        capabilities.push(String::from_str("CAPABILITY_NAMED_IAM"));
        let r = ChangeSetRequest {
            stack_name,
            change_set_name: String::from_str(CHANGESET_NAME),
            template_body,
            parameters,
            capabilities,
        };
        proof {
            assert(r.capabilities.deep_view() =~= seq!["CAPABILITY_IAM"@, "CAPABILITY_NAMED_IAM"@]);
        }
        r
    }
}

/// Poll attempt `i` of `describe` can have reported an in-flight status.
pub open spec fn poll_was_in_flight<D: Fn(u32) -> Result<ChangeSetDescription, Error>>(
    describe: D,
    i: u32,
) -> bool {
    exists|d: ChangeSetDescription|
        #[trigger] call_ensures(describe, (i,), Result::<ChangeSetDescription, Error>::Ok(d))
            && spec_status_class(d.status@) == StatusClass::InFlight
}

/// Issue describe calls until the status is terminal, waiting the fixed
/// interval between polls, and report the terminal description together
/// with the number of describe calls issued.
///
/// Polling is bounded by `max_polls`; when the budget runs out while the
/// changeset is still in flight, a polling error is surfaced. A failed
/// describe call is surfaced immediately, never retried.
pub fn poll_until_terminal<D: Fn(u32) -> Result<ChangeSetDescription, Error>, S: Fn(u64)>(
    describe: D,
    sleep: S,
    poll_interval_ms: u64,
    max_polls: u32,
) -> (r: (Result<ChangeSetDescription, Error>, u32))
    requires
        max_polls >= 1,
        forall|i: u32| 1 <= i <= max_polls ==> call_requires(describe, (i,)),
        forall|d: u64| call_requires(sleep, (d,)),
    ensures
        1 <= r.1 <= max_polls,
        r.0 matches Ok(desc) ==> call_ensures(
            describe,
            (r.1,),
            Result::<ChangeSetDescription, Error>::Ok(desc),
        ) && spec_status_class(desc.status@) != StatusClass::InFlight,
        r.0 matches Err(e) ==> call_ensures(
            describe,
            (r.1,),
            Result::<ChangeSetDescription, Error>::Err(e),
        ) || (e@ matches crate::error::ErrorView::Polling(_) && r.1 == max_polls
            && poll_was_in_flight(describe, r.1)),
        forall|i: u32| 1 <= i < r.1 ==> #[trigger] poll_was_in_flight(describe, i),
{
    let mut polls: u32 = 1;
    loop
        invariant
            1 <= polls <= max_polls,
            forall|i: u32| 1 <= i <= max_polls ==> call_requires(describe, (i,)),
            forall|d: u64| call_requires(sleep, (d,)),
            forall|i: u32| 1 <= i < polls ==> #[trigger] poll_was_in_flight(describe, i),
        decreases max_polls - polls,
    {
        match describe(polls) {
            Result::Err(e) => {
                return (Result::Err(e), polls);
            },
            Result::Ok(desc) => {
                let cls = classify_status(desc.status.as_str());
                if cls == StatusClass::InFlight {
                    proof {
                        assert(call_ensures(
                            describe,
                            (polls,),
                            Result::<ChangeSetDescription, Error>::Ok(desc),
                        ));
                        assert(poll_was_in_flight(describe, polls));
                    }
                    if polls == max_polls {
                        let msg = String::from_str(
                            "changeset did not reach a terminal status within the polling budget",
                        );
                        return (Result::Err(Error::Polling(msg)), polls);
                    }
                    sleep(poll_interval_ms);
                    polls = polls + 1;
                } else {
                    return (Result::Ok(desc), polls);
                }
            },
        }
    }
}

/// The rendered outcome of one lifecycle run.
#[derive(Debug, Clone, PartialEq)]
pub struct ChangeSetReport {
    /// The terminal status the changeset reached.
    pub status: String,
    /// The rendered change report.
    pub lines: Vec<RenderedLine>,
    /// How many describe calls were issued.
    pub polls: u32,
}

/// The outcome of one lifecycle run: the report (or the error that aborted
/// the run), and the outcome of the final delete, which is reported but
/// never unwinds a report already produced.
#[derive(Debug, PartialEq)]
pub struct LifecycleOutcome {
    pub report: Result<ChangeSetReport, Error>,
    pub delete_error: Option<Error>,
}

/// Drive one changeset run: create the changeset under bounded backoff
/// (retrying on throttling and limit-exceeded), poll it to a terminal
/// status, render the change report, then delete the changeset.
///
/// The delete call is issued only after polling resolved with a terminal
/// description, never on an in-flight changeset; on the abort paths the
/// changeset is left allocated, preserving the reference behaviour.
#[verifier::rlimit(30)]
pub fn run_changeset_lifecycle<
    C: Fn(u32) -> Result<String, Error>,
    D: Fn(u32) -> Result<ChangeSetDescription, Error>,
    X: Fn() -> Result<(), Error>,
    S: Fn(u64) + Copy,
>(
    policy: &RetryPolicy,
    create: C,
    describe: D,
    delete: X,
    sleep: S,
    poll_interval_ms: u64,
    max_polls: u32,
) -> (out: LifecycleOutcome)
    requires
        policy.wf(),
        max_polls >= 1,
        forall|i: u32| 1 <= i <= policy.max_attempts ==> call_requires(create, (i,)),
        forall|i: u32| 1 <= i <= max_polls ==> call_requires(describe, (i,)),
        call_requires(delete, ()),
        forall|d: u64| call_requires(sleep, (d,)),
    ensures
        out.report matches Ok(rep) ==> 1 <= rep.polls <= max_polls && exists|
            d: ChangeSetDescription,
        |
            #[trigger] call_ensures(
                describe,
                (rep.polls,),
                Result::<ChangeSetDescription, Error>::Ok(d),
            ) && spec_status_class(d.status@) != StatusClass::InFlight && d.status@ == rep.status@
                && render_post(d.status@, d.changes@, rep.lines@),
        out.report matches Ok(rep) ==> (match out.delete_error {
            Option::None => exists|r: Result<(), Error>|
                #[trigger] call_ensures(delete, (), r) && r is Ok,
            Option::Some(de) => call_ensures(delete, (), Result::<(), Error>::Err(de)),
        }),
        out.report matches Err(e) ==> out.delete_error is None,
        out.report matches Err(e) ==> (exists|i: u32|
            1 <= i <= policy.max_attempts && #[trigger] call_ensures(
                create,
                (i,),
                Result::<String, Error>::Err(e),
            )) || (exists|i: u32|
            1 <= i <= max_polls && #[trigger] call_ensures(
                describe,
                (i,),
                Result::<ChangeSetDescription, Error>::Err(e),
            )) || (e@ matches crate::error::ErrorView::Polling(_) && poll_was_in_flight(
            describe,
            max_polls,
        )),
        ((forall|i: u32, o: Result<String, Error>| call_ensures(create, (i,), o) ==> o is Ok) && (
        forall|i: u32, o: Result<ChangeSetDescription, Error>|
            call_ensures(describe, (i,), o) ==> (o matches Ok(d) && spec_status_class(d.status@)
                != StatusClass::InFlight))) ==> out.report is Ok,
{
    let created = retry_if(policy, create, retry_create_changeset, sleep);
    match created.0 {
        Result::Err(e) => LifecycleOutcome {
            report: Result::Err(e),
            delete_error: Option::None,
        },
        Result::Ok(_changeset_id) => {
            let polled = poll_until_terminal(describe, sleep, poll_interval_ms, max_polls);
            let polls = polled.1;
            match polled.0 {
                Result::Err(e) => LifecycleOutcome {
                    report: Result::Err(e),
                    delete_error: Option::None,
                },
                Result::Ok(desc) => {
                    let ghost terminal = desc;
                    let ChangeSetDescription { status, changes } = desc;
                    let lines = render_changeset(status.as_str(), changes);
                    let deleted = delete();
                    let delete_error = match deleted {
                        Result::Ok(_) => Option::None,
                        Result::Err(de) => Option::Some(de),
                    };
                    proof {
                        assert(call_ensures(
                            describe,
                            (polls,),
                            Result::<ChangeSetDescription, Error>::Ok(terminal),
                        ));
                        assert(terminal.status@ == status@);
                        assert(render_post(terminal.status@, terminal.changes@, lines@));
                        assert(exists|d: ChangeSetDescription|
                            #[trigger] call_ensures(
                                describe,
                                (polls,),
                                Result::<ChangeSetDescription, Error>::Ok(d),
                            ) && spec_status_class(d.status@) != StatusClass::InFlight && d.status@
                                == status@ && render_post(d.status@, d.changes@, lines@));
                    }
                    LifecycleOutcome {
                        report: Result::Ok(ChangeSetReport { status, lines, polls }),
                        delete_error,
                    }
                },
            }
        },
    }
}

} // verus!

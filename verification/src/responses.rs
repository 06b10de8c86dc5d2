//! What a coordinator expects workers to respond.

use vstd::prelude::*;

use crate::error::{error, fails_with, report, ErrorReport, ErrorReportView};
use crate::model::protocol::{RuntimeWorkerResponse, RuntimeWorkerResponseView};
use crate::model::session::{
    RuntimePartitionRouteMailboxReport, RuntimePartitionWorkerActionKind,
    RuntimePartitionWorkerActionReport, RuntimePartitionWorkerHealth,
};
use crate::text::{append_decimal, decimal, same_text};

verus! {

/// The debug text of a response.
pub uninterp spec fn response_text(response: RuntimeWorkerResponseView) -> Seq<char>;

/// Renders a response with `std::fmt::Debug`.
///
/// The standard library's formatting and the derived implementation for the
/// response decide the text; it is a function of the response, and nothing more is
/// claimed of it.
#[verifier::external_body]
fn debug_response(response: &RuntimeWorkerResponse) -> (r: String)
    ensures
        r@ == response_text(response.deep_view()),
{
    format!("{:?}", response)
}

/// The report of a response, given by its text, that was not expected.
pub open spec fn unexpected_text_report(expected: Seq<char>, text: Seq<char>) -> ErrorReportView {
    report(
        "E_RUNTIME_WORKER_RESPONSE"@,
        "expected worker response "@ + expected + ", got "@ + text,
    )
}

/// The report of a response that was not expected.
pub open spec fn unexpected_report(expected: Seq<char>, response: RuntimeWorkerResponseView) -> ErrorReportView {
    unexpected_text_report(expected, response_text(response))
}

/// Reports a response, given by its text, that was not expected.
pub fn unexpected_response_text(expected: &str, text: &str) -> (r: ErrorReport)
    ensures
        r.deep_view() == unexpected_text_report(expected@, text@),
{
    let mut message = "expected worker response ".to_owned();
    message.append(expected);
    message.append(", got ");
    message.append(text);
    error("E_RUNTIME_WORKER_RESPONSE", message.as_str())
}

/// Reports a response that was not expected.
pub fn unexpected_worker_response(expected: &str, response: &RuntimeWorkerResponse) -> (r: ErrorReport)
    ensures
        r.deep_view() == unexpected_report(expected@, response.deep_view()),
{
    let text = debug_response(response);
    unexpected_response_text(expected, text.as_str())
}

/// What is wrong with a response that should be an acknowledgement.
pub open spec fn ack_problem(response: RuntimeWorkerResponseView) -> Option<ErrorReportView> {
    match response {
        RuntimeWorkerResponseView::Ack => None,
        _ => Some(unexpected_report("Ack"@, response)),
    }
}

/// Expects an acknowledgement.
pub fn expect_ack(response: RuntimeWorkerResponse) -> (r: Result<(), ErrorReport>)
    ensures
        fails_with(r, ack_problem(response.deep_view())),
{
    match &response {
        RuntimeWorkerResponse::Ack => Ok(()),
        _ => Err(unexpected_worker_response("Ack", &response)),
    }
}

/// The name of a structural step.
pub open spec fn action_text(kind: RuntimePartitionWorkerActionKind) -> Seq<char> {
    match kind {
        RuntimePartitionWorkerActionKind::EvalCombinational => "EvalCombinational"@,
        RuntimePartitionWorkerActionKind::Tick => "Tick"@,
        RuntimePartitionWorkerActionKind::TickMany(steps) => "TickMany("@ + decimal(steps as nat)
            + ")"@,
    }
}

fn append_action(message: &mut String, kind: RuntimePartitionWorkerActionKind)
    ensures
        final(message)@ == old(message)@ + action_text(kind),
{
    let ghost before = message@;
    match kind {
        RuntimePartitionWorkerActionKind::EvalCombinational => {
            message.append("EvalCombinational");
        },
        RuntimePartitionWorkerActionKind::Tick => {
            message.append("Tick");
        },
        RuntimePartitionWorkerActionKind::TickMany(steps) => {
            message.append("TickMany(");
            append_decimal(message, steps as u64);
            message.append(")");
            proof {
                assert(message@ =~= before + action_text(kind));
            }
        },
    }
}

/// What is wrong with a response that should report a structural step.
pub open spec fn action_response_problem(
    worker: Seq<char>,
    kind: RuntimePartitionWorkerActionKind,
    response: RuntimeWorkerResponseView,
) -> Option<ErrorReportView> {
    match response {
        RuntimeWorkerResponseView::PartitionWorkerAction(found) => if found.worker_id != worker
            || found.kind != kind {
            Some(
                report(
                    "E_RUNTIME_PARTITION_SESSION_ACTION"@,
                    "partition worker action report for `"@ + found.worker_id + "`/"@ + action_text(
                        found.kind,
                    ) + " does not match expected `"@ + worker + "`/"@ + action_text(kind),
                ),
            )
        } else {
            None
        },
        _ => Some(unexpected_report("PartitionWorkerAction"@, response)),
    }
}

/// Expects the report of a structural step of a worker.
pub fn expect_partition_worker_action(
    expected_worker_id: &str,
    expected_kind: RuntimePartitionWorkerActionKind,
    response: RuntimeWorkerResponse,
) -> (r: Result<RuntimePartitionWorkerActionReport, ErrorReport>)
    ensures
        fails_with(
            r,
            action_response_problem(expected_worker_id@, expected_kind, response.deep_view()),
        ),
        r matches Ok(report) ==> response.deep_view()
            == RuntimeWorkerResponseView::PartitionWorkerAction(report.deep_view()),
{
    match response {
        RuntimeWorkerResponse::PartitionWorkerAction(report) => {
            if !same_text(report.worker_id.as_str(), expected_worker_id) || report.kind
                != expected_kind {
                let mut message = "partition worker action report for `".to_owned();
                message.append(report.worker_id.as_str());
                message.append("`/");
                append_action(&mut message, report.kind);
                message.append(" does not match expected `");
                message.append(expected_worker_id);
                message.append("`/");
                append_action(&mut message, expected_kind);
                return Err(error("E_RUNTIME_PARTITION_SESSION_ACTION", message.as_str()));
            }
            Ok(report)
        },
        other => Err(unexpected_worker_response("PartitionWorkerAction", &other)),
    }
}

/// What is wrong with a response that should report mailboxes.
pub open spec fn mailbox_response_problem(
    worker: Seq<char>,
    response: RuntimeWorkerResponseView,
) -> Option<ErrorReportView> {
    match response {
        RuntimeWorkerResponseView::PartitionRouteMailbox(found) => if found.worker_id != worker {
            Some(
                report(
                    "E_RUNTIME_PARTITION_ROUTE_MAILBOX"@,
                    "partition route mailbox report for `"@ + found.worker_id
                        + "` does not match expected `"@ + worker + "`"@,
                ),
            )
        } else {
            None
        },
        _ => Some(unexpected_report("PartitionRouteMailbox"@, response)),
    }
}

/// Expects the mailboxes of a worker.
pub fn expect_partition_route_mailbox(
    expected_worker_id: &str,
    response: RuntimeWorkerResponse,
) -> (r: Result<RuntimePartitionRouteMailboxReport, ErrorReport>)
    ensures
        fails_with(r, mailbox_response_problem(expected_worker_id@, response.deep_view())),
        r matches Ok(report) ==> response.deep_view()
            == RuntimeWorkerResponseView::PartitionRouteMailbox(report.deep_view()),
{
    match response {
        RuntimeWorkerResponse::PartitionRouteMailbox(report) => {
            if !same_text(report.worker_id.as_str(), expected_worker_id) {
                let mut message = "partition route mailbox report for `".to_owned();
                message.append(report.worker_id.as_str());
                message.append("` does not match expected `");
                message.append(expected_worker_id);
                message.append("`");
                return Err(error("E_RUNTIME_PARTITION_ROUTE_MAILBOX", message.as_str()));
            }
            Ok(report)
        },
        other => Err(unexpected_worker_response("PartitionRouteMailbox", &other)),
    }
}

/// What is wrong with a response that should report the health of a partition
/// worker.
pub open spec fn health_response_problem(
    worker: Seq<char>,
    response: RuntimeWorkerResponseView,
) -> Option<ErrorReportView> {
    match response {
        RuntimeWorkerResponseView::PartitionWorkerHealth(found) => if found.worker_id != worker {
            Some(
                report(
                    "E_RUNTIME_PARTITION_DEPLOY_WORKER"@,
                    "partition worker health for `"@ + found.worker_id
                        + "` was returned for expected worker `"@ + worker + "`"@,
                ),
            )
        } else {
            None
        },
        _ => Some(unexpected_report("PartitionWorkerHealth"@, response)),
    }
}

/// Expects the health of a partition worker.
pub fn expect_partition_worker_health(
    expected_worker_id: &str,
    response: RuntimeWorkerResponse,
) -> (r: Result<RuntimePartitionWorkerHealth, ErrorReport>)
    ensures
        fails_with(r, health_response_problem(expected_worker_id@, response.deep_view())),
        r matches Ok(health) ==> response.deep_view()
            == RuntimeWorkerResponseView::PartitionWorkerHealth(health.deep_view()),
{
    match response {
        RuntimeWorkerResponse::PartitionWorkerHealth(health) => {
            if !same_text(health.worker_id.as_str(), expected_worker_id) {
                let mut message = "partition worker health for `".to_owned();
                message.append(health.worker_id.as_str());
                message.append("` was returned for expected worker `");
                message.append(expected_worker_id);
                message.append("`");
                return Err(error("E_RUNTIME_PARTITION_DEPLOY_WORKER", message.as_str()));
            }
            Ok(health)
        },
        other => Err(unexpected_worker_response("PartitionWorkerHealth", &other)),
    }
}

} // verus!

//! Failures to read or write the documents of the runtime.

use vstd::prelude::*;

use crate::error::{error, report, ErrorReport};

verus! {

/// A kind of document.
#[derive(Clone, Copy, Debug, PartialEq, Eq, Structural)]
pub enum RuntimeDocument {
    Checkpoint,
    Telemetry,
    PartitionPlan,
    PartitionPlacement,
    PartitionCommunication,
    PartitionBundle,
    PartitionLaunch,
    PartitionSessionTelemetry,
    SurrogateAttachment,
}

/// What the codes of a kind of document begin with.
pub open spec fn document_code(document: RuntimeDocument) -> Seq<char> {
    match document {
        RuntimeDocument::Checkpoint => "E_RUNTIME_CHECKPOINT"@,
        RuntimeDocument::Telemetry => "E_RUNTIME_TELEMETRY"@,
        RuntimeDocument::PartitionPlan => "E_RUNTIME_PARTITION_PLAN"@,
        RuntimeDocument::PartitionPlacement => "E_RUNTIME_PARTITION_PLACEMENT"@,
        RuntimeDocument::PartitionCommunication => "E_RUNTIME_PARTITION_COMMUNICATION"@,
        RuntimeDocument::PartitionBundle => "E_RUNTIME_PARTITION_BUNDLE"@,
        RuntimeDocument::PartitionLaunch => "E_RUNTIME_PARTITION_LAUNCH"@,
        RuntimeDocument::PartitionSessionTelemetry => "E_RUNTIME_PARTITION_SESSION_TELEMETRY"@,
        RuntimeDocument::SurrogateAttachment => "E_RUNTIME_SURROGATE_ATTACHMENT"@,
    }
}

/// What a kind of document is called.
pub open spec fn document_name(document: RuntimeDocument) -> Seq<char> {
    match document {
        RuntimeDocument::Checkpoint => "runtime checkpoint"@,
        RuntimeDocument::Telemetry => "runtime telemetry"@,
        RuntimeDocument::PartitionPlan => "runtime partition plan"@,
        RuntimeDocument::PartitionPlacement => "runtime partition placement"@,
        RuntimeDocument::PartitionCommunication => "runtime partition communication"@,
        RuntimeDocument::PartitionBundle => "runtime partition bundle"@,
        RuntimeDocument::PartitionLaunch => "runtime partition launch"@,
        RuntimeDocument::PartitionSessionTelemetry => "runtime partition session telemetry"@,
        RuntimeDocument::SurrogateAttachment => "runtime surrogate attachment"@,
    }
}

fn code_of(document: RuntimeDocument) -> (r: String)
    ensures
        r@ == document_code(document),
{
    let code = match document {
        RuntimeDocument::Checkpoint => "E_RUNTIME_CHECKPOINT",
        RuntimeDocument::Telemetry => "E_RUNTIME_TELEMETRY",
        RuntimeDocument::PartitionPlan => "E_RUNTIME_PARTITION_PLAN",
        RuntimeDocument::PartitionPlacement => "E_RUNTIME_PARTITION_PLACEMENT",
        RuntimeDocument::PartitionCommunication => "E_RUNTIME_PARTITION_COMMUNICATION",
        RuntimeDocument::PartitionBundle => "E_RUNTIME_PARTITION_BUNDLE",
        RuntimeDocument::PartitionLaunch => "E_RUNTIME_PARTITION_LAUNCH",
        RuntimeDocument::PartitionSessionTelemetry => "E_RUNTIME_PARTITION_SESSION_TELEMETRY",
        RuntimeDocument::SurrogateAttachment => "E_RUNTIME_SURROGATE_ATTACHMENT",
    };
    code.to_owned()
}

fn name_of(document: RuntimeDocument) -> (r: String)
    ensures
        r@ == document_name(document),
{
    let name = match document {
        RuntimeDocument::Checkpoint => "runtime checkpoint",
        RuntimeDocument::Telemetry => "runtime telemetry",
        RuntimeDocument::PartitionPlan => "runtime partition plan",
        RuntimeDocument::PartitionPlacement => "runtime partition placement",
        RuntimeDocument::PartitionCommunication => "runtime partition communication",
        RuntimeDocument::PartitionBundle => "runtime partition bundle",
        RuntimeDocument::PartitionLaunch => "runtime partition launch",
        RuntimeDocument::PartitionSessionTelemetry => "runtime partition session telemetry",
        RuntimeDocument::SurrogateAttachment => "runtime surrogate attachment",
    };
    name.to_owned()
}

/// Reports that a document could not be read or written.
pub fn document_io_error(document: RuntimeDocument, text: &str) -> (r: ErrorReport)
    ensures
        r.deep_view() == report(
            document_code(document) + "_IO"@,
            document_name(document) + " I/O error: "@ + text@,
        ),
{
    let mut code = code_of(document);
    code.append("_IO");
    let mut message = name_of(document);
    message.append(" I/O error: ");
    message.append(text);
    error(code.as_str(), message.as_str())
}

/// Reports that a document could not be parsed or rendered.
pub fn document_json_error(document: RuntimeDocument, text: &str) -> (r: ErrorReport)
    ensures
        r.deep_view() == report(
            document_code(document) + "_JSON"@,
            document_name(document) + " JSON error: "@ + text@,
        ),
{
    let mut code = code_of(document);
    code.append("_JSON");
    let mut message = name_of(document);
    message.append(" JSON error: ");
    message.append(text);
    error(code.as_str(), message.as_str())
}

} // verus!

//! Format versions of the documents that the runtime stores and exchanges.

use vstd::prelude::*;

use crate::error::{error, fails_with, report, ErrorReport, ErrorReportView};
use crate::model::communication::{
    RUNTIME_PARTITION_COMMUNICATION_FORMAT_VERSION, RuntimePartitionCommunicationPlan,
};
use crate::model::launch::{
    RUNTIME_PARTITION_BUNDLE_FORMAT_VERSION, RUNTIME_PARTITION_LAUNCH_FORMAT_VERSION, RuntimePartitionBundle, RuntimePartitionLaunchPlan,
};
use crate::model::partition::{
    RUNTIME_PARTITION_PLAN_FORMAT_VERSION, RuntimePartitionPlan,
};
use crate::model::placement::{
    RUNTIME_PARTITION_PLACEMENT_FORMAT_VERSION, RuntimePartitionPlacementPlan,
};
use crate::model::runtime::{
    RUNTIME_CHECKPOINT_FORMAT_VERSION, RUNTIME_TELEMETRY_FORMAT_VERSION, RuntimeCheckpoint, TcpRuntimeSupervisorTelemetry,
};
use crate::model::session::{
    RUNTIME_PARTITION_SESSION_TELEMETRY_FORMAT_VERSION, RuntimePartitionSessionTelemetry,
};
use crate::model::surrogate::{
    RUNTIME_SURROGATE_ATTACHMENT_FORMAT_VERSION, RuntimeSurrogateAttachment,
};
use crate::text::{append_decimal, decimal};

verus! {

/// A document of another version than the expected one is refused.
pub open spec fn version_problem(
    code: Seq<char>,
    document: Seq<char>,
    found: u32,
    expected: u32,
) -> Option<ErrorReportView> {
    if found != expected {
        Some(
            report(
                code,
                "unsupported runtime "@ + document + " format version "@ + decimal(found as nat)
                    + ", expected "@ + decimal(expected as nat),
            ),
        )
    } else {
        None
    }
}

fn check_version(code: &str, document: &str, found: u32, expected: u32) -> (r: Result<
    (),
    ErrorReport,
>)
    ensures
        fails_with(r, version_problem(code@, document@, found, expected)),
{
    if found != expected {
        let mut message = "unsupported runtime ".to_owned();
        message.append(document);
        message.append(" format version ");
        append_decimal(&mut message, found as u64);
        message.append(", expected ");
        append_decimal(&mut message, expected as u64);
        return Err(error(code, message.as_str()));
    }
    Ok(())
}

/// What is wrong with the version of a surrogate attachment.
pub open spec fn surrogate_attachment_version_problem(found: u32) -> Option<ErrorReportView> {
    version_problem("E_RUNTIME_SURROGATE_ATTACHMENT_VERSION"@, "surrogate attachment"@, found, RUNTIME_SURROGATE_ATTACHMENT_FORMAT_VERSION)
}

impl RuntimeSurrogateAttachment {
    /// Checks the format version.
    pub fn validate_format_version(&self) -> (r: Result<(), ErrorReport>)
        ensures
            fails_with(r, surrogate_attachment_version_problem(self.format_version)),
    {
        check_version(
            "E_RUNTIME_SURROGATE_ATTACHMENT_VERSION",
            "surrogate attachment",
            self.format_version,
            RUNTIME_SURROGATE_ATTACHMENT_FORMAT_VERSION,
        )
    }
}

/// What is wrong with the version of a telemetry.
pub open spec fn supervisor_telemetry_version_problem(found: u32) -> Option<ErrorReportView> {
    version_problem("E_RUNTIME_TELEMETRY_VERSION"@, "telemetry"@, found, RUNTIME_TELEMETRY_FORMAT_VERSION)
}

impl TcpRuntimeSupervisorTelemetry {
    /// Checks the format version.
    pub fn validate_format_version(&self) -> (r: Result<(), ErrorReport>)
        ensures
            fails_with(r, supervisor_telemetry_version_problem(self.format_version)),
    {
        check_version(
            "E_RUNTIME_TELEMETRY_VERSION",
            "telemetry",
            self.format_version,
            RUNTIME_TELEMETRY_FORMAT_VERSION,
        )
    }
}

/// What is wrong with the version of a partition plan.
pub open spec fn partition_plan_version_problem(found: u32) -> Option<ErrorReportView> {
    version_problem("E_RUNTIME_PARTITION_PLAN_VERSION"@, "partition plan"@, found, RUNTIME_PARTITION_PLAN_FORMAT_VERSION)
}

impl RuntimePartitionPlan {
    /// Checks the format version.
    pub fn validate_format_version(&self) -> (r: Result<(), ErrorReport>)
        ensures
            fails_with(r, partition_plan_version_problem(self.format_version)),
    {
        check_version(
            "E_RUNTIME_PARTITION_PLAN_VERSION",
            "partition plan",
            self.format_version,
            RUNTIME_PARTITION_PLAN_FORMAT_VERSION,
        )
    }
}

/// What is wrong with the version of a partition placement.
pub open spec fn partition_placement_plan_version_problem(found: u32) -> Option<ErrorReportView> {
    version_problem("E_RUNTIME_PARTITION_PLACEMENT_VERSION"@, "partition placement"@, found, RUNTIME_PARTITION_PLACEMENT_FORMAT_VERSION)
}

impl RuntimePartitionPlacementPlan {
    /// Checks the format version.
    pub fn validate_format_version(&self) -> (r: Result<(), ErrorReport>)
        ensures
            fails_with(r, partition_placement_plan_version_problem(self.format_version)),
    {
        check_version(
            "E_RUNTIME_PARTITION_PLACEMENT_VERSION",
            "partition placement",
            self.format_version,
            RUNTIME_PARTITION_PLACEMENT_FORMAT_VERSION,
        )
    }
}

/// What is wrong with the version of a partition communication.
pub open spec fn partition_communication_plan_version_problem(found: u32) -> Option<ErrorReportView> {
    version_problem("E_RUNTIME_PARTITION_COMMUNICATION_VERSION"@, "partition communication"@, found, RUNTIME_PARTITION_COMMUNICATION_FORMAT_VERSION)
}

impl RuntimePartitionCommunicationPlan {
    /// Checks the format version.
    pub fn validate_format_version(&self) -> (r: Result<(), ErrorReport>)
        ensures
            fails_with(r, partition_communication_plan_version_problem(self.format_version)),
    {
        check_version(
            "E_RUNTIME_PARTITION_COMMUNICATION_VERSION",
            "partition communication",
            self.format_version,
            RUNTIME_PARTITION_COMMUNICATION_FORMAT_VERSION,
        )
    }
}

/// What is wrong with the version of a partition bundle.
pub open spec fn partition_bundle_version_problem(found: u32) -> Option<ErrorReportView> {
    version_problem("E_RUNTIME_PARTITION_BUNDLE_VERSION"@, "partition bundle"@, found, RUNTIME_PARTITION_BUNDLE_FORMAT_VERSION)
}

impl RuntimePartitionBundle {
    /// Checks the format version.
    pub fn validate_format_version(&self) -> (r: Result<(), ErrorReport>)
        ensures
            fails_with(r, partition_bundle_version_problem(self.format_version)),
    {
        check_version(
            "E_RUNTIME_PARTITION_BUNDLE_VERSION",
            "partition bundle",
            self.format_version,
            RUNTIME_PARTITION_BUNDLE_FORMAT_VERSION,
        )
    }
}

/// What is wrong with the version of a partition launch.
pub open spec fn partition_launch_plan_version_problem(found: u32) -> Option<ErrorReportView> {
    version_problem("E_RUNTIME_PARTITION_LAUNCH_VERSION"@, "partition launch"@, found, RUNTIME_PARTITION_LAUNCH_FORMAT_VERSION)
}

impl RuntimePartitionLaunchPlan {
    /// Checks the format version.
    pub fn validate_format_version(&self) -> (r: Result<(), ErrorReport>)
        ensures
            fails_with(r, partition_launch_plan_version_problem(self.format_version)),
    {
        check_version(
            "E_RUNTIME_PARTITION_LAUNCH_VERSION",
            "partition launch",
            self.format_version,
            RUNTIME_PARTITION_LAUNCH_FORMAT_VERSION,
        )
    }
}

/// What is wrong with the version of a partition session telemetry.
pub open spec fn partition_session_telemetry_version_problem(found: u32) -> Option<ErrorReportView> {
    version_problem("E_RUNTIME_PARTITION_SESSION_TELEMETRY_VERSION"@, "partition session telemetry"@, found, RUNTIME_PARTITION_SESSION_TELEMETRY_FORMAT_VERSION)
}

impl RuntimePartitionSessionTelemetry {
    /// Checks the format version.
    pub fn validate_format_version(&self) -> (r: Result<(), ErrorReport>)
        ensures
            fails_with(r, partition_session_telemetry_version_problem(self.format_version)),
    {
        check_version(
            "E_RUNTIME_PARTITION_SESSION_TELEMETRY_VERSION",
            "partition session telemetry",
            self.format_version,
            RUNTIME_PARTITION_SESSION_TELEMETRY_FORMAT_VERSION,
        )
    }
}

/// What is wrong with the version of a checkpoint.
pub open spec fn checkpoint_version_problem(found: u32) -> Option<ErrorReportView> {
    version_problem("E_RUNTIME_CHECKPOINT_VERSION"@, "checkpoint"@, found, RUNTIME_CHECKPOINT_FORMAT_VERSION)
}

impl RuntimeCheckpoint {
    /// Checks the format version.
    pub fn validate_format_version(&self) -> (r: Result<(), ErrorReport>)
        ensures
            fails_with(r, checkpoint_version_problem(self.format_version)),
    {
        check_version(
            "E_RUNTIME_CHECKPOINT_VERSION",
            "checkpoint",
            self.format_version,
            RUNTIME_CHECKPOINT_FORMAT_VERSION,
        )
    }
}

} // verus!

//! The views of records: each holds what the field of its name holds.

use vstd::prelude::*;

use crate::adapter::ResumeCommand;
use crate::events::{EventContext, ShellEvidence, ShellQuery};
use crate::message::{ChatMessage, ToolArguments, ToolCall, UsageMetrics};
use crate::scan::{
    InventoryIssue, LiveRows, ReconcilePlan, ReconcilePlanView, StoreSnapshot, StoredSession,
    SyncScanStats,
};
use crate::session::SessionContent;
use crate::store::{MessageNode, SessionRow};
use crate::types::{FileEvidence, ParentLink, RawMessage, RawSessionEvent, RawUsageEvent};

verus! {

/// The view of a `RawMessage` holds its fields.
pub proof fn law_view_of_raw_message(record: RawMessage)
    ensures
        record.deep_view().role == record.role,
        record.deep_view().content == record.content@,
        record.deep_view().timestamp == record.timestamp,
{
}

/// The view of a `RawUsageEvent` holds its fields.
pub proof fn law_view_of_raw_usage_event(record: RawUsageEvent)
    ensures
        record.deep_view().event_key == record.event_key@,
        record.deep_view().event_seq == record.event_seq,
        record.deep_view().timestamp == record.timestamp,
        record.deep_view().parser_version == record.parser_version,
        record.deep_view().message_seq == record.message_seq,
        record.deep_view().model == record.model@,
        record.deep_view().provider == record.provider@,
        record.deep_view().input_tokens == record.input_tokens,
        record.deep_view().output_tokens == record.output_tokens,
        record.deep_view().cache_read_tokens == record.cache_read_tokens,
        record.deep_view().cache_write_tokens == record.cache_write_tokens,
        record.deep_view().source_path == record.source_path.deep_view(),
        record.deep_view().raw_usage_json == record.raw_usage_json.deep_view(),
{
}

/// The view of a `FileEvidence` holds its fields.
pub proof fn law_view_of_file_evidence(record: FileEvidence)
    ensures
        record.deep_view().path == record.path@,
        record.deep_view().operation == record.operation,
        record.deep_view().cwd == record.cwd.deep_view(),
{
}

/// The view of a `RawSessionEvent` holds its fields.
pub proof fn law_view_of_raw_session_event(record: RawSessionEvent)
    ensures
        record.deep_view().event_seq == record.event_seq,
        record.deep_view().timestamp == record.timestamp,
        record.deep_view().kind == record.kind@,
        record.deep_view().name == record.name.deep_view(),
        record.deep_view().tool_call_id == record.tool_call_id.deep_view(),
        record.deep_view().target == record.target.deep_view(),
        record.deep_view().arguments == record.arguments.deep_view(),
        record.deep_view().summary == record.summary.deep_view(),
        record.deep_view().status == record.status.deep_view(),
        record.deep_view().files == record.files.deep_view(),
        record.deep_view().command_evidence_status == record.command_evidence_status.deep_view(),
        record.deep_view().source_path == record.source_path.deep_view(),
        record.deep_view().source_event_id == record.source_event_id.deep_view(),
        record.deep_view().message_seq == record.message_seq,
        record.deep_view().parser_version == record.parser_version,
{
}

/// The view of a `ParentLink` holds its fields.
pub proof fn law_view_of_parent_link(record: ParentLink)
    ensures
        record.deep_view().relation == record.relation,
        record.deep_view().source == record.source@,
        record.deep_view().source_id == record.source_id@,
{
}

/// The view of a `SessionRow` holds its fields.
pub proof fn law_view_of_session_row(record: SessionRow)
    ensures
        record.deep_view().id == record.id@,
        record.deep_view().working_directory == record.working_directory@,
        record.deep_view().title == record.title.deep_view(),
        record.deep_view().model == record.model.deep_view(),
        record.deep_view().backend_type == record.backend_type.deep_view(),
        record.deep_view().created_at == record.created_at,
        record.deep_view().last_activity_at == record.last_activity_at,
        record.deep_view().hidden == record.hidden,
{
}

/// The view of a `MessageNode` holds its fields.
pub proof fn law_view_of_message_node(record: MessageNode)
    ensures
        record.deep_view().node_id == record.node_id,
        record.deep_view().parent_node_id == record.parent_node_id,
        record.deep_view().chat_message == record.chat_message@,
        record.deep_view().dedupe_key == record.dedupe_key@,
        record.deep_view().created_at == record.created_at,
{
}

/// The view of a `EventContext` holds its fields.
pub proof fn law_view_of_event_context(record: EventContext)
    ensures
        record.deep_view().event_seq == record.event_seq,
        record.deep_view().timestamp == record.timestamp,
        record.deep_view().source_path == record.source_path.deep_view(),
        record.deep_view().source_event_id == record.source_event_id.deep_view(),
        record.deep_view().message_seq == record.message_seq,
        record.deep_view().parser_version == record.parser_version,
{
}

/// The view of a `ShellQuery` holds its fields.
pub proof fn law_view_of_shell_query(record: ShellQuery)
    ensures
        record.deep_view().command == record.command@,
        record.deep_view().cwd == record.cwd.deep_view(),
{
}

/// The view of a `ShellEvidence` holds its fields.
pub proof fn law_view_of_shell_evidence(record: ShellEvidence)
    ensures
        record.deep_view().files == record.files.deep_view(),
        record.deep_view().status == record.status@,
{
}

/// The view of a `ToolArguments` holds its fields.
pub proof fn law_view_of_tool_arguments(record: ToolArguments)
    ensures
        record.deep_view().file_path == record.file_path.deep_view(),
        record.deep_view().notebook_path == record.notebook_path.deep_view(),
        record.deep_view().command == record.command.deep_view(),
        record.deep_view().workdir == record.workdir.deep_view(),
        record.deep_view().json == record.json@,
{
}

/// The view of a `ToolCall` holds its fields.
pub proof fn law_view_of_tool_call(record: ToolCall)
    ensures
        record.deep_view().id == record.id.deep_view(),
        record.deep_view().name == record.name.deep_view(),
        record.deep_view().arguments == record.arguments.deep_view(),
{
}

/// The view of a `UsageMetrics` holds its fields.
pub proof fn law_view_of_usage_metrics(record: UsageMetrics)
    ensures
        record.deep_view().input_tokens == record.input_tokens,
        record.deep_view().output_tokens == record.output_tokens,
        record.deep_view().cache_read_tokens == record.cache_read_tokens,
        record.deep_view().cache_creation_tokens == record.cache_creation_tokens,
        record.deep_view().json == record.json@,
{
}

/// The view of a `ChatMessage` holds its fields.
pub proof fn law_view_of_chat_message(record: ChatMessage)
    ensures
        record.deep_view().role == record.role@,
        record.deep_view().content == record.content@,
        record.deep_view().is_user_input == record.is_user_input,
        record.deep_view().tool_calls == record.tool_calls.deep_view(),
        record.deep_view().metrics == record.metrics.deep_view(),
        record.deep_view().tool_call_id == record.tool_call_id.deep_view(),
        record.deep_view().success == record.success,
{
}

/// The view of a `InventoryIssue` holds its fields.
pub proof fn law_view_of_inventory_issue(record: InventoryIssue)
    ensures
        record.deep_view().path == record.path,
        record.deep_view().category == record.category,
{
}

/// The view of a `SyncScanStats` holds its fields.
pub proof fn law_view_of_sync_scan_stats(record: SyncScanStats)
    ensures
        record.deep_view().candidates == record.candidates,
        record.deep_view().filtered_sessions == record.filtered_sessions,
        record.deep_view().skipped_sessions == record.skipped_sessions,
        record.deep_view().parsed == record.parsed,
{
}

/// The view of a `LiveRows` holds its fields.
pub proof fn law_view_of_live_rows(record: LiveRows)
    ensures
        record.deep_view().sessions == record.sessions.deep_view(),
        record.deep_view().subagents == record.subagents.deep_view(),
{
}

/// The view of a `SessionContent` holds its fields.
pub proof fn law_view_of_session_content(record: SessionContent)
    ensures
        record.deep_view().nodes == record.nodes.deep_view(),
        record.deep_view().heads == record.heads.deep_view(),
{
}

/// The view of a `StoredSession` holds its fields.
pub proof fn law_view_of_stored_session(record: StoredSession)
    ensures
        record.deep_view().row == record.row.deep_view(),
        record.deep_view().content == record.content.deep_view(),
{
}

/// The view of a `StoreSnapshot` holds its fields.
pub proof fn law_view_of_store_snapshot(record: StoreSnapshot)
    ensures
        record.deep_view().db_path == record.db_path,
        record.deep_view().has_sessions == record.has_sessions,
        record.deep_view().has_message_nodes == record.has_message_nodes,
        record.deep_view().live == record.live.deep_view(),
        record.deep_view().sessions == record.sessions.deep_view(),
{
}

/// The view of a `ResumeCommand` holds its fields.
pub proof fn law_view_of_resume_command(record: ResumeCommand)
    ensures
        record.deep_view().program == record.program@,
        record.deep_view().args == record.args.deep_view(),
{
}

/// The view of a `ReconcilePlan` is of the same kind, and holds what the plan holds.
pub proof fn law_view_of_reconcile_plan(plan: ReconcilePlan)
    ensures
        match plan {
            ReconcilePlan::CompleteLiveSet(live) => plan.deep_view()
                == ReconcilePlanView::CompleteLiveSet(live.deep_view()),
            ReconcilePlan::PartialInventory(issues) => plan.deep_view()
                == ReconcilePlanView::PartialInventory(issues.deep_view()),
            ReconcilePlan::UnavailableInventory(issues) => plan.deep_view()
                == ReconcilePlanView::UnavailableInventory(issues.deep_view()),
        },
{
}

} // verus!

use std::path::{Path, PathBuf};

use devin_sessions::adapter::{resolve_db_path_from, DevinAdapter};
use devin_sessions::events::{ShellEvidence, ShellQuery};
use devin_sessions::scan::{
    scan_devin, LiveRows, ReconcilePlan, StoreSnapshot, StoredSession, SyncScanOutput,
};
use devin_sessions::session::SessionContent;
use devin_sessions::store::{
    seconds_to_ms, MessageNode, SessionRow, EVENT_PARSER_VERSION, METADATA_PARSER_VERSION,
    USAGE_PARSER_VERSION,
};
use devin_sessions::sync::{AdapterSyncContext, ParserState};
use devin_sessions::types::{FileEvidence, FileOperation, ThreadRole};

/// An analysis that knows one command, `git restore -- <path>`.
fn shell(query: &ShellQuery) -> ShellEvidence {
    match query.command.strip_prefix("git restore -- ") {
        Some(path) => ShellEvidence {
            files: vec![FileEvidence {
                path: path.to_string(),
                operation: FileOperation::Write,
                cwd: query.cwd.clone(),
            }],
            status: "complete".to_string(),
        },
        None => ShellEvidence { files: vec![], status: "unknown".to_string() },
    }
}

/// A store as the scan reads it.
struct Db {
    sessions: Vec<StoredSession>,
}

impl Db {
    fn new() -> Db {
        Db { sessions: vec![] }
    }

    fn insert_session(&mut self, id: &str, hidden: i64) {
        self.sessions.push(StoredSession {
            row: SessionRow {
                id: id.to_string(),
                working_directory: "/repo".to_string(),
                title: Some("seed title".to_string()),
                model: Some("swe-2-max".to_string()),
                backend_type: Some("windsurf".to_string()),
                created_at: 1788279318,
                last_activity_at: 1788279401,
                hidden,
            },
            content: Some(SessionContent { nodes: vec![], heads: vec![] }),
        });
    }

    fn content(&mut self, id: &str) -> &mut SessionContent {
        let session = self.sessions.iter_mut().find(|s| s.row.id == id).unwrap();
        session.content.as_mut().unwrap()
    }

    fn insert_node(
        &mut self,
        session_id: &str,
        node_id: i64,
        parent_node_id: Option<i64>,
        dedupe_key: &str,
        chat_message: &str,
        created_at: i64,
    ) {
        self.content(session_id).nodes.push(MessageNode {
            node_id,
            parent_node_id,
            chat_message: chat_message.to_string(),
            dedupe_key: dedupe_key.to_string(),
            created_at,
        });
    }

    fn insert_head(&mut self, session_id: &str, agent_id: &str, node_id: i64) {
        self.content(session_id).heads.push((agent_id.to_string(), node_id));
    }

    fn read(self) -> StoreSnapshot {
        let visible: Vec<&StoredSession> =
            self.sessions.iter().filter(|s| s.row.hidden == 0).collect();
        let live = LiveRows {
            sessions: visible.iter().map(|s| Some(s.row.id.clone())).collect(),
            subagents: Some(
                visible
                    .iter()
                    .flat_map(|s| {
                        s.content
                            .as_ref()
                            .unwrap()
                            .heads
                            .iter()
                            .map(|(agent, _)| Some(format!("{}:{agent}", s.row.id)))
                    })
                    .collect(),
            ),
        };
        StoreSnapshot {
            db_path: PathBuf::from("/tmp/sessions.db"),
            has_sessions: true,
            has_message_nodes: true,
            live: Some(live),
            sessions: Some(self.sessions),
        }
    }
}

fn user_message(id: &str, content: &str) -> String {
    format!(
        r#"{{"message_id":"{id}","role":"user","content":"{content}","metadata":{{"is_user_input":true}}}}"#
    )
}

fn scan(db: Db) -> SyncScanOutput {
    scan_devin(Some(&db.read()), None, None, true, false, &shell)
}

fn live(output: &SyncScanOutput, id: &str) -> bool {
    match &output.reconcile {
        Some(ReconcilePlan::CompleteLiveSet(live)) => live.iter().any(|l| l == id),
        _ => panic!("no complete live set"),
    }
}

#[test]
fn resume_uses_official_flag_and_strips_subagent_suffix() {
    let command = DevinAdapter.resume_command("oxidized-sardine").unwrap();
    assert_eq!(command.program, "devin");
    assert_eq!(command.args, vec!["--resume", "oxidized-sardine"]);
    let sub = DevinAdapter.resume_command("oxidized-sardine:agent-1").unwrap();
    assert_eq!(sub.args, vec!["--resume", "oxidized-sardine"]);
}

#[test]
fn start_command_uses_dash_dash_separator() {
    let command = DevinAdapter.start_command("fix the tests".to_string()).unwrap();
    assert_eq!(command.program, "devin");
    assert_eq!(command.args, vec!["--", "fix the tests"]);
}

#[test]
fn db_path_prefers_xdg_then_home() {
    let home = Path::new("/tmp/home");
    let resolved = resolve_db_path_from(None, Some(home.to_path_buf())).unwrap();
    assert_eq!(resolved, home.join(".local/share/devin/cli/sessions.db"));
    let resolved =
        resolve_db_path_from(Some("/tmp/xdg".to_string()), Some(PathBuf::from("/unused"))).unwrap();
    assert_eq!(resolved, PathBuf::from("/tmp/xdg/devin/cli/sessions.db"));
}

#[test]
fn seconds_are_converted_to_milliseconds() {
    assert_eq!(seconds_to_ms(1788279318), 1_788_279_318_000);
    assert_eq!(seconds_to_ms(1_788_279_318_000), 1_788_279_318_000);
}

#[test]
fn scan_dedupes_replayed_context_and_filters_internal_prompts() {
    let mut db = Db::new();
    db.insert_session("ses-1", 0);
    let user = user_message("u1", "fix the tests");
    let assistant = r#"{"message_id":"a1","role":"assistant","content":"done",
        "metadata":{"metrics":{"input_tokens":10,"output_tokens":5}}}"#;
    let internal =
        r#"{"message_id":"i1","role":"user","content":"Conversation to summarize: ..."}"#;
    db.insert_node("ses-1", 0, None, "u1", &user, 1788279318);
    db.insert_node("ses-1", 1, Some(0), "a1", assistant, 1788279320);
    db.insert_node("ses-1", 2, Some(1), "i1", internal, 1788279321);
    // Rebuilt tree for the next turn replays the same message ids.
    db.insert_node("ses-1", 10, None, "u1", &user, 1788279390);
    db.insert_node("ses-1", 11, Some(10), "a1", assistant, 1788279391);
    let next = user_message("u2", "now lint it");
    db.insert_node("ses-1", 12, Some(11), "u2", &next, 1788279400);
    // A malformed node is skipped, not fatal.
    db.insert_node("ses-1", 13, Some(12), "node:13", "not json", 1788279401);

    let result = scan(db);
    assert_eq!(result.scan.sessions.len(), 1);
    let raw = &result.scan.sessions[0];
    assert_eq!(raw.source_id, "ses-1");
    assert_eq!(raw.custom_title.as_deref(), Some("seed title"));
    assert_eq!(raw.directory.as_deref(), Some("/repo"));
    assert_eq!(raw.started_at, 1_788_279_318_000);
    assert_eq!(raw.updated_at, Some(1_788_279_401_000));
    let contents: Vec<_> =
        raw.messages.iter().map(|m| (m.role.as_str(), m.content.as_str())).collect();
    assert_eq!(
        contents,
        [("user", "fix the tests"), ("assistant", "done"), ("user", "now lint it")]
    );
    assert_eq!(raw.usage_events.len(), 1);
    assert_eq!(raw.usage_events[0].input_tokens, 10);
    assert_eq!(raw.usage_events[0].output_tokens, 5);
    assert_eq!(raw.usage_events[0].model, "swe-2-max");
    assert_eq!(raw.usage_events[0].provider, "windsurf");
    assert!(live(&result, "ses-1"));
}

#[test]
fn scan_emits_tool_events_and_file_evidence() {
    let mut db = Db::new();
    db.insert_session("ses-1", 0);
    let call = r#"{"message_id":"a1","role":"assistant","content":"","tool_calls":[
        {"id":"call-1","name":"edit","arguments":
            {"file_path":"/repo/a.rs","old_string":"x","new_string":"y"},"kind":"function"},
        {"id":"call-2","name":"exec","arguments":
            {"command":"git restore -- src/lib.rs","workdir":"/repo/sub"},"kind":"function"}]}"#;
    let result_msg = r#"{"message_id":"t1","role":"tool","content":"applied",
        "tool_call_id":"call-1",
        "metadata":{"extensions":{"chisel/tool_result_meta":{"success":false}}}}"#;
    db.insert_node("ses-1", 0, None, "a1", call, 1788279320);
    db.insert_node("ses-1", 1, Some(0), "t1", result_msg, 1788279325);

    let result = scan(db);
    let raw = &result.scan.sessions[0];
    assert_eq!(raw.events.len(), 3);
    assert_eq!(raw.events[0].kind, "file_write");
    assert_eq!(raw.events[0].target.as_deref(), Some("/repo/a.rs"));
    assert_eq!(raw.events[0].files[0].operation, FileOperation::Write);
    assert_eq!(raw.events[1].kind, "command");
    assert_eq!(raw.events[1].target.as_deref(), Some("git restore -- src/lib.rs"));
    assert_eq!(raw.events[1].files[0].path, "src/lib.rs");
    assert_eq!(raw.events[1].files[0].cwd.as_deref(), Some("/repo/sub"));
    assert_eq!(raw.events[2].kind, "tool_result");
    assert_eq!(raw.events[2].name.as_deref(), Some("edit"));
    assert_eq!(raw.events[2].tool_call_id.as_deref(), Some("call-1"));
    assert_eq!(raw.events[2].status.as_deref(), Some("error"));
}

#[test]
fn hidden_and_empty_sessions_are_skipped_and_tombstoned() {
    let mut db = Db::new();
    db.insert_session("hidden", 1);
    db.insert_session("empty", 0);
    let system = r#"{"message_id":"s1","role":"system","content":"prompt"}"#;
    db.insert_node("empty", 0, None, "s1", system, 1788279318);

    let result = scan(db);
    assert!(result.scan.sessions.is_empty());
    assert_eq!(result.scan.stats.candidates, 2);
    assert_eq!(result.scan.stats.filtered_sessions, 2);
    assert!(live(&result, "empty") && !live(&result, "hidden"));
}

#[test]
fn subagent_chains_become_linked_sessions() {
    let mut db = Db::new();
    db.insert_session("ses-1", 0);
    let main = user_message("u1", "run the subagent");
    db.insert_node("ses-1", 0, None, "u1", &main, 1788279318);
    let prompt = r#"{"message_id":"ss1","role":"system","content":"subagent prompt"}"#;
    db.insert_node("ses-1", 5, None, "ss1", prompt, 1788279330);
    let task = user_message("su1", "explore the code");
    db.insert_node("ses-1", 6, Some(5), "su1", &task, 1788279331);
    db.insert_head("ses-1", "explore-1", 6);

    let result = scan(db);
    assert_eq!(result.scan.sessions.len(), 2);
    let main = result.scan.sessions.iter().find(|s| s.source_id == "ses-1").unwrap();
    assert_eq!(main.messages.len(), 1);
    assert_eq!(main.messages[0].content, "run the subagent");
    let sub = result.scan.sessions.iter().find(|s| s.source_id == "ses-1:explore-1").unwrap();
    assert_eq!(sub.thread_role, Some(ThreadRole::Subagent));
    assert_eq!(sub.parent_links[0].source_id, "ses-1");
    assert_eq!(sub.messages.len(), 1);
    assert_eq!(sub.messages[0].content, "explore the code");
    assert!(live(&result, "ses-1") && live(&result, "ses-1:explore-1"));
}

#[test]
fn targeted_refresh_reaches_subagent_sessions() {
    let mut db = Db::new();
    db.insert_session("ses-1", 0);
    db.insert_node("ses-1", 0, None, "u1", &user_message("u1", "main"), 1788279318);
    db.insert_node("ses-1", 5, None, "su1", &user_message("su1", "sub task"), 1788279331);
    db.insert_head("ses-1", "explore-1", 5);
    let store = db.read();

    for (target, expected) in [
        ("ses-1", vec!["ses-1"]),
        ("ses-1:explore-1", vec!["ses-1:explore-1"]),
        ("missing", vec![]),
    ] {
        let context = AdapterSyncContext::new().restricted_to(target.to_string());
        let result = scan_devin(Some(&store), Some(&context), None, true, false, &shell);
        let ids: Vec<_> = result.scan.sessions.iter().map(|s| s.source_id.as_str()).collect();
        assert_eq!(ids, expected, "target {target}");
    }
}

#[test]
fn incremental_scan_skips_current_sessions() {
    let mut db = Db::new();
    db.insert_session("ses-1", 0);
    db.insert_node("ses-1", 0, None, "u1", &user_message("u1", "hello"), 1788279318);
    let store = db.read();

    let updated_at = Some(1_788_279_401_000);
    let mut context = AdapterSyncContext::new();
    context.record_session("ses-1".to_string(), updated_at);
    context.record_usage_state(
        "ses-1".to_string(),
        ParserState { parser_version: USAGE_PARSER_VERSION, updated_at },
    );
    context.record_event_state(
        "ses-1".to_string(),
        ParserState { parser_version: EVENT_PARSER_VERSION, updated_at },
    );
    context.record_metadata_state(
        "ses-1".to_string(),
        ParserState { parser_version: METADATA_PARSER_VERSION, updated_at },
    );

    let result = scan_devin(Some(&store), Some(&context), None, true, false, &shell);
    assert!(result.scan.sessions.is_empty());
    assert_eq!(result.scan.stats.skipped_sessions, 1);

    // Force reprocesses even when the session state is current.
    let forced = scan_devin(Some(&store), Some(&context), None, true, true, &shell);
    assert_eq!(forced.scan.sessions.len(), 1);
}

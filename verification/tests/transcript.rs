use devin_sessions::events::{
    choose_directory, parse_tool_call, EventContext, ShellEvidence, ShellQuery,
};
use devin_sessions::message::{parse_message, read_message, ChatMessage, ToolCall};
use devin_sessions::parse::{
    malformed_nodes, parse_nodes, usage_event, ParsedNodes, Scope, Transcript,
};
use devin_sessions::store::{MessageNode, SessionRow};
use devin_sessions::types::{FileEvidence, FileOperation, RawSessionEvent, Role};

/// An analysis that reports what it was asked.
fn echo(query: &ShellQuery) -> ShellEvidence {
    ShellEvidence {
        files: vec![FileEvidence {
            path: query.command.clone(),
            operation: FileOperation::Read,
            cwd: query.cwd.clone(),
        }],
        status: "asked".to_string(),
    }
}

fn session() -> SessionRow {
    SessionRow {
        id: "ses-1".to_string(),
        working_directory: "/repo".to_string(),
        title: None,
        model: Some("  swe-2  ".to_string()),
        backend_type: Some(" \t ".to_string()),
        created_at: 100,
        last_activity_at: 200,
        hidden: 0,
    }
}

fn node(node_id: i64, key: &str, chat_message: &str) -> MessageNode {
    MessageNode {
        node_id,
        parent_node_id: None,
        chat_message: chat_message.to_string(),
        dedupe_key: key.to_string(),
        created_at: 1_700_000_000,
    }
}

fn parse(nodes: &[&MessageNode], include_events: bool) -> ParsedNodes {
    parse_nodes(nodes, &session(), "/repo", Some("/tmp/sessions.db"), include_events, &echo)
}

fn said(parsed: &ParsedNodes) -> Vec<(&str, &str)> {
    parsed.messages.iter().map(|m| (m.role.as_str(), m.content.as_str())).collect()
}

const TYPED: &str = r#"{"role":"user","content":"hi","metadata":{"is_user_input":true}}"#;
const ANSWER: &str = r#"{"role":"assistant","content":"hello","metadata":{"metrics":
    {"output_tokens":5,"input_tokens":10,"note":"x"}}}"#;
const CALLS: &str = r#"{"role":"assistant","content":"","tool_calls":[
    {"id":"c1","name":"read","arguments":{"file_path":"/a"}},
    {"id":"c2","name":""},
    {"id":"","name":"list"}]}"#;

#[test]
fn text_that_is_no_json_is_no_message() {
    assert_eq!(parse_message("not json"), None);
    assert_eq!(parse_message("{} {}"), None);
    assert_eq!(parse_message(""), None);
}

#[test]
fn members_of_another_type_count_as_missing() {
    let message = parse_message(
        r#"{"role":1,"content":["x"],"tool_calls":{"0":{}},"tool_call_id":7,
            "metadata":{"is_user_input":"yes","extensions":{"chisel/tool_result_meta":[true]}}}"#,
    )
    .unwrap();
    assert_eq!(
        message,
        ChatMessage {
            role: String::new(),
            content: String::new(),
            is_user_input: None,
            tool_calls: vec![],
            metrics: None,
            tool_call_id: None,
            success: None,
        }
    );
    assert_eq!(parse_message("[1, 2]").unwrap(), message);
    assert_eq!(read_message(&serde_json::Value::Null), message);
}

#[test]
fn metrics_keep_their_compact_json() {
    let message = parse_message(ANSWER).unwrap();
    let metrics = message.metrics.unwrap();
    assert_eq!(metrics.json, r#"{"input_tokens":10,"note":"x","output_tokens":5}"#);
    assert_eq!(metrics.input_tokens, Some(10));
    assert_eq!(metrics.output_tokens, Some(5));
    assert_eq!(metrics.cache_read_tokens, None);
}

#[test]
fn metrics_that_are_no_integers_count_as_missing() {
    let message = parse_message(
        r#"{"metadata":{"metrics":{"input_tokens":1.5,"output_tokens":"3",
            "cache_read_tokens":9223372036854775807,
            "cache_creation_tokens":9223372036854775808}}}"#,
    )
    .unwrap();
    let metrics = message.metrics.unwrap();
    assert_eq!(metrics.input_tokens, None);
    assert_eq!(metrics.output_tokens, None);
    assert_eq!(metrics.cache_read_tokens, Some(i64::MAX));
    assert_eq!(metrics.cache_creation_tokens, None);
}

#[test]
fn usage_is_reported_with_the_session_it_belongs_to() {
    let message = parse_message(ANSWER).unwrap();
    let usage =
        usage_event("k", 3, 77, Some(2), &message, &session(), Some("/tmp/sessions.db")).unwrap();
    assert_eq!(usage.event_key, "message:k");
    assert_eq!(usage.event_seq, 3);
    assert_eq!(usage.timestamp, 77);
    assert_eq!(usage.parser_version, 1);
    assert_eq!(usage.message_seq, Some(2));
    assert_eq!(usage.model, "swe-2");
    assert_eq!(usage.provider, "devin");
    assert_eq!(usage.input_tokens, 10);
    assert_eq!(usage.output_tokens, 5);
    assert_eq!(usage.cache_read_tokens, 0);
    assert_eq!(usage.cache_write_tokens, 0);
    assert_eq!(usage.source_path.as_deref(), Some("/tmp/sessions.db"));
    assert_eq!(
        usage.raw_usage_json.as_deref(),
        Some(r#"{"input_tokens":10,"note":"x","output_tokens":5}"#)
    );
}

#[test]
fn usage_of_no_tokens_is_none() {
    for text in [
        r#"{"metadata":{}}"#,
        r#"{"metadata":{"metrics":{}}}"#,
        r#"{"metadata":{"metrics":null}}"#,
        r#"{"metadata":{"metrics":{"input_tokens":0,"output_tokens":-4}}}"#,
    ] {
        let message = parse_message(text).unwrap();
        assert_eq!(usage_event("k", 0, 0, None, &message, &session(), None), None, "{text}");
    }
}

#[test]
fn usage_counts_negative_reports_as_zero_and_large_ones_as_they_are() {
    let message = parse_message(
        r#"{"metadata":{"metrics":{"input_tokens":-5,"cache_read_tokens":9223372036854775807,
            "cache_creation_tokens":9223372036854775807}}}"#,
    )
    .unwrap();
    let mut row = session();
    row.model = None;
    row.backend_type = Some("cloud".to_string());
    let usage = usage_event("k", 0, 0, None, &message, &row, None).unwrap();
    assert_eq!(usage.input_tokens, 0);
    assert_eq!(usage.cache_read_tokens, i64::MAX);
    assert_eq!(usage.cache_write_tokens, i64::MAX);
    assert_eq!(usage.model, "unknown");
    assert_eq!(usage.provider, "cloud");
    assert_eq!(usage.source_path, None);
}

fn event_of(call: &str, directory: &str) -> RawSessionEvent {
    let text = format!(r#"{{"tool_calls":[{call}]}}"#);
    let message = parse_message(&text).unwrap();
    let call: &ToolCall = &message.tool_calls[0];
    let context = EventContext {
        event_seq: 4,
        timestamp: Some(9),
        source_path: Some("/db".to_string()),
        source_event_id: Some("e".to_string()),
        message_seq: Some(1),
        parser_version: 1,
    };
    parse_tool_call(call, call.name.as_deref().unwrap(), context, directory, &echo).unwrap()
}

#[test]
fn a_call_of_another_tool_stays_a_tool_call() {
    let event = event_of(r#"{"id":"c","name":"list","arguments":{"b":1,"a":[true,null]}}"#, "/r");
    assert_eq!(
        event,
        RawSessionEvent {
            event_seq: 4,
            timestamp: Some(9),
            kind: "tool_call".to_string(),
            name: Some("list".to_string()),
            tool_call_id: Some("c".to_string()),
            target: None,
            arguments: Some(r#"{"a":[true,null],"b":1}"#.to_string()),
            summary: None,
            status: None,
            files: vec![],
            command_evidence_status: None,
            source_path: Some("/db".to_string()),
            source_event_id: Some("e".to_string()),
            message_seq: Some(1),
            parser_version: 1,
        }
    );
}

#[test]
fn file_tools_read_and_write_their_file() {
    for (name, argument, kind, operation) in [
        ("read", "file_path", "file_read", FileOperation::Read),
        ("write", "file_path", "file_write", FileOperation::Write),
        ("edit", "file_path", "file_write", FileOperation::Write),
        ("notebook_edit", "notebook_path", "file_write", FileOperation::Write),
    ] {
        let event =
            event_of(&format!(r#"{{"name":"{name}","arguments":{{"{argument}":"x.rs"}}}}"#), "rel");
        assert_eq!(event.kind, kind);
        assert_eq!(event.target.as_deref(), Some("x.rs"));
        assert_eq!(
            event.files,
            vec![FileEvidence {
                path: "x.rs".to_string(),
                operation,
                cwd: Some("rel".to_string()),
            }]
        );
        assert_eq!(event.command_evidence_status, None);
        assert_eq!(event.tool_call_id, None);
    }
}

#[test]
fn a_file_tool_without_a_file_stays_a_tool_call() {
    for call in [
        r#"{"name":"read","arguments":{"file_path":"  "}}"#,
        r#"{"name":"read","arguments":{"notebook_path":"x"}}"#,
        r#"{"name":"notebook_edit","arguments":{"file_path":"x"}}"#,
        r#"{"name":"write"}"#,
        r#"{"name":"edit","arguments":"x"}"#,
    ] {
        let event = event_of(call, "/r");
        assert_eq!(event.kind, "tool_call", "{call}");
        assert_eq!(event.target, None);
        assert!(event.files.is_empty());
    }
}

#[test]
fn a_command_runs_in_the_first_absolute_directory() {
    for (arguments, directory, cwd) in [
        (r#"{"command":"ls","workdir":"/w","cwd":"/c"}"#, "/r", Some("/w")),
        (r#"{"command":"ls","cwd":"/c"}"#, "/r", Some("/c")),
        (r#"{"command":"ls","workdir":"w","cwd":"/c"}"#, "/r", Some("/r")),
        (r#"{"command":"ls","workdir":7,"cwd":"/c"}"#, "/r", Some("/r")),
        (r#"{"command":"ls"}"#, "/r", Some("/r")),
        (r#"{"command":"ls","workdir":"w"}"#, "r", None),
        (r#"{"command":"ls"}"#, "", None),
    ] {
        let event = event_of(&format!(r#"{{"name":"exec","arguments":{arguments}}}"#), directory);
        assert_eq!(event.kind, "command");
        assert_eq!(event.target.as_deref(), Some("ls"));
        assert_eq!(event.command_evidence_status.as_deref(), Some("asked"));
        assert_eq!(event.files[0].path, "ls");
        assert_eq!(event.files[0].cwd.as_deref(), cwd, "{arguments} in {directory}");
    }
}

#[test]
fn a_blank_command_is_not_asked_about() {
    for call in [r#"{"name":"exec","arguments":{"command":" \n"}}"#, r#"{"name":"exec"}"#] {
        let event = event_of(call, "/r");
        assert_eq!(event.kind, "command");
        assert_eq!(event.target, None);
        assert_eq!(event.command_evidence_status, None);
        assert!(event.files.is_empty());
    }
}

#[test]
fn only_typed_user_messages_and_spoken_assistant_messages_count() {
    let typed = node(1, "a", TYPED);
    let internal = node(2, "b", r#"{"role":"user","content":"internal"}"#);
    let denied =
        node(3, "c", r#"{"role":"user","content":"no","metadata":{"is_user_input":false}}"#);
    let blank =
        node(4, "d", r#"{"role":"user","content":" ","metadata":{"is_user_input":true}}"#);
    let answer = node(5, "e", ANSWER);
    let silent = node(6, "f", r#"{"role":"assistant","content":"\t"}"#);
    let system = node(7, "g", r#"{"role":"system","content":"prompt"}"#);
    let parsed = parse(&[&typed, &internal, &denied, &blank, &answer, &silent, &system], true);
    assert_eq!(said(&parsed), [("user", "hi"), ("assistant", "hello")]);
    assert_eq!(parsed.messages[0].role, Role::User);
    assert_eq!(parsed.messages[0].timestamp, Some(1_700_000_000_000));
    assert_eq!(parsed.usage_events.len(), 1);
    assert_eq!(parsed.usage_events[0].message_seq, Some(1));
    assert!(parsed.events.is_empty());
}

#[test]
fn usage_before_any_message_has_no_message() {
    let silent =
        node(1, "a", r#"{"role":"assistant","metadata":{"metrics":{"output_tokens":1}}}"#);
    let parsed = parse(&[&silent], true);
    assert!(parsed.messages.is_empty());
    assert_eq!(parsed.usage_events[0].message_seq, None);
    assert_eq!(parsed.usage_events[0].event_seq, 0);
}

#[test]
fn replayed_nodes_change_nothing() {
    let typed = node(1, "a", TYPED);
    let calls = node(2, "b", CALLS);
    let answer = node(3, "c", ANSWER);
    let replayed = node(11, "a", r#"{"role":"user","content":"other","metadata":{"is_user_input":true}}"#);
    let recalled = node(12, "b", CALLS);
    let once = parse(&[&typed, &calls, &answer], true);
    let again = parse(&[&typed, &calls, &replayed, &answer, &recalled], true);
    assert_eq!(once, again);
}

#[test]
fn a_malformed_node_uses_up_its_key() {
    let broken = node(1, "a", "{");
    let typed = node(2, "a", TYPED);
    assert!(parse(&[&broken, &typed], true).messages.is_empty());
    assert_eq!(parse(&[&typed, &broken], true).messages.len(), 1);
}

#[test]
fn events_are_numbered_and_have_ids_of_their_own() {
    let first = node(-5, "a", CALLS);
    let result = node(6, "b", r#"{"role":"tool","content":"ok","tool_call_id":"c1"}"#);
    let second = node(7, "c", CALLS);
    let parsed = parse(&[&first, &result, &second], true);
    let ids: Vec<_> =
        parsed.events.iter().map(|e| (e.event_seq, e.source_event_id.as_deref().unwrap())).collect();
    assert_eq!(
        ids,
        [
            (0, "nodes:-5:tool_calls:0"),
            (1, "nodes:-5:tool_calls:2"),
            (2, "nodes:6"),
            (3, "nodes:7:tool_calls:0"),
            (4, "nodes:7:tool_calls:2"),
        ]
    );
    assert!(parsed.events.iter().all(|e| e.parser_version == 1 && e.message_seq.is_none()));
}

#[test]
fn results_are_named_after_the_call_they_answer() {
    let calls = node(1, "a", CALLS);
    let named = node(
        2,
        "b",
        r#"{"role":"tool","content":"text","tool_call_id":"c1","metadata":
            {"extensions":{"chisel/tool_result_meta":{"success":true}}}}"#,
    );
    let unnamed = node(3, "c", r#"{"role":"tool","content":" ","tool_call_id":"c2"}"#);
    let loose = node(4, "d", r#"{"role":"tool","content":"x","tool_call_id":""}"#);
    let parsed = parse(&[&calls, &named, &unnamed, &loose], true);
    let results = &parsed.events[2..];
    assert!(results.iter().all(|e| e.kind == "tool_result"));
    assert_eq!(results[0].name.as_deref(), Some("read"));
    assert_eq!(results[0].summary.as_deref(), Some("text"));
    assert_eq!(results[0].status.as_deref(), Some("success"));
    assert_eq!(results[0].tool_call_id.as_deref(), Some("c1"));
    assert_eq!(results[1].name, None);
    assert_eq!(results[1].summary, None);
    assert_eq!(results[1].status, None);
    assert_eq!(results[1].tool_call_id.as_deref(), Some("c2"));
    assert_eq!(results[2].name, None);
    assert_eq!(results[2].tool_call_id, None);
}

#[test]
fn a_result_before_its_call_has_no_name() {
    let result = node(1, "a", r#"{"role":"tool","content":"x","tool_call_id":"c1"}"#);
    let calls = node(2, "b", CALLS);
    let parsed = parse(&[&result, &calls], true);
    assert_eq!(parsed.events[0].kind, "tool_result");
    assert_eq!(parsed.events[0].name, None);
}

#[test]
fn events_can_be_left_out_without_changing_the_rest() {
    let typed = node(1, "a", TYPED);
    let calls = node(2, "b", CALLS);
    let answer = node(3, "c", ANSWER);
    let result = node(4, "d", r#"{"role":"tool","content":"ok","tool_call_id":"c1"}"#);
    let nodes = [&typed, &calls, &answer, &result];
    let with = parse(&nodes, true);
    let without = parse(&nodes, false);
    assert_eq!(with.messages, without.messages);
    assert_eq!(with.usage_events, without.usage_events);
    assert_eq!(with.events.len(), 3);
    assert!(without.events.is_empty());
}

#[test]
fn a_reading_can_be_carried_on_message_by_message() {
    let row = session();
    let scope = Scope { session: &row, directory: "/repo", db_path: None, include_events: true };
    let mut reading = Transcript::new();
    let message = ChatMessage {
        role: "user".to_string(),
        content: "typed".to_string(),
        is_user_input: Some(true),
        tool_calls: vec![],
        metrics: None,
        tool_call_id: None,
        success: None,
    };
    reading.take_message(&node(1, "a", ""), &message, &scope, &echo);
    reading.take_node(&node(2, "b", ANSWER), &scope, &echo);
    assert_eq!(said(&reading.parsed), [("user", "typed"), ("assistant", "hello")]);
    assert_eq!(reading.parsed.usage_events[0].event_key, "message:b");
}

#[test]
fn usage_is_counted_once_for_each_key() {
    let answer = node(1, "a", ANSWER);
    let replayed = node(2, "a", ANSWER);
    let other = node(3, "b", ANSWER);
    let parsed = parse(&[&answer, &replayed, &other], true);
    let keys: Vec<_> = parsed.usage_events.iter().map(|u| u.event_key.as_str()).collect();
    assert_eq!(keys, ["message:a", "message:b"]);
    assert_eq!(said(&parsed), [("assistant", "hello"), ("assistant", "hello")]);
}

#[test]
fn malformed_nodes_are_listed_once_for_each_key() {
    let broken = node(1, "a", "{");
    let typed = node(2, "b", TYPED);
    let replayed = node(3, "a", "not json");
    let hidden = node(4, "b", "not json");
    let other = node(-5, "c", "");
    assert_eq!(malformed_nodes(&[&broken, &typed, &replayed, &hidden, &other]), [1, -5]);
    assert_eq!(malformed_nodes(&[&typed]), Vec::<i64>::new());
    assert_eq!(malformed_nodes(&[]), Vec::<i64>::new());
}

#[test]
fn text_nested_past_the_limit_is_malformed() {
    let deep = format!("{}{}", "[".repeat(200), "]".repeat(200));
    assert_eq!(malformed_nodes(&[&node(1, "a", &deep)]), [1]);
    let shallow = format!("{}{}", "[".repeat(100), "]".repeat(100));
    assert!(malformed_nodes(&[&node(1, "a", &shallow)]).is_empty());
}

#[test]
fn the_directory_of_a_command_is_chosen_by_which_are_absolute() {
    for (workdir, workdir_is_absolute, directory_is_absolute, chosen) in [
        (Some("w"), true, true, Some("w")),
        (Some("w"), true, false, Some("w")),
        (Some("w"), false, true, Some("d")),
        (Some("w"), false, false, None),
        (None, true, true, Some("d")),
        (None, true, false, None),
    ] {
        let directory =
            choose_directory(workdir, workdir_is_absolute, "d", directory_is_absolute);
        assert_eq!(directory.as_deref(), chosen);
    }
}

#[test]
fn results_are_named_after_the_latest_call() {
    let call = |name: &str| {
        format!(r#"{{"role":"assistant","tool_calls":[{{"id":"c","name":"{name}"}}]}}"#)
    };
    let result = r#"{"role":"tool","content":"x","tool_call_id":"c"}"#;
    let nodes = [
        node(1, "a", &call("first")),
        node(2, "b", result),
        node(3, "c", &call("second")),
        node(4, "d", result),
    ];
    let parsed = parse(&[&nodes[0], &nodes[1], &nodes[2], &nodes[3]], true);
    let names: Vec<_> = parsed.events.iter().map(|e| e.name.as_deref().unwrap()).collect();
    assert_eq!(names, ["first", "first", "second", "second"]);
}

#[test]
fn later_nodes_change_nothing_and_events_name_the_last_message() {
    let nodes = [node(1, "a", TYPED), node(2, "b", CALLS), node(3, "c", ANSWER), node(4, "d", CALLS)];
    let early = parse(&[&nodes[0], &nodes[1]], true);
    let whole = parse(&[&nodes[0], &nodes[1], &nodes[2], &nodes[3]], true);
    assert_eq!(early.messages[..], whole.messages[..1]);
    assert_eq!(early.events[..], whole.events[..2]);
    let named: Vec<_> = whole.events.iter().map(|e| e.message_seq).collect();
    assert_eq!(named, [Some(0), Some(0), Some(1), Some(1)]);
    assert_eq!(whole.usage_events[0].message_seq, Some(1));
}

use std::collections::{HashMap, HashSet};
use std::path::PathBuf;

use devin_sessions::adapter::{resolve_db_path_from, DevinAdapter};
use devin_sessions::chain::chain_nodes;
use devin_sessions::events::{ShellEvidence, ShellQuery};
use devin_sessions::session::{
    build_session, malformed_in_session, scan_session, SessionContent,
};
use devin_sessions::store::{readable_rows, seconds_to_ms, MessageNode, SessionRow};
use devin_sessions::types::{ParentLink, ParentRelation, RawSession, ThreadRole};

fn no_shell(_query: &ShellQuery) -> ShellEvidence {
    ShellEvidence { files: vec![], status: "none".to_string() }
}

fn session() -> SessionRow {
    SessionRow {
        id: "ses-1".to_string(),
        working_directory: " /repo\n".to_string(),
        title: Some("  a title ".to_string()),
        model: None,
        backend_type: None,
        created_at: 1_700_000_000,
        last_activity_at: 1_700_000_119,
        hidden: 0,
    }
}

fn said(node_id: i64, parent_node_id: Option<i64>, content: &str) -> MessageNode {
    MessageNode {
        node_id,
        parent_node_id,
        chat_message: format!(
            r#"{{"role":"user","content":"{content}","metadata":{{"is_user_input":true}}}}"#
        ),
        dedupe_key: format!("node:{node_id}"),
        created_at: 1_700_000_000 + node_id,
    }
}

fn scan(content: &SessionContent, target: Option<&str>) -> Vec<RawSession> {
    scan_session(
        &session(),
        content,
        Some("/tmp/sessions.db"),
        target,
        1_700_000_000_000,
        1_700_000_119_000,
        true,
        &no_shell,
    )
}

fn contents(session: &RawSession) -> Vec<&str> {
    session.messages.iter().map(|m| m.content.as_str()).collect()
}

fn ids(sessions: &[RawSession]) -> Vec<&str> {
    sessions.iter().map(|s| s.source_id.as_str()).collect()
}

fn set(ids: &[i64]) -> HashSet<i64> {
    ids.iter().copied().collect()
}

#[test]
fn a_chain_goes_up_to_the_root() {
    let parents: HashMap<i64, Option<i64>> =
        HashMap::from([(1, None), (2, Some(1)), (3, Some(2)), (4, Some(1))]);
    assert_eq!(chain_nodes(&parents, 3), set(&[1, 2, 3]));
    assert_eq!(chain_nodes(&parents, 1), set(&[1]));
}

#[test]
fn a_chain_goes_up_to_a_node_that_is_not_known() {
    let parents: HashMap<i64, Option<i64>> = HashMap::from([(2, Some(-7))]);
    assert_eq!(chain_nodes(&parents, 2), set(&[2, -7]));
    assert_eq!(chain_nodes(&parents, 9), set(&[9]));
}

#[test]
fn a_chain_in_a_circle_ends() {
    let parents: HashMap<i64, Option<i64>> =
        HashMap::from([(1, Some(3)), (2, Some(1)), (3, Some(2)), (4, Some(2)), (5, Some(5))]);
    assert_eq!(chain_nodes(&parents, 4), set(&[4, 2, 1, 3]));
    assert_eq!(chain_nodes(&parents, 5), set(&[5]));
}

#[test]
fn timestamps_change_unit_at_the_threshold() {
    assert_eq!(seconds_to_ms(0), 0);
    assert_eq!(seconds_to_ms(-1), -1000);
    assert_eq!(seconds_to_ms(999_999_999_999), 999_999_999_999_000);
    assert_eq!(seconds_to_ms(1_000_000_000_000), 1_000_000_000_000);
    assert_eq!(seconds_to_ms(-1_000_000_000_000), -1_000_000_000_000);
    assert_eq!(seconds_to_ms(i64::MAX), i64::MAX);
    assert_eq!(seconds_to_ms(i64::MIN), i64::MIN);
}

#[test]
fn converted_timestamps_are_not_converted_again() {
    for timestamp in [1_000_000_000, -1_000_000_000, 1_788_279_318, 0, 5_000_000_000_000] {
        let once = seconds_to_ms(timestamp);
        assert_eq!(seconds_to_ms(once), once);
    }
    assert_eq!(seconds_to_ms(seconds_to_ms(5)), 5_000_000);
}

#[test]
fn rows_that_could_not_be_read_are_dropped() {
    assert_eq!(readable_rows(vec![Some(1), None, Some(3), None]), vec![1, 3]);
    assert_eq!(readable_rows::<i32>(vec![]), Vec::<i32>::new());
}

#[test]
fn a_session_carries_what_its_row_says() {
    let node = said(0, None, "hi");
    let raw = build_session(
        &session(),
        "some-id".to_string(),
        Some("/tmp/sessions.db"),
        5,
        6,
        &[&node],
        true,
        &no_shell,
    )
    .unwrap();
    assert_eq!(raw.source_id, "some-id");
    assert_eq!(raw.directory.as_deref(), Some("/repo"));
    assert_eq!(raw.started_at, 5);
    assert_eq!(raw.updated_at, Some(6));
    assert_eq!(contents(&raw), ["hi"]);
    assert!(raw.usage_events.is_empty());
    assert_eq!(raw.usage_parser_version, Some(1));
    assert!(raw.events.is_empty());
    assert_eq!(raw.event_parser_version, Some(1));
    assert_eq!(raw.metadata_parser_version, Some(1));
    assert_eq!(raw.custom_title.as_deref(), Some("a title"));
    assert_eq!(raw.duration_minutes, Some(1));
    assert_eq!(raw.source_file_path.as_deref(), Some("/tmp/sessions.db"));
    assert_eq!(raw.thread_role, None);
    assert!(raw.parent_links.is_empty());
}

#[test]
fn a_session_without_events_says_so() {
    let node = said(0, None, "hi");
    let mut row = session();
    row.title = Some(" ".to_string());
    row.working_directory = "\t".to_string();
    row.last_activity_at = 3;
    let raw =
        build_session(&row, "id".to_string(), None, 0, 0, &[&node], false, &no_shell).unwrap();
    assert_eq!(raw.event_parser_version, None);
    assert_eq!(raw.custom_title, None);
    assert_eq!(raw.directory, None);
    assert_eq!(raw.duration_minutes, Some(0));
    assert_eq!(raw.source_file_path, None);
}

#[test]
fn a_duration_that_does_not_fit_is_left_out() {
    let node = said(0, None, "hi");
    for (created_at, last_activity_at, minutes) in [
        (0, 59, Some(0)),
        (0, 60, Some(1)),
        (0, 60 * 4_294_967_295, Some(u32::MAX)),
        (0, 60 * 4_294_967_296, None),
        (i64::MIN, i64::MAX, None),
        (i64::MAX, i64::MIN, Some(0)),
    ] {
        let mut row = session();
        row.created_at = created_at;
        row.last_activity_at = last_activity_at;
        let raw =
            build_session(&row, "id".to_string(), None, 0, 0, &[&node], true, &no_shell).unwrap();
        assert_eq!(raw.duration_minutes, minutes);
    }
}

#[test]
fn a_session_of_nothing_is_none() {
    let mut node = said(0, None, "hi");
    node.chat_message = r#"{"role":"assistant","content":"","tool_calls":[{"name":"list"}]}"#.to_string();
    let build = |include_events| {
        build_session(&session(), "id".to_string(), None, 0, 0, &[&node], include_events, &no_shell)
    };
    assert!(build(true).is_some());
    assert!(build(false).is_none());
    assert!(
        build_session(&session(), "id".to_string(), None, 0, 0, &[], true, &no_shell).is_none()
    );
}

#[test]
fn each_node_belongs_to_the_session_or_to_its_subagents() {
    let content = SessionContent {
        nodes: vec![
            said(1, None, "main"),
            said(2, None, "shared root"),
            said(3, Some(2), "first"),
            said(4, Some(2), "second"),
            said(5, Some(1), "more"),
        ],
        heads: vec![("a".to_string(), 3), ("b".to_string(), 4), ("c".to_string(), 99)],
    };
    let sessions = scan(&content, None);
    assert_eq!(ids(&sessions), ["ses-1", "ses-1:a", "ses-1:b"]);
    assert_eq!(contents(&sessions[0]), ["main", "more"]);
    assert_eq!(contents(&sessions[1]), ["shared root", "first"]);
    assert_eq!(contents(&sessions[2]), ["shared root", "second"]);
}

#[test]
fn a_subagent_is_linked_to_the_session_that_spawned_it() {
    let content = SessionContent {
        nodes: vec![said(1, None, "main"), said(7, None, "task")],
        heads: vec![("a".to_string(), 7)],
    };
    let sessions = scan(&content, None);
    assert_eq!(sessions[0].started_at, 1_700_000_000_000);
    let sub = &sessions[1];
    assert_eq!(sub.started_at, 1_700_000_007_000);
    assert_eq!(sub.updated_at, Some(1_700_000_119_000));
    assert_eq!(sub.custom_title, None);
    assert_eq!(sub.thread_role, Some(ThreadRole::Subagent));
    assert_eq!(
        sub.parent_links,
        vec![ParentLink {
            relation: ParentRelation::Spawn,
            source: "devin".to_string(),
            source_id: "ses-1".to_string(),
        }]
    );
}

#[test]
fn a_session_whose_nodes_are_all_of_subagents_makes_none_of_its_own() {
    let content = SessionContent {
        nodes: vec![said(1, None, "root"), said(2, Some(1), "task")],
        heads: vec![("a".to_string(), 2)],
    };
    assert_eq!(ids(&scan(&content, None)), ["ses-1:a"]);
}

#[test]
fn a_target_selects_by_id() {
    let content = SessionContent {
        nodes: vec![said(1, None, "main"), said(7, None, "task"), said(8, None, "other")],
        heads: vec![("a".to_string(), 7), ("b".to_string(), 8)],
    };
    let all = scan(&content, None);
    for target in ["ses-1", "ses-1:a", "ses-1:b", "ses-1:c", "ses", ""] {
        let selected: Vec<_> = scan(&content, None)
            .into_iter()
            .filter(|s| s.source_id == target)
            .collect();
        assert_eq!(scan(&content, Some(target)), selected, "{target}");
    }
    assert_eq!(all.len(), 3);
}

#[test]
fn a_session_without_nodes_makes_nothing() {
    let content = SessionContent { nodes: vec![], heads: vec![("a".to_string(), 1)] };
    assert!(scan(&content, None).is_empty());
}

#[test]
fn the_adapter_names_itself() {
    assert_eq!(DevinAdapter.id(), "devin");
    assert_eq!(DevinAdapter.label(), "DV");
    assert_eq!(DevinAdapter.usage_parser_version(), Some(1));
}

#[test]
fn resuming_a_subagent_resumes_its_parent() {
    for (source_id, session_id) in [("a:b:c", "a"), (":x", ""), ("", ""), ("a", "a")] {
        let command = DevinAdapter.resume_command(source_id).unwrap();
        assert_eq!(command.args, vec!["--resume", session_id]);
    }
}

#[test]
fn the_store_lies_below_the_data_directory() {
    let path = |xdg: Option<&str>, home: Option<&str>| {
        resolve_db_path_from(xdg.map(str::to_string), home.map(PathBuf::from))
    };
    assert_eq!(path(Some(" /data/ "), None), Some(PathBuf::from("/data/devin/cli/sessions.db")));
    assert_eq!(
        path(Some("  "), Some("/home/me/")),
        Some(PathBuf::from("/home/me/.local/share/devin/cli/sessions.db"))
    );
    assert_eq!(path(None, Some("")), Some(PathBuf::from(".local/share/devin/cli/sessions.db")));
    assert_eq!(path(Some(""), None), None);
    assert_eq!(path(None, None), None);
}

#[test]
fn malformed_nodes_are_listed_for_the_sessions_that_are_wanted() {
    let broken = |node_id, parent_node_id| MessageNode {
        chat_message: "{".to_string(),
        ..said(node_id, parent_node_id, "")
    };
    let content = SessionContent {
        nodes: vec![broken(1, None), said(2, None, "task"), broken(3, Some(2)), broken(4, Some(2))],
        heads: vec![("a".to_string(), 3), ("b".to_string(), 4)],
    };
    assert_eq!(malformed_in_session("ses-1", &content, None), [1, 3, 4]);
    assert_eq!(malformed_in_session("ses-1", &content, Some("ses-1")), [1]);
    assert_eq!(malformed_in_session("ses-1", &content, Some("ses-1:b")), [4]);
    assert!(malformed_in_session("ses-1", &content, Some("other")).is_empty());
}

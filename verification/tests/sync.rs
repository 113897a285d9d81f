use std::path::PathBuf;

use devin_sessions::events::{ShellEvidence, ShellQuery};
use devin_sessions::scan::{
    load_live_ids, scan_devin, unavailable_scan, InventoryIssue, IssueCategory, LiveRows,
    ReconcilePlan, StoreSnapshot, StoredSession, SyncScanOutput, SyncScanStats,
};
use devin_sessions::session::SessionContent;
use devin_sessions::store::{MessageNode, SessionRow};
use devin_sessions::sync::{
    decide_row, parser_state_is_current, session_state_is_current, AdapterSyncContext, ParserState,
    RowDecision,
};

fn no_shell(_query: &ShellQuery) -> ShellEvidence {
    ShellEvidence { files: vec![], status: "none".to_string() }
}

fn row(id: &str, last_activity_at: i64, hidden: i64) -> SessionRow {
    SessionRow {
        id: id.to_string(),
        working_directory: "/repo".to_string(),
        title: None,
        model: None,
        backend_type: None,
        created_at: 1_700_000_000,
        last_activity_at,
        hidden,
    }
}

fn stored(id: &str, last_activity_at: i64) -> StoredSession {
    let node = MessageNode {
        node_id: 1,
        parent_node_id: None,
        chat_message: r#"{"role":"user","content":"hi","metadata":{"is_user_input":true}}"#
            .to_string(),
        dedupe_key: "k".to_string(),
        created_at: 1_700_000_000,
    };
    StoredSession {
        row: row(id, last_activity_at, 0),
        content: Some(SessionContent { nodes: vec![node], heads: vec![] }),
    }
}

fn store(sessions: Vec<StoredSession>) -> StoreSnapshot {
    StoreSnapshot {
        db_path: PathBuf::from("/tmp/sessions.db"),
        has_sessions: true,
        has_message_nodes: true,
        live: Some(LiveRows {
            sessions: sessions.iter().map(|s| Some(s.row.id.clone())).collect(),
            subagents: None,
        }),
        sessions: Some(sessions),
    }
}

fn state(parser_version: u32, updated_at: i64) -> ParserState {
    ParserState { parser_version, updated_at: Some(updated_at) }
}

fn indexed(id: &str, updated_at: i64) -> AdapterSyncContext {
    let mut context = AdapterSyncContext::new();
    context.record_session(id.to_string(), Some(updated_at));
    context.record_usage_state(id.to_string(), state(1, updated_at));
    context.record_event_state(id.to_string(), state(1, updated_at));
    context.record_metadata_state(id.to_string(), state(1, updated_at));
    context
}

fn ids(output: &SyncScanOutput) -> Vec<&str> {
    output.scan.sessions.iter().map(|s| s.source_id.as_str()).collect()
}

fn stats(
    candidates: usize,
    filtered_sessions: usize,
    skipped_sessions: usize,
    parsed: usize,
) -> SyncScanStats {
    SyncScanStats { candidates, filtered_sessions, skipped_sessions, parsed }
}

const NOW: i64 = 1_700_000_100;
const NOW_MS: i64 = 1_700_000_100_000;

#[test]
fn an_indexed_session_is_skipped_until_it_changes() {
    let context = indexed("a", NOW_MS);
    let decide = |row: &SessionRow, force| decide_row(row, Some(&context), None, true, force);
    assert_eq!(decide(&row("a", NOW, 0), false), RowDecision::Skip);
    assert_eq!(decide(&row("a", NOW + 1, 0), false), RowDecision::Read);
    assert_eq!(decide(&row("a", NOW - 1, 0), false), RowDecision::Read);
    assert_eq!(decide(&row("b", NOW, 0), false), RowDecision::Read);
    assert_eq!(decide(&row("a", NOW, 0), true), RowDecision::Read);
    assert_eq!(decide(&row("a", NOW, 1), true), RowDecision::Filter);
}

#[test]
fn a_session_that_another_parser_read_is_not_skipped() {
    let current = row("a", NOW, 0);
    let mut context = indexed("a", NOW_MS);
    context.record_usage_state("a".to_string(), state(2, NOW_MS));
    assert_eq!(decide_row(&current, Some(&context), None, true, false), RowDecision::Read);

    let mut context = indexed("a", NOW_MS);
    context.record_event_state("a".to_string(), state(0, NOW_MS));
    assert_eq!(decide_row(&current, Some(&context), None, true, false), RowDecision::Read);
    assert_eq!(decide_row(&current, Some(&context), None, false, false), RowDecision::Skip);

    let mut context = indexed("a", NOW_MS);
    context.record_metadata_state("a".to_string(), state(1, NOW_MS - 1));
    assert_eq!(decide_row(&current, Some(&context), None, true, false), RowDecision::Read);

    let mut context = indexed("a", NOW_MS);
    context.record_session("a".to_string(), None);
    assert_eq!(decide_row(&current, Some(&context), None, true, false), RowDecision::Read);
}

#[test]
fn parser_states_are_current_at_the_same_version_and_time() {
    assert!(parser_state_is_current(1, Some(state(1, 5)), Some(5)));
    assert!(!parser_state_is_current(1, Some(state(1, 5)), Some(6)));
    assert!(!parser_state_is_current(1, Some(state(1, 5)), None));
    assert!(!parser_state_is_current(2, Some(state(1, 5)), Some(5)));
    assert!(!parser_state_is_current(1, None, Some(5)));
    assert!(session_state_is_current(1, 2, Some(state(1, 5)), Some(state(2, 5)), Some(5), true));
    assert!(!session_state_is_current(1, 2, Some(state(1, 5)), Some(state(1, 5)), Some(5), true));
    assert!(session_state_is_current(1, 2, Some(state(1, 5)), None, Some(5), false));
}

#[test]
fn sessions_before_the_cutoff_are_filtered() {
    let store = store(vec![stored("old", NOW - 1), stored("new", NOW)]);
    let output = scan_devin(Some(&store), None, Some(NOW_MS), true, false, &no_shell);
    assert_eq!(ids(&output), ["new"]);
    assert_eq!(output.scan.stats, stats(2, 1, 0, 1));
    let forced = scan_devin(Some(&store), None, Some(NOW_MS), true, true, &no_shell);
    assert_eq!(ids(&forced), ["old", "new"]);
    assert_eq!(forced.scan.stats, stats(2, 0, 0, 2));
}

#[test]
fn a_forced_scan_does_not_depend_on_the_index() {
    let store = store(vec![stored("a", NOW), stored("b", NOW)]);
    let context = indexed("a", NOW_MS);
    let plain = scan_devin(Some(&store), Some(&context), None, true, false, &no_shell);
    assert_eq!(ids(&plain), ["b"]);
    assert_eq!(plain.scan.stats, stats(2, 0, 1, 1));
    let forced = scan_devin(Some(&store), Some(&context), Some(i64::MAX), true, true, &no_shell);
    let fresh = scan_devin(Some(&store), None, None, true, true, &no_shell);
    assert_eq!(forced, fresh);
}

#[test]
fn every_candidate_is_counted_once() {
    let mut hidden = stored("hidden", NOW);
    hidden.row.hidden = 1;
    let mut empty = stored("empty", NOW);
    empty.content = Some(SessionContent { nodes: vec![], heads: vec![] });
    let mut unread = stored("unread", NOW);
    unread.content = None;
    let store = store(vec![hidden, empty, unread, stored("a", NOW), stored("b", NOW)]);
    let context = indexed("b", NOW_MS);
    let output = scan_devin(Some(&store), Some(&context), None, true, false, &no_shell);
    assert_eq!(ids(&output), ["a"]);
    assert_eq!(output.scan.stats, stats(5, 2, 1, 1));
}

#[test]
fn a_targeted_scan_looks_at_one_session_and_keeps_the_live_set() {
    let store = store(vec![stored("a", NOW), stored("b", NOW)]);
    let context = AdapterSyncContext::new().restricted_to("b".to_string());
    let output = scan_devin(Some(&store), Some(&context), None, true, false, &no_shell);
    assert_eq!(ids(&output), ["b"]);
    assert_eq!(output.scan.stats, stats(1, 0, 0, 1));
    let all = scan_devin(Some(&store), None, None, true, false, &no_shell);
    assert_eq!(output.reconcile, all.reconcile);
}

#[test]
fn an_id_with_a_colon_is_not_found_by_itself() {
    let store = store(vec![stored("a:b", NOW)]);
    let context = AdapterSyncContext::new().restricted_to("a:b".to_string());
    let output = scan_devin(Some(&store), Some(&context), None, true, false, &no_shell);
    assert!(output.scan.sessions.is_empty());
    assert_eq!(output.scan.stats, stats(0, 0, 0, 0));
}

#[test]
fn live_ids_are_listed_once_and_unreadable_ones_are_issues() {
    let live = LiveRows {
        sessions: vec![Some("a".to_string()), None, Some("b".to_string()), Some("a".to_string())],
        subagents: Some(vec![Some("a:x".to_string()), None, Some("b".to_string())]),
    };
    let issue = || InventoryIssue {
        path: PathBuf::from("/db"),
        category: IssueCategory::InvalidData,
    };
    let (ids, issues) = load_live_ids(&live, &PathBuf::from("/db"));
    assert_eq!(ids, ["a", "b", "a:x"]);
    assert_eq!(issues, [issue(), issue()]);

    let mut partial = store(vec![stored("a", NOW)]);
    partial.db_path = PathBuf::from("/db");
    partial.live = Some(live);
    let output = scan_devin(Some(&partial), None, None, true, false, &no_shell);
    assert_eq!(ids_of(&output), vec!["a".to_string()]);
    assert_eq!(output.reconcile, Some(ReconcilePlan::PartialInventory(vec![issue(), issue()])));
}

fn ids_of(output: &SyncScanOutput) -> Vec<String> {
    output.scan.sessions.iter().map(|s| s.source_id.clone()).collect()
}

#[test]
fn a_store_that_cannot_be_read_tells_only_an_index_with_sessions() {
    let known = indexed("a", NOW_MS);
    let fresh = AdapterSyncContext::new();
    let missing_sessions =
        StoreSnapshot { has_sessions: false, ..store(vec![stored("a", NOW)]) };
    let missing_nodes =
        StoreSnapshot { has_message_nodes: false, ..store(vec![stored("a", NOW)]) };
    let no_live = StoreSnapshot { live: None, ..store(vec![stored("a", NOW)]) };
    let no_rows = StoreSnapshot { sessions: None, ..store(vec![]) };
    for snapshot in
        [None, Some(&missing_sessions), Some(&missing_nodes), Some(&no_live), Some(&no_rows)]
    {
        for force in [false, true] {
            let told = scan_devin(snapshot, Some(&known), None, true, force, &no_shell);
            assert!(told.scan.sessions.is_empty());
            assert_eq!(told.scan.stats, stats(0, 0, 0, 0));
            assert_eq!(told.reconcile, Some(ReconcilePlan::UnavailableInventory(vec![])));
            assert_eq!(told, unavailable_scan(Some(&known)));
            let untold = scan_devin(snapshot, Some(&fresh), None, true, force, &no_shell);
            assert_eq!(untold.reconcile, None);
            assert_eq!(scan_devin(snapshot, None, None, true, force, &no_shell).reconcile, None);
        }
    }
}

#[test]
fn the_wanted_session_of_a_subagent_is_its_parent() {
    let context = AdapterSyncContext::new();
    assert_eq!(context.target_source_id(), None);
    assert_eq!(context.target_session(), None);
    let context = context.restricted_to("a:b:c".to_string());
    assert_eq!(context.target_source_id(), Some("a:b:c"));
    assert_eq!(context.target_session(), Some("a"));
    assert!(!context.has_existing_sessions());
    assert!(indexed("a", 0).has_existing_sessions());
    assert!(indexed("a", 0).holds_current("a", 0, true));
    assert!(!indexed("a", 0).holds_current("a", 1, true));
}

#[test]
fn found_sessions_carry_the_path_of_the_store() {
    let mut snapshot = store(vec![stored("a", NOW)]);
    snapshot.db_path = PathBuf::from("/data/sessions.db");
    let output = scan_devin(Some(&snapshot), None, None, true, false, &no_shell);
    assert_eq!(output.scan.sessions[0].source_file_path.as_deref(), Some("/data/sessions.db"));
}

#[test]
fn found_sessions_are_live_and_have_ids_of_their_own() {
    let mut parent = stored("a", NOW);
    let content = parent.content.as_mut().unwrap();
    content.nodes.push(MessageNode {
        node_id: 2,
        parent_node_id: None,
        chat_message: r#"{"role":"assistant","content":"task"}"#.to_string(),
        dedupe_key: "t".to_string(),
        created_at: 1_700_000_001,
    });
    content.heads.push(("x".to_string(), 2));
    let mut snapshot = store(vec![parent, stored("b", NOW)]);
    snapshot.live = Some(LiveRows {
        sessions: vec![Some("a".to_string()), Some("b".to_string())],
        subagents: Some(vec![Some("a:x".to_string())]),
    });
    let output = scan_devin(Some(&snapshot), None, None, true, false, &no_shell);
    assert_eq!(ids(&output), ["a", "a:x", "b"]);
    match &output.reconcile {
        Some(ReconcilePlan::CompleteLiveSet(live)) => {
            assert!(output.scan.sessions.iter().all(|s| live.contains(&s.source_id)));
        }
        _ => panic!("no complete live set"),
    }
}

#[test]
fn a_cutoff_is_a_filter() {
    let all = || vec![stored("a", NOW - 5), stored("b", NOW), stored("c", NOW + 5)];
    let late = all().into_iter().filter(|s| s.row.last_activity_at >= NOW).collect();
    let cut = scan_devin(Some(&store(all())), None, Some(NOW_MS), true, false, &no_shell);
    let kept = scan_devin(Some(&store(late)), None, None, true, false, &no_shell);
    assert_eq!(cut.scan.sessions, kept.scan.sessions);
    assert_eq!(ids(&cut), ["b", "c"]);
}

#[test]
fn a_plain_scan_reads_like_a_forced_one() {
    let all = || vec![stored("a", NOW), stored("b", NOW)];
    let context = indexed("a", NOW_MS);
    let plain = scan_devin(Some(&store(all())), Some(&context), None, true, false, &no_shell);
    let read = all().into_iter().filter(|s| s.row.id != "a").collect();
    let forced = scan_devin(Some(&store(read)), Some(&context), None, true, true, &no_shell);
    assert_eq!(plain.scan.sessions, forced.scan.sessions);
    assert_eq!(ids(&plain), ["b"]);
}

#[test]
fn sessions_whose_content_could_not_be_read_make_up_the_difference() {
    let unread = |id: &str, last_activity_at| StoredSession {
        content: None,
        ..stored(id, last_activity_at)
    };
    let store = store(vec![unread("old", NOW - 5), unread("known", NOW), unread("broken", NOW)]);
    let context = indexed("known", NOW_MS);
    let output = scan_devin(Some(&store), Some(&context), Some(NOW_MS), true, false, &no_shell);
    assert_eq!(output.scan.stats, stats(3, 1, 1, 0));
}

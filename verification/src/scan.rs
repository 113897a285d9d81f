//! A scan of the whole store.

use std::path::PathBuf;

use vstd::hash_set::StringHashSet;
use vstd::prelude::*;
use vstd::string::*;

use crate::events::{ShellEvidence, ShellQuery};
use crate::paths;
use crate::paths::{same_path, text_of};
use crate::session;
use crate::session::{scan_session, SessionContent, SessionModel, SessionScanView};
use crate::store;
use crate::store::{seconds_to_ms, MessageNodeView, SessionRow, SessionRowView};
use crate::sync;
use crate::sync::{decide_row, AdapterSyncContext, AdapterSyncContextView, RowDecision};
use crate::text;
use crate::types::RawSession;

verus! {

/// What is wrong with a row of the inventory.
#[derive(Debug, Clone, Copy, PartialEq, Eq, Structural)]
pub enum IssueCategory {
    InvalidData,
}

/// A row of the inventory of live sessions that could not be read.
#[derive(Debug, PartialEq)]
pub struct InventoryIssue {
    /// The path of the store.
    pub path: PathBuf,
    pub category: IssueCategory,
}

#[verifier::ext_equal]
pub struct InventoryIssueView {
    pub path: PathBuf,
    pub category: IssueCategory,
}

impl DeepView for InventoryIssue {
    type V = InventoryIssueView;

    open spec fn deep_view(&self) -> InventoryIssueView {
        InventoryIssueView { path: self.path, category: self.category }
    }
}

/// What an index has to do with the sessions that it holds.
#[derive(Debug, PartialEq)]
pub enum ReconcilePlan {
    /// These sessions are in the store, and no others.
    CompleteLiveSet(Vec<String>),
    /// Some sessions of the store could not be read, so none is known to be gone.
    PartialInventory(Vec<InventoryIssue>),
    /// The store could not be read, so no session is known to be gone.
    UnavailableInventory(Vec<InventoryIssue>),
}

#[verifier::ext_equal]
pub enum ReconcilePlanView {
    CompleteLiveSet(Seq<Seq<char>>),
    PartialInventory(Seq<InventoryIssueView>),
    UnavailableInventory(Seq<InventoryIssueView>),
}

impl DeepView for ReconcilePlan {
    type V = ReconcilePlanView;

    open spec fn deep_view(&self) -> ReconcilePlanView {
        match self {
            ReconcilePlan::CompleteLiveSet(live) => ReconcilePlanView::CompleteLiveSet(
                live.deep_view(),
            ),
            ReconcilePlan::PartialInventory(issues) => ReconcilePlanView::PartialInventory(
                issues.deep_view(),
            ),
            ReconcilePlan::UnavailableInventory(issues) => ReconcilePlanView::UnavailableInventory(
                issues.deep_view(),
            ),
        }
    }
}

/// How many sessions a scan looked at, and what became of them.
#[derive(Debug, Clone, Copy, PartialEq, Eq)]
pub struct SyncScanStats {
    pub candidates: usize,
    pub filtered_sessions: usize,
    pub skipped_sessions: usize,
    pub parsed: usize,
}

#[verifier::ext_equal]
pub struct SyncScanStatsView {
    pub candidates: nat,
    pub filtered_sessions: nat,
    pub skipped_sessions: nat,
    pub parsed: nat,
}

impl DeepView for SyncScanStats {
    type V = SyncScanStatsView;

    open spec fn deep_view(&self) -> SyncScanStatsView {
        SyncScanStatsView {
            candidates: self.candidates as nat,
            filtered_sessions: self.filtered_sessions as nat,
            skipped_sessions: self.skipped_sessions as nat,
            parsed: self.parsed as nat,
        }
    }
}

/// The sessions that a scan found.
#[derive(Debug, PartialEq)]
pub struct SyncScanResult {
    pub sessions: Vec<RawSession>,
    pub stats: SyncScanStats,
}

/// What a scan found, and what it means for the sessions that the index holds.
#[derive(Debug, PartialEq)]
pub struct SyncScanOutput {
    pub scan: SyncScanResult,
    pub reconcile: Option<ReconcilePlan>,
}

/// The ids of the live sessions as they were read from the store: those of the
/// sessions that are not hidden, and those of their subagents where the store
/// has a table of them. A row that could not be read is `None`.
#[derive(Debug, PartialEq)]
pub struct LiveRows {
    pub sessions: Vec<Option<String>>,
    pub subagents: Option<Vec<Option<String>>>,
}

#[verifier::ext_equal]
pub struct LiveRowsView {
    pub sessions: Seq<Option<Seq<char>>>,
    pub subagents: Option<Seq<Option<Seq<char>>>>,
}

impl DeepView for LiveRows {
    type V = LiveRowsView;

    open spec fn deep_view(&self) -> LiveRowsView {
        LiveRowsView {
            sessions: self.sessions.deep_view(),
            subagents: self.subagents.deep_view(),
        }
    }
}

/// A session of the store, with its content where that was read.
#[derive(Debug, PartialEq)]
pub struct StoredSession {
    pub row: SessionRow,
    pub content: Option<SessionContent>,
}

#[verifier::ext_equal]
pub struct SessionContentView {
    pub nodes: Seq<MessageNodeView>,
    pub heads: Seq<(Seq<char>, i64)>,
}

impl DeepView for SessionContent {
    type V = SessionContentView;

    open spec fn deep_view(&self) -> SessionContentView {
        SessionContentView { nodes: self.nodes.deep_view(), heads: self.heads.deep_view() }
    }
}

#[verifier::ext_equal]
pub struct StoredSessionView {
    pub row: SessionRowView,
    pub content: Option<SessionContentView>,
}

impl DeepView for StoredSession {
    type V = StoredSessionView;

    open spec fn deep_view(&self) -> StoredSessionView {
        StoredSessionView { row: self.row.deep_view(), content: self.content.deep_view() }
    }
}

/// What was read of a store: which of the tables that a scan needs it has, the
/// ids of its live sessions, and its sessions, each `None` where it could not be
/// read.
#[derive(Debug, PartialEq)]
pub struct StoreSnapshot {
    pub db_path: PathBuf,
    pub has_sessions: bool,
    pub has_message_nodes: bool,
    pub live: Option<LiveRows>,
    pub sessions: Option<Vec<StoredSession>>,
}

#[verifier::ext_equal]
pub struct StoreSnapshotView {
    pub db_path: PathBuf,
    pub has_sessions: bool,
    pub has_message_nodes: bool,
    pub live: Option<LiveRowsView>,
    pub sessions: Option<Seq<StoredSessionView>>,
}

impl DeepView for StoreSnapshot {
    type V = StoreSnapshotView;

    open spec fn deep_view(&self) -> StoreSnapshotView {
        StoreSnapshotView {
            db_path: self.db_path,
            has_sessions: self.has_sessions,
            has_message_nodes: self.has_message_nodes,
            live: self.live.deep_view(),
            sessions: self.sessions.deep_view(),
        }
    }
}

/// The texts of a sequence, each where it first occurs.
pub open spec fn distinct(texts: Seq<Seq<char>>) -> Seq<Seq<char>>
    decreases texts.len(),
{
    if texts.len() == 0 {
        Seq::empty()
    } else {
        let before = distinct(texts.drop_last());
        if before.contains(texts.last()) {
            before
        } else {
            before.push(texts.last())
        }
    }
}

/// The number of rows that could not be read.
pub open spec fn unreadable<T>(rows: Seq<Option<T>>) -> nat
    decreases rows.len(),
{
    if rows.len() == 0 {
        0
    } else {
        unreadable(rows.drop_last()) + (if rows.last() is None {
            1nat
        } else {
            0nat
        })
    }
}

impl LiveRowsView {
    /// All rows, the sessions before the subagents.
    pub open spec fn rows(self) -> Seq<Option<Seq<char>>> {
        match self.subagents {
            Some(subagents) => self.sessions + subagents,
            None => self.sessions,
        }
    }

    /// The ids of the live sessions.
    pub open spec fn ids(self) -> Seq<Seq<char>> {
        distinct(store::readable(self.rows()))
    }

    /// One issue for each row that could not be read.
    pub open spec fn issues(self, db_path: PathBuf) -> Seq<InventoryIssueView> {
        Seq::new(
            unreadable(self.rows()),
            |i: int| InventoryIssueView { path: db_path, category: IssueCategory::InvalidData },
        )
    }
}

/// An inventory of live ids that goes on.
struct Inventory {
    live: Vec<String>,
    known: StringHashSet,
    issues: Vec<InventoryIssue>,
}

impl Inventory {
    spec fn stands_for(self, rows: Seq<Option<Seq<char>>>, db_path: PathBuf) -> bool {
        &&& self.live.deep_view() == distinct(store::readable(rows))
        &&& forall|id: Seq<char>| #[trigger]
            self.known@.contains(id) <==> distinct(store::readable(rows)).contains(id)
        &&& self.issues@.len() == unreadable(rows)
        &&& forall|i: int|
            0 <= i < self.issues@.len() ==> (#[trigger] self.issues@[i]).deep_view() == (
            InventoryIssueView { path: db_path, category: IssueCategory::InvalidData })
    }

    fn take_row(&mut self, row: &Option<String>, db_path: &PathBuf)
        ensures
            forall|rows: Seq<Option<Seq<char>>>| #[trigger]
                old(self).stands_for(rows, *db_path) ==> final(self).stands_for(
                    rows.push(row.deep_view()),
                    *db_path,
                ),
    {
        let ghost before = *self;
        match row {
            Some(id) => {
                if self.known.insert(id.clone()) {
                    self.live.push(id.clone());
                    assert(self.live.deep_view() =~= before.live.deep_view().push(id@));
                }
            },
            None => {
                self.issues.push(
                    InventoryIssue { path: same_path(db_path), category: IssueCategory::InvalidData },
                );
            },
        }
        proof {
            assert forall|rows: Seq<Option<Seq<char>>>| #[trigger]
                before.stands_for(rows, *db_path) implies self.stands_for(
                rows.push(row.deep_view()),
                *db_path,
            ) by {
                let more = rows.push(row.deep_view());
                assert(more.drop_last() =~= rows);
                let ids = store::readable(rows);
                if let Some(id) = row {
                    assert(store::readable(more) == ids.push(id@));
                    assert(ids.push(id@).drop_last() =~= ids);
                    let found = distinct(ids);
                    let now = distinct(ids.push(id@));
                    assert forall|other: Seq<char>| #[trigger]
                        self.known@.contains(other) <==> now.contains(other) by {
                        assert(found.push(id@).contains(other) <==> found.contains(other) || other
                            == id@) by {
                            if found.contains(other) {
                                let k = choose|k: int| 0 <= k < found.len() && found[k] == other;
                                assert(found.push(id@)[k] == other);
                            }
                            assert(found.push(id@)[found.len() as int] == id@);
                        }
                    }
                }
            }
        }
    }

    fn take_rows(&mut self, rows: &Vec<Option<String>>, db_path: &PathBuf)
        ensures
            forall|before: Seq<Option<Seq<char>>>| #[trigger]
                old(self).stands_for(before, *db_path) ==> final(self).stands_for(
                    before + rows.deep_view(),
                    *db_path,
                ),
    {
        let mut at: usize = 0;
        assert(forall|before: Seq<Option<Seq<char>>>| #[trigger]
            old(self).stands_for(before, *db_path) ==> before + rows.deep_view().take(0)
                =~= before);
        while at < rows.len()
            invariant
                at <= rows@.len(),
                forall|before: Seq<Option<Seq<char>>>| #[trigger]
                    old(self).stands_for(before, *db_path) ==> self.stands_for(
                        before + rows.deep_view().take(at as int),
                        *db_path,
                    ),
            decreases rows@.len() - at,
        {
            self.take_row(&rows[at], db_path);
            at = at + 1;
            assert(forall|before: Seq<Option<Seq<char>>>| #[trigger]
                old(self).stands_for(before, *db_path) ==> (before
                    + rows.deep_view().take(at - 1)).push(rows.deep_view()[at - 1]) =~= before
                    + rows.deep_view().take(at as int));
        }
        assert(rows.deep_view().take(at as int) =~= rows.deep_view());
    }
}

/// The ids of the live sessions, each once, and an issue for each row that could
/// not be read.
pub fn load_live_ids(live: &LiveRows, db_path: &PathBuf) -> (r: (
    Vec<String>,
    Vec<InventoryIssue>,
))
    ensures
        r.0.deep_view() == live.deep_view().ids(),
        r.1.deep_view() == live.deep_view().issues(*db_path),
{
    let mut inventory = Inventory {
        live: Vec::new(),
        known: StringHashSet::new(),
        issues: Vec::new(),
    };
    let ghost none = Seq::<Option<Seq<char>>>::empty();
    assert(inventory.live.deep_view() =~= Seq::empty());
    assert(inventory.stands_for(none, *db_path));
    inventory.take_rows(&live.sessions, db_path);
    assert(none + live.sessions.deep_view() =~= live.sessions.deep_view());
    if let Some(subagents) = &live.subagents {
        inventory.take_rows(subagents, db_path);
    }
    assert(inventory.stands_for(live.deep_view().rows(), *db_path));
    assert(inventory.issues.deep_view() =~= live.deep_view().issues(*db_path));
    (inventory.live, inventory.issues)
}

/// What a scan is asked for.
#[verifier::ext_equal]
pub struct ScanRequestView {
    /// What the index holds, where there is one.
    pub context: Option<AdapterSyncContextView>,
    /// The time since which sessions are of interest.
    pub since_ts: Option<i64>,
    pub include_events: bool,
    /// Whether sessions are read that the index holds as they are.
    pub force: bool,
}

impl ScanRequestView {
    /// The only session that is wanted, where not all are.
    pub open spec fn target(self) -> Option<Seq<char>> {
        match self.context {
            Some(context) => context.target,
            None => None,
        }
    }

    /// Whether a session of the store is looked at.
    pub open spec fn is_candidate(self, row: SessionRowView) -> bool {
        match self.context {
            Some(context) => session::wanted(context.target_session(), row.id),
            None => true,
        }
    }

    /// What is done with a session of the store that is looked at.
    pub open spec fn decision(self, row: SessionRowView) -> RowDecision {
        sync::decision(row, self.context, self.since_ts, self.include_events, self.force)
    }

    /// What a session of the store is scanned with.
    pub open spec fn session_scan(
        self,
        row: SessionRowView,
        content: SessionContentView,
        db_path: Option<Seq<char>>,
    ) -> SessionScanView {
        SessionScanView {
            session: row,
            nodes: content.nodes,
            heads: content.heads,
            db_path,
            target: self.target(),
            started_at: store::in_milliseconds(row.created_at),
            updated_at: store::in_milliseconds(row.last_activity_at),
            include_events: self.include_events,
        }
    }

    /// The sessions that a session of the store makes.
    pub open spec fn sessions_of(
        self,
        row: SessionRowView,
        content: SessionContentView,
        db_path: Option<Seq<char>>,
    ) -> Seq<SessionModel> {
        self.session_scan(row, content, db_path).sessions()
    }
}

/// The sessions that were found up to some point of a scan.
#[verifier::ext_equal]
pub struct ScanResultModel {
    pub sessions: Seq<SessionModel>,
    pub stats: SyncScanStatsView,
}

impl ScanResultModel {
    pub open spec fn empty() -> Self {
        ScanResultModel {
            sessions: Seq::empty(),
            stats: SyncScanStatsView {
                candidates: 0,
                filtered_sessions: 0,
                skipped_sessions: 0,
                parsed: 0,
            },
        }
    }

    /// With one more session of the store. A session that is read and makes
    /// nothing counts as filtered; one whose content could not be read counts as
    /// a candidate only.
    pub open spec fn with_session(
        self,
        stored: StoredSessionView,
        db_path: Option<Seq<char>>,
        request: ScanRequestView,
    ) -> Self {
        let stats = SyncScanStatsView { candidates: self.stats.candidates + 1, ..self.stats };
        let filtered = ScanResultModel {
            stats: SyncScanStatsView {
                filtered_sessions: stats.filtered_sessions + 1,
                ..stats
            },
            ..self
        };
        if !request.is_candidate(stored.row) {
            self
        } else {
            match request.decision(stored.row) {
                RowDecision::Filter => filtered,
                RowDecision::Skip => ScanResultModel {
                    stats: SyncScanStatsView {
                        skipped_sessions: stats.skipped_sessions + 1,
                        ..stats
                    },
                    ..self
                },
                RowDecision::Read => match stored.content {
                    Some(content) => {
                        let found = request.sessions_of(stored.row, content, db_path);
                        if found.len() == 0 {
                            filtered
                        } else {
                            ScanResultModel {
                                sessions: self.sessions + found,
                                stats: SyncScanStatsView { parsed: stats.parsed + 1, ..stats },
                            }
                        }
                    },
                    None => ScanResultModel { stats, ..self },
                },
            }
        }
    }
}

/// What is found in a sequence of sessions of the store.
pub open spec fn scanned(
    sessions: Seq<StoredSessionView>,
    db_path: Option<Seq<char>>,
    request: ScanRequestView,
) -> ScanResultModel
    decreases sessions.len(),
{
    if sessions.len() == 0 {
        ScanResultModel::empty()
    } else {
        scanned(sessions.drop_last(), db_path, request).with_session(
            sessions.last(),
            db_path,
            request,
        )
    }
}

/// What a scan gives.
#[verifier::ext_equal]
pub struct ScanModel {
    pub scan: ScanResultModel,
    pub reconcile: Option<ReconcilePlanView>,
}

/// What a scan gives where the store cannot be read: nothing is found, and an
/// index that holds sessions is told that none of them is known to be gone.
pub open spec fn unavailable(context: Option<AdapterSyncContextView>) -> ScanModel {
    ScanModel {
        scan: ScanResultModel::empty(),
        reconcile: if context matches Some(context) && context.session_meta != Map::<
            Seq<char>,
            Option<i64>,
        >::empty() {
            Some(ReconcilePlanView::UnavailableInventory(Seq::empty()))
        } else {
            None
        },
    }
}

/// What a scan gives.
pub open spec fn scan_model(
    store: Option<StoreSnapshotView>,
    request: ScanRequestView,
) -> ScanModel {
    match store {
        Some(store) => if store.has_sessions && store.has_message_nodes && store.live is Some
            && store.sessions is Some {
            let live = store.live->0;
            ScanModel {
                scan: scanned(store.sessions->0, paths::path_text(store.db_path), request),
                reconcile: Some(
                    if live.issues(store.db_path).len() == 0 {
                        ReconcilePlanView::CompleteLiveSet(live.ids())
                    } else {
                        ReconcilePlanView::PartialInventory(live.issues(store.db_path))
                    },
                ),
            }
        } else {
            unavailable(request.context)
        },
        None => unavailable(request.context),
    }
}

impl SyncScanResult {
    /// Whether this is what `model` says, with the evidence of `shell`.
    pub open spec fn stands_for<F: Fn(&ShellQuery) -> ShellEvidence>(
        self,
        model: ScanResultModel,
        shell: F,
    ) -> bool {
        &&& session::sessions_match(self.sessions@, model.sessions, shell)
        &&& self.stats.deep_view() == model.stats
    }
}

impl SyncScanOutput {
    /// Whether this is what `model` says, with the evidence of `shell`.
    pub open spec fn stands_for<F: Fn(&ShellQuery) -> ShellEvidence>(
        self,
        model: ScanModel,
        shell: F,
    ) -> bool {
        &&& self.scan.stands_for(model.scan, shell)
        &&& self.reconcile.deep_view() == model.reconcile
    }
}

fn no_sessions() -> (r: SyncScanResult)
    ensures
        r.sessions@.len() == 0,
        r.stats.deep_view() == ScanResultModel::empty().stats,
{
    SyncScanResult {
        sessions: Vec::new(),
        stats: SyncScanStats {
            candidates: 0,
            filtered_sessions: 0,
            skipped_sessions: 0,
            parsed: 0,
        },
    }
}

/// What a scan gives where the store cannot be read.
pub fn unavailable_scan(context: Option<&AdapterSyncContext>) -> (r: SyncScanOutput)
    ensures
        r.scan.sessions@.len() == 0,
        r.scan.stats.deep_view() == unavailable(context.deep_view()).scan.stats,
        r.reconcile.deep_view() == unavailable(context.deep_view()).reconcile,
{
    let held = match context {
        Some(context) => context.has_existing_sessions(),
        None => false,
    };
    if held {
        let issues: Vec<InventoryIssue> = Vec::new();
        assert(issues.deep_view() =~= Seq::empty());
        SyncScanOutput {
            scan: no_sessions(),
            reconcile: Some(ReconcilePlan::UnavailableInventory(issues)),
        }
    } else {
        SyncScanOutput { scan: no_sessions(), reconcile: None }
    }
}

impl SyncScanResult {
    /// Takes up one more session of the store.
    fn take_session<F: Fn(&ShellQuery) -> ShellEvidence>(
        &mut self,
        stored: &StoredSession,
        db_path: Option<&str>,
        context: Option<&AdapterSyncContext>,
        since_ts: Option<i64>,
        include_events: bool,
        force: bool,
        shell: &F,
    )
        requires
            forall|query: &ShellQuery| call_requires(*shell, (query,)),
            old(self).stats.candidates < usize::MAX,
            old(self).stats.filtered_sessions < usize::MAX,
            old(self).stats.skipped_sessions < usize::MAX,
            old(self).stats.parsed < usize::MAX,
        ensures
            forall|model: ScanResultModel| #[trigger]
                old(self).stands_for(model, *shell) ==> final(self).stands_for(
                    model.with_session(
                        stored.deep_view(),
                        db_path.deep_view(),
                        ScanRequestView {
                            context: context.deep_view(),
                            since_ts,
                            include_events,
                            force,
                        },
                    ),
                    *shell,
                ),
            final(self).stats.candidates <= old(self).stats.candidates + 1,
            final(self).stats.filtered_sessions <= old(self).stats.filtered_sessions + 1,
            final(self).stats.skipped_sessions <= old(self).stats.skipped_sessions + 1,
            final(self).stats.parsed <= old(self).stats.parsed + 1,
    {
        let row = &stored.row;
        let (target, target_session) = match context {
            Some(context) => (context.target_source_id(), context.target_session()),
            None => (None, None),
        };
        if let Some(session_id) = target_session {
            if !text::same_text(session_id, row.id.as_str()) {
                return;
            }
        }
        self.stats.candidates = self.stats.candidates + 1;
        match decide_row(row, context, since_ts, include_events, force) {
            RowDecision::Filter => {
                self.stats.filtered_sessions = self.stats.filtered_sessions + 1;
            },
            RowDecision::Skip => {
                self.stats.skipped_sessions = self.stats.skipped_sessions + 1;
            },
            RowDecision::Read => {
                if let Some(content) = &stored.content {
                    let mut found = scan_session(
                        row,
                        content,
                        db_path,
                        target,
                        seconds_to_ms(row.created_at),
                        seconds_to_ms(row.last_activity_at),
                        include_events,
                        shell,
                    );
                    if found.len() == 0 {
                        self.stats.filtered_sessions = self.stats.filtered_sessions + 1;
                    } else {
                        self.stats.parsed = self.stats.parsed + 1;
                        self.sessions.append(&mut found);
                    }
                }
            },
        }
    }
}

/// Scans a store. Where there is none, or what a scan needs of it could not be
/// read, the scan is unavailable.
pub fn scan_devin<F: Fn(&ShellQuery) -> ShellEvidence>(
    store: Option<&StoreSnapshot>,
    context: Option<&AdapterSyncContext>,
    since_ts: Option<i64>,
    include_events: bool,
    force: bool,
    shell: &F,
) -> (r: SyncScanOutput)
    requires
        forall|query: &ShellQuery| call_requires(*shell, (query,)),
    ensures
        r.stands_for(
            scan_model(
                store.deep_view(),
                (ScanRequestView {
                    context: context.deep_view(),
                    since_ts,
                    include_events,
                    force,
                }),
            ),
            *shell,
        ),
{
    let store = match store {
        Some(store) => store,
        None => {
            return unavailable_scan(context);
        },
    };
    if !store.has_sessions || !store.has_message_nodes {
        return unavailable_scan(context);
    }
    let (live, sessions) = match (&store.live, &store.sessions) {
        (Some(live), Some(sessions)) => (live, sessions),
        _ => {
            return unavailable_scan(context);
        },
    };
    let db_path = text_of(&store.db_path);
    let ghost request = ScanRequestView {
        context: context.deep_view(),
        since_ts,
        include_events,
        force,
    };
    let (ids, issues) = load_live_ids(live, &store.db_path);
    let mut scan = no_sessions();
    let mut at: usize = 0;
    assert(sessions.deep_view().take(0) =~= Seq::empty());
    while at < sessions.len()
        invariant
            at <= sessions@.len(),
            forall|query: &ShellQuery| call_requires(*shell, (query,)),
            request == (ScanRequestView {
                context: context.deep_view(),
                since_ts,
                include_events,
                force,
            }),
            scan.stats.candidates <= at,
            scan.stats.filtered_sessions <= at,
            scan.stats.skipped_sessions <= at,
            scan.stats.parsed <= at,
            scan.stands_for(
                scanned(sessions.deep_view().take(at as int), db_path.deep_view(), request),
                *shell,
            ),
        decreases sessions@.len() - at,
    {
        scan.take_session(
            &sessions[at],
            db_path,
            context,
            since_ts,
            include_events,
            force,
            shell,
        );
        at = at + 1;
        assert(sessions.deep_view().take(at as int).drop_last() =~= sessions.deep_view().take(
            at - 1,
        ));
    }
    assert(sessions.deep_view().take(at as int) =~= sessions.deep_view());
    assert(issues.deep_view().len() == issues@.len());
    let reconcile = if issues.len() == 0 {
        ReconcilePlan::CompleteLiveSet(ids)
    } else {
        ReconcilePlan::PartialInventory(issues)
    };
    SyncScanOutput { scan, reconcile: Some(reconcile) }
}

} // verus!

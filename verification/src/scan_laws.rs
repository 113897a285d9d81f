//! What holds of every scan of a store.

use std::path::PathBuf;

use vstd::prelude::*;

use crate::events::{ShellEvidence, ShellQuery};
use crate::paths;
use crate::scan;
use crate::scan::{
    IssueCategory, LiveRowsView, ReconcilePlanView, ScanModel, ScanRequestView, ScanResultModel,
    SessionContentView, StoreSnapshotView, StoredSessionView, SyncScanOutput,
};
use crate::session;
use crate::session::{SessionModel, SessionScanView};
use crate::session_laws;
use crate::store;
use crate::store::{
    SessionRowView, EVENT_PARSER_VERSION, METADATA_PARSER_VERSION, USAGE_PARSER_VERSION,
};
use crate::sync;
use crate::sync::{AdapterSyncContextView, ParserState, RowDecision};
use crate::text;

verus! {

/// The number of sessions of the store that a scan decides to read and whose content
/// could not be read.
pub open spec fn failed(sessions: Seq<StoredSessionView>, request: ScanRequestView) -> nat
    decreases sessions.len(),
{
    if sessions.len() == 0 {
        0
    } else {
        let stored = sessions.last();
        failed(sessions.drop_last(), request) + (if request.is_candidate(stored.row)
            && request.decision(stored.row) == RowDecision::Read && stored.content is None {
            1nat
        } else {
            0nat
        })
    }
}

/// Every session of the store that is looked at is filtered, skipped or parsed, or
/// its content could not be read; what is parsed makes at least one session.
pub proof fn law_counts_add_up(
    sessions: Seq<StoredSessionView>,
    db_path: Option<Seq<char>>,
    request: ScanRequestView,
)
    ensures
        ({
            let found = scan::scanned(sessions, db_path, request);
            &&& found.stats.candidates == found.stats.filtered_sessions
                + found.stats.skipped_sessions + found.stats.parsed + failed(sessions, request)
            &&& found.stats.candidates <= sessions.len()
            &&& found.stats.parsed <= found.sessions.len()
            &&& found.stats.parsed == 0 <==> found.sessions.len() == 0
            &&& request.target() is None ==> found.stats.candidates == sessions.len()
        }),
    decreases sessions.len(),
{
    if sessions.len() > 0 {
        law_counts_add_up(sessions.drop_last(), db_path, request);
    }
}

/// A forced scan skips nothing, and what it finds depends neither on the time
/// since which sessions are of interest nor on what the index holds of them.
pub proof fn law_forced_scan_reads_everything(
    sessions: Seq<StoredSessionView>,
    db_path: Option<Seq<char>>,
    request: ScanRequestView,
    other: ScanRequestView,
)
    requires
        request.force,
        other.force,
        request.include_events == other.include_events,
        request.target() == other.target(),
    ensures
        scan::scanned(sessions, db_path, request) == scan::scanned(sessions, db_path, other),
        scan::scanned(sessions, db_path, request).stats.skipped_sessions == 0,
    decreases sessions.len(),
{
    if sessions.len() > 0 {
        law_forced_scan_reads_everything(sessions.drop_last(), db_path, request, other);
        let row = sessions.last().row;
        assert(request.is_candidate(row) == other.is_candidate(row));
        assert(request.decision(row) == other.decision(row));
    }
}

/// Whether `model` is made of a session of the store that is not hidden and that
/// the scan reads.
pub open spec fn comes_from(
    model: SessionModel,
    stored: StoredSessionView,
    db_path: Option<Seq<char>>,
    request: ScanRequestView,
) -> bool {
    &&& stored.row.hidden == 0
    &&& request.is_candidate(stored.row)
    &&& request.decision(stored.row) == RowDecision::Read
    &&& stored.content matches Some(content) && {
        &&& session_laws::belongs_to(
            model,
            request.session_scan(stored.row, content, db_path),
        )
        &&& request.sessions_of(stored.row, content, db_path).contains(model)
    }
}

/// Whether `model` is made of one of the sessions of the store.
pub open spec fn comes_from_some(
    model: SessionModel,
    sessions: Seq<StoredSessionView>,
    db_path: Option<Seq<char>>,
    request: ScanRequestView,
) -> bool {
    exists|i: int|
        0 <= i < sessions.len() && #[trigger] comes_from(model, sessions[i], db_path, request)
}

/// Every session that a scan finds holds something, is wanted, and is made of a
/// session of the store that is not hidden and that the scan reads.
pub proof fn law_sessions_come_from_the_store(
    sessions: Seq<StoredSessionView>,
    db_path: Option<Seq<char>>,
    request: ScanRequestView,
    at: int,
)
    requires
        0 <= at < scan::scanned(sessions, db_path, request).sessions.len(),
    ensures
        ({
            let model = scan::scanned(sessions, db_path, request).sessions[at];
            &&& session_laws::holds_something(model)
            &&& session::wanted(request.target(), model.source_id)
            &&& comes_from_some(model, sessions, db_path, request)
        }),
    decreases sessions.len(),
{
    let earlier = sessions.drop_last();
    let before = scan::scanned(earlier, db_path, request);
    let model = scan::scanned(sessions, db_path, request).sessions[at];
    if at < before.sessions.len() {
        law_sessions_come_from_the_store(earlier, db_path, request, at);
        assert(model == before.sessions[at]);
        let i = choose|i: int|
            0 <= i < earlier.len() && #[trigger] comes_from(model, earlier[i], db_path, request);
        assert(comes_from(model, sessions[i], db_path, request));
    } else {
        let stored = sessions.last();
        let content = stored.content->0;
        let found = request.sessions_of(stored.row, content, db_path);
        let k = at - before.sessions.len();
        assert(model == found[k]);
        session_laws::law_sessions_belong_together(
            request.session_scan(stored.row, content, db_path),
            k,
        );
        assert(comes_from(model, sessions[sessions.len() - 1], db_path, request));
    }
}

/// Every session that a session of the store makes is found, where the scan looks
/// at that session and reads it.
pub proof fn law_sessions_are_found(
    sessions: Seq<StoredSessionView>,
    db_path: Option<Seq<char>>,
    request: ScanRequestView,
    at: int,
    model: SessionModel,
)
    requires
        0 <= at < sessions.len(),
        request.is_candidate(sessions[at].row),
        request.decision(sessions[at].row) == RowDecision::Read,
        sessions[at].content is Some,
        request.sessions_of(sessions[at].row, sessions[at].content->0, db_path).contains(model),
    ensures
        scan::scanned(sessions, db_path, request).sessions.contains(model),
    decreases sessions.len(),
{
    let earlier = sessions.drop_last();
    let before = scan::scanned(earlier, db_path, request).sessions;
    let after = scan::scanned(sessions, db_path, request).sessions;
    if at < earlier.len() {
        law_sessions_are_found(earlier, db_path, request, at, model);
        let i = choose|i: int| 0 <= i < before.len() && before[i] == model;
        assert(after[i] == model);
    } else {
        let found = request.sessions_of(sessions[at].row, sessions[at].content->0, db_path);
        let k = choose|k: int| 0 <= k < found.len() && found[k] == model;
        assert(after[before.len() + k] == model);
    }
}

/// The index after a session was taken into it as it was updated at
/// `updated_at`.
pub open spec fn with_indexed(
    context: AdapterSyncContextView,
    source_id: Seq<char>,
    updated_at: i64,
) -> AdapterSyncContextView {
    AdapterSyncContextView {
        session_meta: context.session_meta.insert(source_id, Some(updated_at)),
        usage_state: context.usage_state.insert(
            source_id,
            ParserState {
                parser_version: USAGE_PARSER_VERSION,
                updated_at: Some(updated_at),
            },
        ),
        event_state: context.event_state.insert(
            source_id,
            ParserState {
                parser_version: EVENT_PARSER_VERSION,
                updated_at: Some(updated_at),
            },
        ),
        metadata_state: context.metadata_state.insert(
            source_id,
            ParserState {
                parser_version: METADATA_PARSER_VERSION,
                updated_at: Some(updated_at),
            },
        ),
        target: context.target,
    }
}

/// A session that was taken into the index is not read again before it changes,
/// unless the scan is forced; once it was active at another time it is.
pub proof fn law_indexed_session_is_read_once(
    row: SessionRowView,
    context: AdapterSyncContextView,
    since_ts: Option<i64>,
    include_events: bool,
    force: bool,
    updated_at: i64,
)
    ensures
        ({
            let now = store::in_milliseconds(row.last_activity_at);
            let decided = sync::decision(
                row,
                Some(with_indexed(context, row.id, updated_at)),
                since_ts,
                include_events,
                force,
            );
            let alone = sync::decision(row, None, since_ts, include_events, force);
            &&& alone == RowDecision::Filter ==> decided == RowDecision::Filter
            &&& alone != RowDecision::Filter ==> decided == (if !force && now == updated_at {
                RowDecision::Skip
            } else {
                RowDecision::Read
            })
        }),
{
}

/// A session that the index does not know, or that another version of one of the
/// parsers read, is never skipped.
pub proof fn law_outdated_session_is_not_skipped(
    row: SessionRowView,
    context: AdapterSyncContextView,
    since_ts: Option<i64>,
    include_events: bool,
    force: bool,
)
    requires
        ({
            ||| !context.session_meta.contains_key(row.id)
            ||| !context.usage_state.contains_key(row.id)
            ||| !context.metadata_state.contains_key(row.id)
            ||| context.usage_state[row.id].parser_version != USAGE_PARSER_VERSION
            ||| context.metadata_state[row.id].parser_version != METADATA_PARSER_VERSION
            ||| include_events && !context.event_state.contains_key(row.id)
            ||| include_events && context.event_state[row.id].parser_version
                != EVENT_PARSER_VERSION
        }),
    ensures
        sync::decision(row, Some(context), since_ts, include_events, force) != RowDecision::Skip,
{
}

/// The request with every session wanted.
pub open spec fn for_all(request: ScanRequestView) -> ScanRequestView {
    ScanRequestView {
        context: match request.context {
            Some(context) => Some(AdapterSyncContextView { target: None, ..context }),
            None => None,
        },
        ..request
    }
}

/// Whether `source_id` can be the id of a session that the session `session_id`
/// of the store makes.
pub open spec fn can_be_of(source_id: Seq<char>, session_id: Seq<char>) -> bool {
    ||| source_id == session_id
    ||| exists|agent_id: Seq<char>|
        source_id == #[trigger] session::subagent_id(session_id, agent_id)
}

proof fn lemma_other_ids(scan: SessionScanView, target: Seq<char>)
    requires
        scan.target is None,
        !can_be_of(target, scan.session.id),
    ensures
        session_laws::with_id(scan.sessions(), target).len() == 0,
{
    let narrow = SessionScanView { target: Some(target), ..scan };
    session_laws::law_target_selects_by_id(scan, target);
    if narrow.sessions().len() > 0 {
        session_laws::law_sessions_belong_together(narrow, 0);
        assert(can_be_of(narrow.sessions()[0].source_id, scan.session.id));
    }
}

/// A scan for one session, be it that of a subagent, finds exactly the sessions
/// with its id that a scan for all finds. The wanted id must not be that of a
/// session that the part before its first colon does not lead to: a session of the
/// store whose own id holds a colon is not found by it.
pub proof fn law_target_selects_from_all(
    sessions: Seq<StoredSessionView>,
    db_path: Option<Seq<char>>,
    request: ScanRequestView,
)
    requires
        request.target() is Some,
        forall|i: int|
            0 <= i < sessions.len() && can_be_of(
                request.target()->0,
                (#[trigger] sessions[i]).row.id,
            ) ==> sessions[i].row.id == text::before_colon(request.target()->0),
    ensures
        scan::scanned(sessions, db_path, request).sessions == session_laws::with_id(
            scan::scanned(sessions, db_path, for_all(request)).sessions,
            request.target()->0,
        ),
    decreases sessions.len(),
{
    let target = request.target()->0;
    let all = for_all(request);
    if sessions.len() == 0 {
        session_laws::lemma_none_with_id(target);
    } else {
        let earlier = sessions.drop_last();
        assert forall|i: int|
            0 <= i < earlier.len() && can_be_of(target, (#[trigger] earlier[i]).row.id) implies
            earlier[i].row.id == text::before_colon(target) by {
            assert(earlier[i] == sessions[i]);
        }
        law_target_selects_from_all(earlier, db_path, request);
        let stored = sessions.last();
        assert(stored == sessions[sessions.len() - 1]);
        let row = stored.row;
        assert(all.is_candidate(row));
        assert(all.decision(row) == request.decision(row));
        if let Some(content) = stored.content {
            let wide = all.session_scan(row, content, db_path);
            let narrow = request.session_scan(row, content, db_path);
            assert(narrow == SessionScanView { target: Some(target), ..wide });
            session_laws::law_target_selects_by_id(wide, target);
            let before = scan::scanned(earlier, db_path, all).sessions;
            Seq::filter_distributes_over_add(
                before,
                wide.sessions(),
                |model: SessionModel| model.source_id == target,
            );
            if !request.is_candidate(row) {
                lemma_other_ids(wide, target);
            }
            assert(before + Seq::<SessionModel>::empty() =~= before);
            session_laws::lemma_none_with_id(target);
        }
        assert(scan::scanned(sessions, db_path, request).sessions =~= session_laws::with_id(
            scan::scanned(sessions, db_path, all).sessions,
            target,
        ));
    }
}

/// A session of the store whose id holds no colon is found by its own id and by
/// those of its subagents.
pub proof fn law_ids_without_colon_are_found(session_id: Seq<char>, source_id: Seq<char>)
    requires
        !session_id.contains(':'),
        can_be_of(source_id, session_id),
    ensures
        session_id == text::before_colon(source_id),
{
    if source_id == session_id {
        session_laws::law_subagent_leads_to_its_parent(
            session_id,
            Seq::empty(),
            AdapterSyncContextView::empty(),
        );
    } else {
        let agent_id = choose|agent_id: Seq<char>|
            source_id == #[trigger] session::subagent_id(session_id, agent_id);
        session_laws::law_subagent_leads_to_its_parent(
            session_id,
            agent_id,
            AdapterSyncContextView::empty(),
        );
    }
}

proof fn lemma_distinct(texts: Seq<Seq<char>>)
    ensures
        scan::distinct(texts).no_duplicates(),
        forall|text: Seq<char>| #[trigger]
            scan::distinct(texts).contains(text) <==> texts.contains(text),
    decreases texts.len(),
{
    if texts.len() > 0 {
        let earlier = texts.drop_last();
        let before = scan::distinct(earlier);
        let last = texts.last();
        lemma_distinct(earlier);
        assert forall|text: Seq<char>| #[trigger]
            scan::distinct(texts).contains(text) <==> texts.contains(text) by {
            if before.contains(text) {
                let k = choose|k: int| 0 <= k < earlier.len() && earlier[k] == text;
                assert(texts[k] == text);
                let j = choose|j: int| 0 <= j < before.len() && before[j] == text;
                assert(before.push(last)[j] == text);
            } else if texts.contains(text) {
                let k = choose|k: int| 0 <= k < texts.len() && texts[k] == text;
                if k < earlier.len() {
                    assert(earlier[k] == text);
                }
                assert(before.push(last)[before.len() as int] == last);
            }
            if text == last {
                assert(texts[texts.len() - 1] == last);
            }
        }
    }
}

proof fn lemma_readable(rows: Seq<Option<Seq<char>>>)
    ensures
        forall|text: Seq<char>| #[trigger]
            store::readable(rows).contains(text) <==> rows.contains(Some(text)),
        scan::unreadable(rows) == 0 <==> !rows.contains(None),
    decreases rows.len(),
{
    if rows.len() > 0 {
        let earlier = rows.drop_last();
        lemma_readable(earlier);
        assert(rows =~= earlier.push(rows.last()));
        assert(forall|row: Option<Seq<char>>|
            rows.contains(row) <==> earlier.contains(row) || row == rows.last()) by {
            broadcast use vstd::seq_lib::group_seq_properties;

        }
        assert forall|text: Seq<char>| #[trigger]
            store::readable(rows).contains(text) <==> rows.contains(Some(text)) by {
            broadcast use vstd::seq_lib::group_seq_properties;

            let before = store::readable(earlier);
            if let Some(last) = rows.last() {
                assert(store::readable(rows) == before.push(last));
            }
            assert(before.contains(text) <==> earlier.contains(Some(text)));
        }
    }
}

/// The live sessions are those whose id could be read, each once, and there is an
/// issue unless all could be.
pub proof fn law_live_ids_are_the_readable_ones(live: LiveRowsView, db_path: PathBuf)
    ensures
        live.ids().no_duplicates(),
        forall|id: Seq<char>| #[trigger]
            live.ids().contains(id) <==> live.rows().contains(Some(id)),
        live.issues(db_path).len() == 0 <==> !live.rows().contains(None),
{
    lemma_distinct(store::readable(live.rows()));
    lemma_readable(live.rows());
    assert forall|id: Seq<char>| #[trigger]
        live.ids().contains(id) <==> live.rows().contains(Some(id)) by {
        assert(store::readable(live.rows()).contains(id) <==> live.rows().contains(Some(id)));
    }
}

/// The index is told which sessions are left only where every live id could be
/// read, and then they are exactly those that were read. Which session a scan is
/// restricted to makes no difference.
pub proof fn law_nothing_is_forgotten_in_part(
    store: Option<StoreSnapshotView>,
    request: ScanRequestView,
)
    ensures
        scan::scan_model(store, request).reconcile matches Some(
            ReconcilePlanView::CompleteLiveSet(ids),
        ) ==> {
            &&& store matches Some(store)
            &&& store.has_sessions && store.has_message_nodes && store.sessions is Some
            &&& store.live matches Some(live)
            &&& !live.rows().contains(None)
            &&& forall|id: Seq<char>| #[trigger]
                ids.contains(id) <==> live.rows().contains(Some(id))
        },
        scan::scan_model(store, request).reconcile == scan::scan_model(
            store,
            for_all(request),
        ).reconcile,
{
    if let Some(store) = store {
        if let Some(live) = store.live {
            law_live_ids_are_the_readable_ones(live, store.db_path);
        }
    }
}

/// Where the store cannot be read, nothing is found; an index that holds sessions
/// is told so, and one that holds none is told nothing.
pub proof fn law_unreadable_store_changes_nothing(
    store: Option<StoreSnapshotView>,
    request: ScanRequestView,
)
    requires
        store matches Some(store) ==> !store.has_sessions || !store.has_message_nodes
            || store.live is None || store.sessions is None,
    ensures
        scan::scan_model(store, request).scan == ScanResultModel::empty(),
        scan::scan_model(store, request).reconcile is Some <==> (request.context matches Some(
            context,
        ) && exists|id: Seq<char>| #[trigger] context.session_meta.contains_key(id)),
        scan::scan_model(store, request).reconcile matches Some(plan) ==> plan
            == ReconcilePlanView::UnavailableInventory(Seq::empty()),
{
    if let Some(context) = request.context {
        let none = Map::<Seq<char>, Option<i64>>::empty();
        if context.session_meta != none {
            assert(exists|id: Seq<char>| #[trigger] context.session_meta.contains_key(id)) by {
                if forall|id: Seq<char>| !(#[trigger] context.session_meta.contains_key(id)) {
                    assert(context.session_meta =~= none);
                }
            }
        }
    }
}

proof fn lemma_kept_rows(
    sessions: Seq<StoredSessionView>,
    db_path: Option<Seq<char>>,
    request: ScanRequestView,
    other: ScanRequestView,
    keep: spec_fn(StoredSessionView) -> bool,
)
    requires
        request.target() == other.target(),
        request.include_events == other.include_events,
        forall|stored: StoredSessionView|
            (request.decision(#[trigger] stored.row) == RowDecision::Read) == (keep(stored)
                && other.decision(stored.row) == RowDecision::Read),
    ensures
        scan::scanned(sessions, db_path, request).sessions == scan::scanned(
            sessions.filter(keep),
            db_path,
            other,
        ).sessions,
    decreases sessions.len(),
{
    reveal(Seq::filter);
    if sessions.len() > 0 {
        let earlier = sessions.drop_last();
        let stored = sessions.last();
        lemma_kept_rows(earlier, db_path, request, other, keep);
        assert(request.is_candidate(stored.row) == other.is_candidate(stored.row));
        if keep(stored) {
            assert(sessions.filter(keep) == earlier.filter(keep).push(stored));
            assert(earlier.filter(keep).push(stored).drop_last() =~= earlier.filter(keep));
        }
        if let Some(content) = stored.content {
            assert(request.session_scan(stored.row, content, db_path) == other.session_scan(
                stored.row,
                content,
                db_path,
            ));
        }
        assert(scan::scanned(sessions, db_path, request).sessions =~= scan::scanned(
            sessions.filter(keep),
            db_path,
            other,
        ).sessions);
    }
}

/// A scan with a cutoff finds what a scan without one finds among the sessions that
/// were active at the cutoff or later, unless it is forced.
pub proof fn law_cutoff_is_a_filter(
    sessions: Seq<StoredSessionView>,
    db_path: Option<Seq<char>>,
    request: ScanRequestView,
    cutoff: i64,
)
    requires
        !request.force,
        request.since_ts == Some(cutoff),
    ensures
        scan::scanned(sessions, db_path, request).sessions == scan::scanned(
            sessions.filter(
                |stored: StoredSessionView|
                    store::in_milliseconds(stored.row.last_activity_at) >= cutoff,
            ),
            db_path,
            (ScanRequestView { since_ts: None, ..request }),
        ).sessions,
{
    lemma_kept_rows(
        sessions,
        db_path,
        request,
        ScanRequestView { since_ts: None, ..request },
        |stored: StoredSessionView|
            store::in_milliseconds(stored.row.last_activity_at) >= cutoff,
    );
}

/// A scan that is not forced finds what a forced one finds among the sessions that
/// it decides to read.
pub proof fn law_plain_scan_reads_like_a_forced_one(
    sessions: Seq<StoredSessionView>,
    db_path: Option<Seq<char>>,
    request: ScanRequestView,
)
    ensures
        scan::scanned(sessions, db_path, request).sessions == scan::scanned(
            sessions.filter(
                |stored: StoredSessionView| request.decision(stored.row) == RowDecision::Read,
            ),
            db_path,
            (ScanRequestView { force: true, ..request }),
        ).sessions,
{
    lemma_kept_rows(
        sessions,
        db_path,
        request,
        ScanRequestView { force: true, ..request },
        |stored: StoredSessionView| request.decision(stored.row) == RowDecision::Read,
    );
}

/// Whether no two sessions of the store have the same id, no id holds a colon, and
/// no two subagents of a session have the same id.
pub open spec fn store_ids_differ(sessions: Seq<StoredSessionView>) -> bool {
    &&& forall|i: int, j: int|
        #![trigger sessions[i], sessions[j]]
        0 <= i < j < sessions.len() ==> sessions[i].row.id != sessions[j].row.id
    &&& forall|i: int|
        0 <= i < sessions.len() ==> {
            &&& !(#[trigger] sessions[i]).row.id.contains(':')
            &&& sessions[i].content matches Some(content) ==> session_laws::agents_differ(
                content.heads,
            )
        }
}

/// Whether the live rows list a session of the store and its subagents.
pub open spec fn lists(live: LiveRowsView, stored: StoredSessionView) -> bool {
    &&& live.rows().contains(Some(stored.row.id))
    &&& stored.content matches Some(content) ==> forall|i: int|
        0 <= i < content.heads.len() ==> live.rows().contains(
            Some(session::subagent_id(stored.row.id, (#[trigger] content.heads[i]).0)),
        )
}

proof fn lemma_origin(
    sessions: Seq<StoredSessionView>,
    db_path: Option<Seq<char>>,
    request: ScanRequestView,
    at: int,
) -> (i: int)
    requires
        store_ids_differ(sessions),
        0 <= at < scan::scanned(sessions, db_path, request).sessions.len(),
    ensures
        0 <= i < sessions.len(),
        comes_from(
            scan::scanned(sessions, db_path, request).sessions[at],
            sessions[i],
            db_path,
            request,
        ),
        text::before_colon(scan::scanned(sessions, db_path, request).sessions[at].source_id)
            == sessions[i].row.id,
{
    let model = scan::scanned(sessions, db_path, request).sessions[at];
    law_sessions_come_from_the_store(sessions, db_path, request, at);
    let i = choose|i: int|
        0 <= i < sessions.len() && #[trigger] comes_from(model, sessions[i], db_path, request);
    assert(can_be_of(model.source_id, sessions[i].row.id));
    law_ids_without_colon_are_found(sessions[i].row.id, model.source_id);
    i
}

proof fn lemma_found_ids_differ(
    sessions: Seq<StoredSessionView>,
    db_path: Option<Seq<char>>,
    request: ScanRequestView,
)
    requires
        store_ids_differ(sessions),
    ensures
        session_laws::ids_differ(scan::scanned(sessions, db_path, request).sessions),
    decreases sessions.len(),
{
    if sessions.len() > 0 {
        let earlier = sessions.drop_last();
        let stored = sessions.last();
        assert(store_ids_differ(earlier)) by {
            assert(forall|i: int|
                0 <= i < earlier.len() ==> #[trigger] earlier[i] == sessions[i]);
        }
        lemma_found_ids_differ(earlier, db_path, request);
        let before = scan::scanned(earlier, db_path, request).sessions;
        let after = scan::scanned(sessions, db_path, request).sessions;
        assert(sessions[sessions.len() - 1] == stored);
        if after != before {
            let own = request.session_scan(stored.row, stored.content->0, db_path);
            let found = own.sessions();
            assert(after == before + found);
            session_laws::law_ids_of_a_session_differ(own);
            assert forall|i: int, j: int|
                #![trigger after[i], after[j]]
                0 <= i < j < after.len() implies after[i].source_id != after[j].source_id by {
                let end = before.len() as int;
                if j < end {
                    assert(after[i] == before[i] && after[j] == before[j]);
                } else if i >= end {
                    assert(after[i] == found[i - end] && after[j] == found[j - end]);
                } else {
                    assert(after[i] == before[i] && after[j] == found[j - end]);
                    let k = lemma_origin(earlier, db_path, request, i);
                    assert(earlier[k] == sessions[k]);
                    session_laws::law_sessions_belong_together(own, j - end);
                    assert(can_be_of(found[j - end].source_id, stored.row.id));
                    law_ids_without_colon_are_found(stored.row.id, found[j - end].source_id);
                    assert(sessions[k].row.id != sessions[sessions.len() - 1].row.id);
                }
            }
        }
    }
}

/// The two halves of a scan agree: where the live rows list every session that is
/// not hidden, and its subagents, each session that is found is live, and no two
/// that are found have the same id.
pub proof fn law_found_sessions_are_live(
    sessions: Seq<StoredSessionView>,
    db_path: Option<Seq<char>>,
    request: ScanRequestView,
    live: LiveRowsView,
)
    requires
        store_ids_differ(sessions),
        forall|i: int|
            0 <= i < sessions.len() && (#[trigger] sessions[i]).row.hidden == 0 ==> lists(
                live,
                sessions[i],
            ),
    ensures
        forall|at: int|
            0 <= at < scan::scanned(sessions, db_path, request).sessions.len()
                ==> live.ids().contains(
                (#[trigger] scan::scanned(sessions, db_path, request).sessions[at]).source_id,
            ),
        session_laws::ids_differ(scan::scanned(sessions, db_path, request).sessions),
{
    let found = scan::scanned(sessions, db_path, request).sessions;
    lemma_found_ids_differ(sessions, db_path, request);
    lemma_distinct(store::readable(live.rows()));
    lemma_readable(live.rows());
    assert forall|at: int| 0 <= at < found.len() implies live.ids().contains(
        (#[trigger] found[at]).source_id,
    ) by {
        let i = lemma_origin(sessions, db_path, request, at);
        let id = found[at].source_id;
        let stored = sessions[i];
        let own = request.session_scan(stored.row, stored.content->0, db_path);
        assert(lists(live, stored));
        if id != stored.row.id {
            let k = choose|k: int|
                0 <= k < own.heads.len() && id == session::subagent_id(
                    stored.row.id,
                    (#[trigger] own.heads[k]).0,
                );
            assert(live.rows().contains(
                Some(session::subagent_id(stored.row.id, stored.content->0.heads[k].0)),
            ));
        }
        assert(store::readable(live.rows()).contains(id));
        assert(scan::distinct(store::readable(live.rows())).contains(id));
    }
}

/// Whether the index holds a session as it was updated at `updated_at`: what it knows
/// of the session, and what each parser read of it, is of that time, and of the
/// present version of the parser. The events count where they are wanted.
pub open spec fn holds_as_it_is(
    context: AdapterSyncContextView,
    source_id: Seq<char>,
    updated_at: i64,
    include_events: bool,
) -> bool {
    let read = ParserState { parser_version: 1, updated_at: Some(updated_at) };
    &&& context.session_meta.contains_key(source_id)
    &&& context.session_meta[source_id] == Some(updated_at)
    &&& context.usage_state.contains_key(source_id)
    &&& context.usage_state[source_id] == read
    &&& context.metadata_state.contains_key(source_id)
    &&& context.metadata_state[source_id] == read
    &&& include_events ==> context.event_state.contains_key(source_id)
        && context.event_state[source_id] == read
}

/// A session of the store is filtered only where it is hidden or, in a scan that is
/// not forced, was last active before the cutoff. Of the others one is skipped only
/// where the scan is not forced and the index holds the session as it is; all the
/// rest are read.
pub proof fn law_rows_are_filtered_skipped_or_read(
    row: SessionRowView,
    context: Option<AdapterSyncContextView>,
    since_ts: Option<i64>,
    include_events: bool,
    force: bool,
)
    ensures
        ({
            let decided = sync::decision(row, context, since_ts, include_events, force);
            let active = store::in_milliseconds(row.last_activity_at);
            let too_old = !force && since_ts is Some && active < since_ts->0;
            let held = !force && context is Some && holds_as_it_is(
                context->0,
                row.id,
                active,
                include_events,
            );
            &&& decided == RowDecision::Filter <==> row.hidden != 0 || too_old
            &&& decided == RowDecision::Skip <==> row.hidden == 0 && !too_old && held
            &&& decided == RowDecision::Read <==> row.hidden == 0 && !too_old && !held
        }),
{
}

/// What a parser read is current where the same version read it at the same time.
pub proof fn law_parser_states_are_compared_whole(
    version: u32,
    other_version: u32,
    state: Option<ParserState>,
    other_state: Option<ParserState>,
    updated_at: Option<i64>,
    include_events: bool,
)
    ensures
        sync::parser_current(version, state, updated_at) <==> state == Some(
            ParserState { parser_version: version, updated_at },
        ),
        sync::session_current(
            version,
            other_version,
            state,
            other_state,
            updated_at,
            include_events,
        ) <==> state == Some(ParserState { parser_version: version, updated_at }) && (include_events
            ==> other_state == Some(ParserState { parser_version: other_version, updated_at })),
{
}

/// A scan makes its decisions by the row, the index, the cutoff, and whether events
/// are wanted and the scan is forced. It looks at all sessions, or, where one is
/// wanted, at that whose id stands before the first colon of the wanted id. What it
/// reads, it reads with the times of the row in milliseconds.
pub proof fn law_request_is_handed_on(
    request: ScanRequestView,
    row: SessionRowView,
    content: SessionContentView,
    db_path: Option<Seq<char>>,
)
    ensures
        request.decision(row) == sync::decision(
            row,
            request.context,
            request.since_ts,
            request.include_events,
            request.force,
        ),
        request.is_candidate(row) <==> request.context is None || request.context->0.target is None
            || row.id == text::before_colon(request.context->0.target->0),
        ({
            let handed = request.session_scan(row, content, db_path);
            &&& handed.session == row
            &&& handed.nodes == content.nodes
            &&& handed.heads == content.heads
            &&& handed.db_path == db_path
            &&& request.context is None ==> handed.target is None
            &&& request.context matches Some(context) ==> handed.target == context.target
            &&& handed.started_at == store::in_milliseconds(row.created_at)
            &&& handed.updated_at == store::in_milliseconds(row.last_activity_at)
            &&& handed.include_events == request.include_events
        }),
{
}

/// A scan goes session by session: of two runs it finds what it finds of each, in
/// their order, and its counts are the sums.
pub proof fn law_scan_goes_session_by_session(
    sessions: Seq<StoredSessionView>,
    more: Seq<StoredSessionView>,
    db_path: Option<Seq<char>>,
    request: ScanRequestView,
)
    ensures
        ({
            let one = scan::scanned(sessions, db_path, request);
            let other = scan::scanned(more, db_path, request);
            let both = scan::scanned(sessions + more, db_path, request);
            &&& both.sessions == one.sessions + other.sessions
            &&& both.stats.candidates == one.stats.candidates + other.stats.candidates
            &&& both.stats.filtered_sessions == one.stats.filtered_sessions
                + other.stats.filtered_sessions
            &&& both.stats.skipped_sessions == one.stats.skipped_sessions
                + other.stats.skipped_sessions
            &&& both.stats.parsed == one.stats.parsed + other.stats.parsed
        }),
    decreases more.len(),
{
    let one = scan::scanned(sessions, db_path, request);
    let other = scan::scanned(more, db_path, request);
    let both = scan::scanned(sessions + more, db_path, request);
    if more.len() == 0 {
        assert(sessions + more =~= sessions);
    } else {
        law_scan_goes_session_by_session(sessions, more.drop_last(), db_path, request);
        assert((sessions + more).drop_last() =~= sessions + more.drop_last());
    }
    assert(both.sessions =~= one.sessions + other.sessions);
}

/// What a scan makes of one session of the store. One that it does not look at counts
/// nowhere. One that it filters or skips counts as such. One that it reads makes its
/// sessions and counts as parsed, or as filtered where it makes none, or only as a
/// candidate where its content could not be read.
pub proof fn law_scan_of_one_session(
    stored: StoredSessionView,
    db_path: Option<Seq<char>>,
    request: ScanRequestView,
)
    ensures
        ({
            let found = scan::scanned(seq![stored], db_path, request);
            let looked_at = request.is_candidate(stored.row);
            let decided = request.decision(stored.row);
            let read = looked_at && decided == RowDecision::Read && stored.content is Some;
            let made = request.session_scan(stored.row, stored.content->0, db_path).sessions();
            &&& found.stats.candidates == (if looked_at {
                1nat
            } else {
                0nat
            })
            &&& found.stats.filtered_sessions == (if looked_at && decided == RowDecision::Filter
                || read && made.len() == 0 {
                1nat
            } else {
                0nat
            })
            &&& found.stats.skipped_sessions == (if looked_at && decided == RowDecision::Skip {
                1nat
            } else {
                0nat
            })
            &&& found.stats.parsed == (if read && made.len() > 0 {
                1nat
            } else {
                0nat
            })
            &&& read ==> found.sessions == made
            &&& !read ==> found.sessions.len() == 0
        }),
{
    reveal_with_fuel(scan::scanned, 2);
    assert(seq![stored].drop_last() =~= Seq::empty());
    let made = request.session_scan(stored.row, stored.content->0, db_path).sessions();
    assert(Seq::<SessionModel>::empty() + made =~= made);
}

/// The rows of an inventory: those of the sessions, and then those of the subagents,
/// where there is a table of them.
pub open spec fn all_rows(live: LiveRowsView) -> Seq<Option<Seq<char>>> {
    if live.subagents is Some {
        live.sessions + live.subagents->0
    } else {
        live.sessions
    }
}

proof fn lemma_unreadable(rows: Seq<Option<Seq<char>>>)
    ensures
        scan::unreadable(rows) == rows.filter(|row: Option<Seq<char>>| row is None).len(),
    decreases rows.len(),
{
    reveal(Seq::filter);
    if rows.len() > 0 {
        lemma_unreadable(rows.drop_last());
    }
}

/// Where the store can be read, the index is told which sessions are left, unless the
/// id of one could not be read; then it is told of each such row, with the path of
/// the store. What is found is what the scan of its sessions finds.
pub proof fn law_index_is_told_what_is_left(
    store: StoreSnapshotView,
    request: ScanRequestView,
    sessions: Seq<StoredSessionView>,
    live: LiveRowsView,
)
    requires
        store.has_sessions,
        store.has_message_nodes,
        store.live == Some(live),
        store.sessions == Some(sessions),
    ensures
        ({
            let given = scan::scan_model(Some(store), request);
            let rows = all_rows(live);
            &&& given.scan == scan::scanned(sessions, paths::path_text(store.db_path), request)
            &&& !rows.contains(None) ==> (given.reconcile matches Some(
                ReconcilePlanView::CompleteLiveSet(ids),
            ) && {
                &&& ids.no_duplicates()
                &&& forall|id: Seq<char>| #[trigger]
                    ids.contains(id) <==> rows.contains(Some(id))
            })
            &&& rows.contains(None) ==> (given.reconcile matches Some(
                ReconcilePlanView::PartialInventory(issues),
            ) && {
                &&& issues.len() == rows.filter(|row: Option<Seq<char>>| row is None).len()
                &&& forall|i: int|
                    0 <= i < issues.len() ==> (#[trigger] issues[i]).path == store.db_path
                        && issues[i].category == IssueCategory::InvalidData
            })
        }),
{
    law_live_ids_are_the_readable_ones(live, store.db_path);
    lemma_unreadable(live.rows());
    assert(live.rows() == all_rows(live));
    assert forall|id: Seq<char>| #[trigger]
        live.ids().contains(id) <==> all_rows(live).contains(Some(id)) by {}
}

/// What a scan gives is what its model says, part by part.
pub proof fn law_scan_is_what_its_model_says<F: Fn(&ShellQuery) -> ShellEvidence>(
    output: SyncScanOutput,
    model: ScanModel,
    shell: F,
)
    requires
        output.stands_for(model, shell),
    ensures
        output.scan.sessions@.len() == model.scan.sessions.len(),
        forall|i: int|
            0 <= i < model.scan.sessions.len() ==> model.scan.sessions[i].stands_for(
                #[trigger] output.scan.sessions@[i],
                shell,
            ),
        output.scan.stats.candidates == model.scan.stats.candidates,
        output.scan.stats.filtered_sessions == model.scan.stats.filtered_sessions,
        output.scan.stats.skipped_sessions == model.scan.stats.skipped_sessions,
        output.scan.stats.parsed == model.scan.stats.parsed,
        output.reconcile.deep_view() == model.reconcile,
{
    assert forall|i: int| 0 <= i < model.scan.sessions.len() implies model.scan.sessions[i]
        .stands_for(#[trigger] output.scan.sessions@[i], shell) by {
        assert(model.scan.sessions[i].stands_for(output.scan.sessions@[i], shell));
    }
}

/// The session that has to be read for a wanted one is that whose id stands before
/// the first colon of the wanted id.
pub proof fn law_wanted_session_stands_before_the_colon(context: AdapterSyncContextView)
    ensures
        match context.target {
            Some(target) => context.target_session() == Some(text::before_colon(target)),
            None => context.target_session() is None,
        },
{
}

} // verus!

//! What holds of every session that a session of the store makes.

use vstd::prelude::*;

use crate::chain;
use crate::parse::ScopeView;
use crate::session;
use crate::session::{SessionModel, SessionScanView};
use crate::store::{MessageNodeView, SessionRowView};
use crate::sync::AdapterSyncContextView;
use crate::text;
use crate::transcript_laws;
use crate::types::{ParentLinkView, ParentRelation, ThreadRole};

verus! {

/// Whether a session holds anything.
pub open spec fn holds_something(model: SessionModel) -> bool {
    model.messages.len() > 0 || model.usage_events.len() > 0 || model.events.len() > 0
}

/// A session that is made holds something.
pub proof fn law_no_session_is_empty(
    session: SessionRowView,
    source_id: Seq<char>,
    db_path: Option<Seq<char>>,
    started_at: i64,
    updated_at: i64,
    nodes: Seq<MessageNodeView>,
    include_events: bool,
)
    ensures
        session::session_model(
            session,
            source_id,
            db_path,
            started_at,
            updated_at,
            nodes,
            include_events,
        ) matches Some(model) ==> holds_something(model),
{
    if !include_events {
        transcript_laws::law_events_are_separate(
            nodes,
            ScopeView {
                session,
                directory: text::trimmed(session.working_directory),
                db_path,
                include_events,
            },
        );
    }
}

/// Each node of a session belongs either to the session itself or to one of its
/// subagents, and not to both.
pub proof fn law_nodes_are_divided(
    nodes: Seq<MessageNodeView>,
    heads: Seq<(Seq<char>, i64)>,
    at: int,
)
    requires
        0 <= at < nodes.len(),
    ensures
        session::main_nodes(nodes, heads).contains(nodes[at]) <==> !exists|i: int|
            0 <= i < heads.len() && #[trigger] session::subagent_nodes(
                nodes,
                heads[i].1,
            ).contains(nodes[at]),
{
    let node = nodes[at];
    let parents = session::parents_of(nodes);
    let outside = |node: MessageNodeView|
        !session::in_some_chain(parents, heads, node.node_id);
    let main = session::main_nodes(nodes, heads);
    assert(main == nodes.filter(outside));
    if main.contains(node) {
        let k = choose|k: int| 0 <= k < main.len() && main[k] == node;
        nodes.lemma_filter_pred(outside, k);
        assert forall|i: int| 0 <= i < heads.len() implies !(#[trigger] session::subagent_nodes(
            nodes,
            heads[i].1,
        ).contains(node)) by {
            let inside = |node: MessageNodeView|
                chain::chain(parents, heads[i].1).contains(node.node_id);
            let own = session::subagent_nodes(nodes, heads[i].1);
            assert(own == nodes.filter(inside));
            if own.contains(node) {
                let k = choose|k: int| 0 <= k < own.len() && own[k] == node;
                nodes.lemma_filter_pred(inside, k);
            }
        }
    } else {
        if outside(nodes[at]) {
            nodes.lemma_filter_contains(outside, at);
        }
        let i = choose|i: int|
            0 <= i < heads.len() && #[trigger] chain::chain(parents, heads[i].1).contains(
                node.node_id,
            );
        let inside = |node: MessageNodeView|
            chain::chain(parents, heads[i].1).contains(node.node_id);
        assert(session::subagent_nodes(nodes, heads[i].1) == nodes.filter(inside));
        nodes.lemma_filter_contains(inside, at);
    }
}

/// The session that is resumed for a subagent, and that is read where only the
/// subagent is wanted, is the one that spawned it. An id with a colon in it would
/// be cut short.
pub proof fn law_subagent_leads_to_its_parent(
    session_id: Seq<char>,
    agent_id: Seq<char>,
    context: AdapterSyncContextView,
)
    requires
        !session_id.contains(':'),
    ensures
        text::before_colon(session::subagent_id(session_id, agent_id)) == session_id,
        text::before_colon(session_id) == session_id,
        context.target == Some(session::subagent_id(session_id, agent_id))
            ==> context.target_session() == Some(session_id),
        context.target == Some(session_id) ==> context.target_session() == Some(session_id),
{
    reveal_strlit(":");
    assert(":"@ =~= seq![':']);
    text::lemma_colon_after(session_id, agent_id);
}

/// Whether `model` is the session itself, or that of one of its subagents, linked
/// to it.
pub open spec fn belongs_to(model: SessionModel, scan: SessionScanView) -> bool {
    ||| {
        &&& model.source_id == scan.session.id
        &&& model.thread_role is None
        &&& model.parent_links.len() == 0
    }
    ||| {
        &&& exists|i: int|
            0 <= i < scan.heads.len() && model.source_id == session::subagent_id(
                scan.session.id,
                (#[trigger] scan.heads[i]).0,
            )
        &&& model.thread_role == Some(ThreadRole::Subagent)
        &&& model.custom_title is None
        &&& model.parent_links == seq![
            ParentLinkView {
                relation: ParentRelation::Spawn,
                source: "devin"@,
                source_id: scan.session.id,
            },
        ]
    }
}

proof fn lemma_sessions_up_to(scan: SessionScanView, count: nat)
    requires
        count <= scan.heads.len(),
    ensures
        forall|i: int|
            0 <= i < scan.sessions_up_to(count).len() ==> {
                &&& session::wanted(
                    scan.target,
                    (#[trigger] scan.sessions_up_to(count)[i]).source_id,
                )
                &&& belongs_to(scan.sessions_up_to(count)[i], scan)
                &&& holds_something(scan.sessions_up_to(count)[i])
            },
    decreases count,
{
    if count == 0 {
        law_no_session_is_empty(
            scan.session,
            scan.session.id,
            scan.db_path,
            scan.started_at,
            scan.updated_at,
            session::main_nodes(scan.nodes, scan.heads),
            scan.include_events,
        );
    } else {
        lemma_sessions_up_to(scan, (count - 1) as nat);
        let head = scan.heads[count - 1];
        let nodes = session::subagent_nodes(scan.nodes, head.1);
        law_no_session_is_empty(
            scan.session,
            session::subagent_id(scan.session.id, head.0),
            scan.db_path,
            if nodes.len() > 0 {
                crate::store::in_milliseconds(nodes[0].created_at)
            } else {
                scan.started_at
            },
            scan.updated_at,
            nodes,
            scan.include_events,
        );
        let before = scan.sessions_up_to((count - 1) as nat);
        let after = scan.sessions_up_to(count);
        assert forall|i: int| 0 <= i < after.len() implies {
            &&& session::wanted(scan.target, (#[trigger] after[i]).source_id)
            &&& belongs_to(after[i], scan)
            &&& holds_something(after[i])
        } by {
            if i < before.len() {
                assert(after[i] == before[i]);
            } else {
                assert(after[i].source_id == session::subagent_id(scan.session.id, head.0));
                assert(belongs_to(after[i], scan));
            }
        }
    }
}

/// Every session that a session of the store makes is wanted, holds something,
/// and is that session or one of its subagents, linked to it.
pub proof fn law_sessions_belong_together(scan: SessionScanView, at: int)
    requires
        0 <= at < scan.sessions().len(),
    ensures
        session::wanted(scan.target, scan.sessions()[at].source_id),
        belongs_to(scan.sessions()[at], scan),
        holds_something(scan.sessions()[at]),
{
    lemma_sessions_up_to(scan, scan.heads.len());
}

/// The sessions with the id `source_id`.
pub open spec fn with_id(sessions: Seq<SessionModel>, source_id: Seq<char>) -> Seq<SessionModel> {
    sessions.filter(|model: SessionModel| model.source_id == source_id)
}

pub proof fn lemma_none_with_id(source_id: Seq<char>)
    ensures
        with_id(Seq::empty(), source_id) == Seq::<SessionModel>::empty(),
{
    reveal(Seq::filter);
}

proof fn lemma_with_id(sessions: Seq<SessionModel>, model: SessionModel, source_id: Seq<char>)
    ensures
        with_id(sessions.push(model), source_id) == (if model.source_id == source_id {
            with_id(sessions, source_id).push(model)
        } else {
            with_id(sessions, source_id)
        }),
{
    reveal(Seq::filter);
    assert(sessions.push(model).drop_last() =~= sessions);
}

proof fn lemma_targeted(scan: SessionScanView, target: Seq<char>, count: nat)
    requires
        scan.target is None,
    ensures
        (SessionScanView { target: Some(target), ..scan }).sessions_up_to(count) == with_id(
            scan.sessions_up_to(count),
            target,
        ),
    decreases count,
{
    let narrow = SessionScanView { target: Some(target), ..scan };
    let before = if count == 0 {
        Seq::empty()
    } else {
        scan.sessions_up_to((count - 1) as nat)
    };
    let next = if count == 0 {
        scan.main_session()
    } else {
        scan.subagent_session(count - 1)
    };
    if count > 0 {
        lemma_targeted(scan, target, (count - 1) as nat);
    }
    lemma_none_with_id(target);
    if let Some(model) = next {
        lemma_with_id(before, model, target);
        assert(scan.sessions_up_to(count) =~= before.push(model));
    }
    assert(narrow.sessions_up_to(count) =~= with_id(scan.sessions_up_to(count), target));
}

/// A scan for one session makes exactly those sessions with its id that a scan
/// for all makes.
pub proof fn law_target_selects_by_id(scan: SessionScanView, target: Seq<char>)
    requires
        scan.target is None,
    ensures
        (SessionScanView { target: Some(target), ..scan }).sessions() == with_id(
            scan.sessions(),
            target,
        ),
{
    lemma_targeted(scan, target, scan.heads.len());
    lemma_none_with_id(target);
}

/// Whether no two subagents have the same id.
pub open spec fn agents_differ(heads: Seq<(Seq<char>, i64)>) -> bool {
    forall|i: int, j: int|
        #![trigger heads[i], heads[j]]
        0 <= i < j < heads.len() ==> heads[i].0 != heads[j].0
}

/// Whether no two sessions have the same id.
pub open spec fn ids_differ(sessions: Seq<SessionModel>) -> bool {
    forall|i: int, j: int|
        #![trigger sessions[i], sessions[j]]
        0 <= i < j < sessions.len() ==> sessions[i].source_id != sessions[j].source_id
}

/// Whether `source_id` is that of the session or of one of its first `count`
/// subagents.
spec fn is_one_of(source_id: Seq<char>, scan: SessionScanView, count: nat) -> bool {
    ||| source_id == scan.session.id
    ||| exists|i: int|
        0 <= i < count && source_id == session::subagent_id(
            scan.session.id,
            (#[trigger] scan.heads[i]).0,
        )
}

proof fn lemma_subagent_ids(session_id: Seq<char>, one: Seq<char>, other: Seq<char>)
    ensures
        session::subagent_id(session_id, one) != session_id,
        session::subagent_id(session_id, one) == session::subagent_id(session_id, other)
            ==> one == other,
{
    reveal_strlit(":");
    let from = session_id.len() as int + 1;
    assert(session::subagent_id(session_id, one).len() > session_id.len());
    assert(session::subagent_id(session_id, one).skip(from) =~= one);
    assert(session::subagent_id(session_id, other).skip(from) =~= other);
}

proof fn lemma_ids_up_to(scan: SessionScanView, count: nat)
    requires
        count <= scan.heads.len(),
        agents_differ(scan.heads),
    ensures
        ids_differ(scan.sessions_up_to(count)),
        forall|i: int|
            0 <= i < scan.sessions_up_to(count).len() ==> is_one_of(
                (#[trigger] scan.sessions_up_to(count)[i]).source_id,
                scan,
                count,
            ),
    decreases count,
{
    if count > 0 {
        lemma_ids_up_to(scan, (count - 1) as nat);
        let before = scan.sessions_up_to((count - 1) as nat);
        let after = scan.sessions_up_to(count);
        let head = scan.heads[count - 1];
        assert forall|i: int| 0 <= i < after.len() implies is_one_of(
            (#[trigger] after[i]).source_id,
            scan,
            count,
        ) by {
            if i < before.len() {
                assert(after[i] == before[i]);
                if before[i].source_id != scan.session.id {
                    let k = choose|k: int|
                        0 <= k < count - 1 && before[i].source_id == session::subagent_id(
                            scan.session.id,
                            (#[trigger] scan.heads[k]).0,
                        );
                    assert(after[i].source_id == session::subagent_id(
                        scan.session.id,
                        scan.heads[k].0,
                    ));
                }
            } else {
                assert(after[i].source_id == session::subagent_id(scan.session.id, head.0));
            }
        }
        assert forall|i: int, j: int|
            #![trigger after[i], after[j]]
            0 <= i < j < after.len() implies after[i].source_id != after[j].source_id by {
            assert(after[i] == before[i]);
            if j < before.len() {
                assert(after[j] == before[j]);
            } else {
                lemma_subagent_ids(scan.session.id, head.0, head.0);
                if before[i].source_id != scan.session.id {
                    let k = choose|k: int|
                        0 <= k < count - 1 && before[i].source_id == session::subagent_id(
                            scan.session.id,
                            (#[trigger] scan.heads[k]).0,
                        );
                    assert(scan.heads[k].0 != scan.heads[count - 1].0);
                    lemma_subagent_ids(scan.session.id, scan.heads[k].0, head.0);
                }
            }
        }
    }
}

/// No two sessions that a session of the store makes have the same id, where no two
/// of its subagents have.
pub proof fn law_ids_of_a_session_differ(scan: SessionScanView)
    requires
        agents_differ(scan.heads),
    ensures
        ids_differ(scan.sessions()),
{
    lemma_ids_up_to(scan, scan.heads.len());
}

} // verus!

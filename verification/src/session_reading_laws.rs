//! The sessions that a session of the store makes, by its row and its nodes.

use vstd::prelude::*;

use crate::chain;
use crate::event_laws;
use crate::events::{ShellEvidence, ShellQuery};
use crate::json;
use crate::json::Json;
use crate::message_laws;
use crate::node_laws;
use crate::parse;
use crate::parse::{ParsedNodes, ScopeView, TranscriptModel};
use crate::session;
use crate::session::{SessionModel, SessionScanView};
use crate::store;
use crate::store::{MessageNodeView, SessionRowView};
use crate::text;
use crate::transcript_laws;
use crate::types::{ParentRelation, RawSession, ThreadRole};

verus! {

/// What the nodes of a session are read with: the directory of tools is the working
/// directory of the session without the white space at its ends.
pub open spec fn scope_of(
    row: SessionRowView,
    db_path: Option<Seq<char>>,
    include_events: bool,
) -> ScopeView {
    ScopeView {
        session: row,
        directory: text::trimmed(row.working_directory),
        db_path,
        include_events,
    }
}

/// Whether nothing was read.
pub open spec fn is_empty(read: TranscriptModel) -> bool {
    read.messages.len() == 0 && read.usage_events.len() == 0 && read.events.len() == 0
}

/// Whether `minutes` is the number of whole minutes from `created_at` to
/// `last_activity_at`: none where that is no later, and missing where they do not
/// fit.
pub open spec fn lasted(created_at: i64, last_activity_at: i64, minutes: Option<u32>) -> bool {
    match minutes {
        Some(minutes) => {
            &&& last_activity_at <= created_at ==> minutes == 0
            &&& last_activity_at > created_at ==> minutes * 60 <= last_activity_at - created_at
                < minutes * 60 + 60
        },
        None => last_activity_at - created_at >= 4_294_967_296 * 60,
    }
}

/// Whether `trimmed` is the text without the white space at its ends, or missing
/// where the text is missing or blank.
pub open spec fn trims_to(text: Option<Seq<char>>, trimmed: Option<Seq<char>>) -> bool {
    if text is Some && !text::blank(text->0) {
        trimmed == Some(text::trimmed(text->0))
    } else {
        trimmed is None
    }
}

/// Whether `model` carries what is read of `nodes`, all of it, and what the row says.
pub open spec fn carries(
    model: SessionModel,
    row: SessionRowView,
    db_path: Option<Seq<char>>,
    nodes: Seq<MessageNodeView>,
    include_events: bool,
) -> bool {
    let read = parse::transcript(nodes, scope_of(row, db_path, include_events));
    &&& !is_empty(read)
    &&& model.messages == read.messages
    &&& model.usage_events == read.usage_events
    &&& model.events == read.events
    &&& model.usage_parser_version == Some(1u32)
    &&& model.metadata_parser_version == Some(1u32)
    &&& include_events ==> model.event_parser_version == Some(1u32)
    &&& !include_events ==> model.event_parser_version is None
    &&& trims_to(Some(row.working_directory), model.directory)
    &&& lasted(row.created_at, row.last_activity_at, model.duration_minutes)
    &&& model.source_file_path == db_path
}

/// A session is made of nodes where anything is read of them. It carries all that is
/// read, and what its row says.
pub proof fn law_session_carries_what_is_read(
    row: SessionRowView,
    source_id: Seq<char>,
    db_path: Option<Seq<char>>,
    started_at: i64,
    updated_at: i64,
    nodes: Seq<MessageNodeView>,
    include_events: bool,
)
    ensures
        match session::session_model(
            row,
            source_id,
            db_path,
            started_at,
            updated_at,
            nodes,
            include_events,
        ) {
            Some(model) => {
                &&& carries(model, row, db_path, nodes, include_events)
                &&& model.source_id == source_id
                &&& model.started_at == started_at
                &&& model.updated_at == Some(updated_at)
                &&& trims_to(row.title, model.custom_title)
                &&& model.thread_role is None
                &&& model.parent_links.len() == 0
            },
            None => is_empty(parse::transcript(nodes, scope_of(row, db_path, include_events))),
        },
{
    let scope = scope_of(row, db_path, include_events);
    text::law_blank_is_trimmed_away(row.working_directory);
    if let Some(title) = row.title {
        text::law_blank_is_trimmed_away(title);
    }
    if !include_events {
        transcript_laws::law_events_are_separate(nodes, scope);
        assert(parse::transcript(nodes, scope).events =~= Seq::empty());
    }
}

/// Whether the nodes from `at` on have another id than `id`.
pub open spec fn none_from(nodes: Seq<MessageNodeView>, id: i64, at: int) -> bool {
    forall|i: int| at <= i < nodes.len() ==> (#[trigger] nodes[i]).node_id != id
}

/// The parent of a node is that of the last node with its id; an id that no node has
/// has none.
pub proof fn law_parents_are_those_of_the_nodes(nodes: Seq<MessageNodeView>, id: i64, at: int)
    ensures
        none_from(nodes, id, 0) ==> !session::parents_of(nodes).contains_key(id),
        0 <= at < nodes.len() && nodes[at].node_id == id && none_from(nodes, id, at + 1) ==> {
            &&& session::parents_of(nodes).contains_key(id)
            &&& session::parents_of(nodes)[id] == nodes[at].parent_node_id
        },
    decreases nodes.len(),
{
    if nodes.len() > 0 {
        let front = nodes.drop_last();
        law_parents_are_those_of_the_nodes(front, id, at);
        if none_from(nodes, id, 0) {
            assert(nodes[nodes.len() - 1].node_id != id);
            assert forall|i: int| 0 <= i < front.len() implies (#[trigger] front[i]).node_id
                != id by {
                assert(nodes[i].node_id != id);
            }
        }
        if 0 <= at < front.len() && none_from(nodes, id, at + 1) {
            assert(nodes[nodes.len() - 1].node_id != id);
            assert forall|i: int| at + 1 <= i < front.len() implies (#[trigger] front[i]).node_id
                != id by {
                assert(nodes[i].node_id != id);
            }
        }
    }
}

/// The nodes on the chain that ends in `head`, in their order.
pub open spec fn on_chain(nodes: Seq<MessageNodeView>, head: i64) -> Seq<MessageNodeView> {
    nodes.filter(
        |node: MessageNodeView|
            chain::chain(session::parents_of(nodes), head).contains(node.node_id),
    )
}

/// The nodes on the chain of no subagent, in their order.
pub open spec fn on_no_chain(
    nodes: Seq<MessageNodeView>,
    heads: Seq<(Seq<char>, i64)>,
) -> Seq<MessageNodeView> {
    nodes.filter(
        |node: MessageNodeView|
            forall|i: int|
                0 <= i < heads.len() ==> !(#[trigger] chain::chain(
                    session::parents_of(nodes),
                    heads[i].1,
                ).contains(node.node_id)),
    )
}

proof fn lemma_chains(nodes: Seq<MessageNodeView>, heads: Seq<(Seq<char>, i64)>, head: i64)
    ensures
        session::main_nodes(nodes, heads) == on_no_chain(nodes, heads),
        session::subagent_nodes(nodes, head) == on_chain(nodes, head),
{
    let parents = session::parents_of(nodes);
    let outside = |node: MessageNodeView|
        !session::in_some_chain(session::parents_of(nodes), heads, node.node_id);
    let on_none = |node: MessageNodeView|
        forall|i: int|
            0 <= i < heads.len() ==> !(#[trigger] chain::chain(
                session::parents_of(nodes),
                heads[i].1,
            ).contains(node.node_id));
    assert forall|node: MessageNodeView| #[trigger] outside(node) == on_none(node) by {
        if !on_none(node) {
            let i = choose|i: int|
                0 <= i < heads.len() && #[trigger] chain::chain(parents, heads[i].1).contains(
                    node.node_id,
                );
            assert(session::in_some_chain(parents, heads, node.node_id));
        }
    }
    assert(outside =~= on_none);
}

/// Whether `model` is the session itself, of the nodes on the chain of no subagent.
pub open spec fn is_the_session(model: SessionModel, scan: SessionScanView) -> bool {
    &&& scan.target is None || scan.target == Some(scan.session.id)
    &&& model.source_id == scan.session.id
    &&& carries(
        model,
        scan.session,
        scan.db_path,
        on_no_chain(scan.nodes, scan.heads),
        scan.include_events,
    )
    &&& model.started_at == scan.started_at
    &&& model.updated_at == Some(scan.updated_at)
    &&& trims_to(scan.session.title, model.custom_title)
    &&& model.thread_role is None
    &&& model.parent_links.len() == 0
}

/// The id of the session of the subagent at `at`.
pub open spec fn id_of_subagent(scan: SessionScanView, at: int) -> Seq<char> {
    scan.session.id + seq![':'] + scan.heads[at].0
}

/// Whether `model` is the session of the subagent at `at`, of the nodes on its chain.
/// It starts with the first of them, has no title, and is linked to the session that
/// spawned it.
pub open spec fn is_subagent(model: SessionModel, scan: SessionScanView, at: int) -> bool {
    let nodes = on_chain(scan.nodes, scan.heads[at].1);
    &&& scan.target is None || scan.target == Some(id_of_subagent(scan, at))
    &&& model.source_id == id_of_subagent(scan, at)
    &&& carries(model, scan.session, scan.db_path, nodes, scan.include_events)
    &&& nodes.len() > 0
    &&& model.started_at == store::in_milliseconds(nodes[0].created_at)
    &&& model.updated_at == Some(scan.updated_at)
    &&& model.custom_title is None
    &&& model.thread_role == Some(ThreadRole::Subagent)
    &&& model.parent_links.len() == 1
    &&& model.parent_links[0].relation == ParentRelation::Spawn
    &&& model.parent_links[0].source == "devin"@
    &&& model.parent_links[0].source_id == scan.session.id
}

/// Whether `model` is the session at a place: -1 is that of the session itself, and
/// any other that of the subagent there.
pub open spec fn is_session_at(model: SessionModel, scan: SessionScanView, place: int) -> bool {
    if place == -1 {
        is_the_session(model, scan)
    } else {
        0 <= place < scan.heads.len() && is_subagent(model, scan, place)
    }
}

/// Whether something is read of the session itself, and it is wanted.
pub open spec fn session_is_due(scan: SessionScanView) -> bool {
    &&& scan.target is None || scan.target == Some(scan.session.id)
    &&& !is_empty(
        parse::transcript(
            on_no_chain(scan.nodes, scan.heads),
            scope_of(scan.session, scan.db_path, scan.include_events),
        ),
    )
}

/// Whether something is read of the subagent at `at`, and it is wanted.
pub open spec fn subagent_is_due(scan: SessionScanView, at: int) -> bool {
    &&& scan.target is None || scan.target == Some(id_of_subagent(scan, at))
    &&& !is_empty(
        parse::transcript(
            on_chain(scan.nodes, scan.heads[at].1),
            scope_of(scan.session, scan.db_path, scan.include_events),
        ),
    )
}

/// The sessions of the session itself and of its first `count` subagents, with the
/// place of each.
proof fn lemma_places(scan: SessionScanView, count: nat) -> (from: Seq<int>)
    requires
        count <= scan.heads.len(),
    ensures
        from.len() == scan.sessions_up_to(count).len(),
        forall|a: int| 0 <= a < from.len() ==> -1 <= #[trigger] from[a] < count,
        forall|a: int, b: int|
            #![trigger from[a], from[b]]
            0 <= a < b < from.len() ==> from[a] < from[b],
        forall|a: int|
            0 <= a < from.len() ==> is_session_at(
                scan.sessions_up_to(count)[a],
                scan,
                #[trigger] from[a],
            ),
        session_is_due(scan) ==> from.contains(-1),
        forall|i: int| 0 <= i < count && #[trigger] subagent_is_due(scan, i) ==> from.contains(i),
    decreases count,
{
    reveal_strlit(":");
    assert(":"@ =~= seq![':']);
    if count == 0 {
        lemma_chains(scan.nodes, scan.heads, 0);
        law_session_carries_what_is_read(
            scan.session,
            scan.session.id,
            scan.db_path,
            scan.started_at,
            scan.updated_at,
            on_no_chain(scan.nodes, scan.heads),
            scan.include_events,
        );
        if scan.main_session() is Some {
            let from = seq![-1int];
            assert(from[0] == -1);
            from
        } else {
            Seq::empty()
        }
    } else {
        let earlier = lemma_places(scan, (count - 1) as nat);
        let at = count - 1;
        let nodes = on_chain(scan.nodes, scan.heads[at].1);
        let before = scan.sessions_up_to((count - 1) as nat);
        let after = scan.sessions_up_to(count);
        lemma_chains(scan.nodes, scan.heads, scan.heads[at].1);
        law_session_carries_what_is_read(
            scan.session,
            id_of_subagent(scan, at),
            scan.db_path,
            if nodes.len() > 0 {
                store::in_milliseconds(nodes[0].created_at)
            } else {
                scan.started_at
            },
            scan.updated_at,
            nodes,
            scan.include_events,
        );
        assert(id_of_subagent(scan, at) == session::subagent_id(
            scan.session.id,
            scan.heads[at].0,
        ));
        let from = if scan.subagent_session(at) is Some {
            earlier.push(at)
        } else {
            earlier
        };
        assert forall|a: int| 0 <= a < from.len() implies is_session_at(
            after[a],
            scan,
            #[trigger] from[a],
        ) by {
            if a < earlier.len() {
                assert(from[a] == earlier[a]);
                assert(after[a] == before[a]);
            } else {
                assert(after[a] == scan.subagent_session(at)->0);
                assert(is_subagent(after[a], scan, at));
            }
        }
        if session_is_due(scan) {
            let a = choose|a: int| 0 <= a < earlier.len() && earlier[a] == -1;
            assert(from[a] == -1);
        }
        assert forall|i: int| 0 <= i < count && #[trigger] subagent_is_due(
            scan,
            i,
        ) implies from.contains(i) by {
            if i < at {
                let a = choose|a: int| 0 <= a < earlier.len() && earlier[a] == i;
                assert(from[a] == i);
            } else {
                assert(from[earlier.len() as int] == i);
            }
        }
        from
    }
}

/// A session of the store makes the session itself and those of its subagents: the
/// places that are given are those of all that are wanted and of which anything is
/// read, in their order, and each session is the one at its place.
pub proof fn law_sessions_are_the_session_and_its_subagents(scan: SessionScanView) -> (from: Seq<
    int,
>)
    ensures
        from.len() == scan.sessions().len(),
        forall|a: int, b: int|
            #![trigger from[a], from[b]]
            0 <= a < b < from.len() ==> from[a] < from[b],
        forall|a: int|
            0 <= a < from.len() ==> is_session_at(scan.sessions()[a], scan, #[trigger] from[a]),
        session_is_due(scan) ==> from.contains(-1),
        forall|i: int|
            0 <= i < scan.heads.len() && #[trigger] subagent_is_due(scan, i) ==> from.contains(i),
{
    reveal(Seq::filter);
    if scan.nodes.len() == 0 {
        let none = Seq::<MessageNodeView>::empty();
        assert(scan.nodes =~= none);
        assert(on_no_chain(scan.nodes, scan.heads) =~= none);
        assert forall|i: int| 0 <= i < scan.heads.len() implies !(#[trigger] subagent_is_due(
            scan,
            i,
        )) by {
            assert(on_chain(scan.nodes, scan.heads[i].1) =~= none);
        }
        Seq::empty()
    } else {
        lemma_places(scan, scan.heads.len())
    }
}

/// A session is what its model says, field by field.
pub proof fn law_session_is_what_its_model_says<F: Fn(&ShellQuery) -> ShellEvidence>(
    model: SessionModel,
    session: RawSession,
    shell: F,
)
    requires
        model.stands_for(session, shell),
    ensures
        session.source_id@ == model.source_id,
        session.directory.deep_view() == model.directory,
        session.started_at == model.started_at,
        session.updated_at == model.updated_at,
        session.messages@.len() == model.messages.len(),
        forall|i: int|
            0 <= i < model.messages.len() ==> (#[trigger] session.messages@[i]).deep_view()
                == model.messages[i],
        session.usage_events@.len() == model.usage_events.len(),
        forall|i: int|
            0 <= i < model.usage_events.len() ==> (#[trigger] session.usage_events@[i]).deep_view()
                == model.usage_events[i],
        session.events@.len() == model.events.len(),
        forall|i: int|
            0 <= i < model.events.len() ==> model.events[i].stands_for(
                (#[trigger] session.events@[i]).deep_view(),
                shell,
            ),
        session.usage_parser_version == model.usage_parser_version,
        session.event_parser_version == model.event_parser_version,
        session.metadata_parser_version == model.metadata_parser_version,
        session.custom_title.deep_view() == model.custom_title,
        session.duration_minutes == model.duration_minutes,
        session.source_file_path.deep_view() == model.source_file_path,
        session.thread_role == model.thread_role,
        session.parent_links@.len() == model.parent_links.len(),
        forall|i: int|
            0 <= i < model.parent_links.len() ==> (#[trigger] session.parent_links@[i]).deep_view()
                == model.parent_links[i],
{
    assert(session.messages.deep_view().len() == session.messages@.len());
    assert(session.usage_events.deep_view().len() == session.usage_events@.len());
    assert(session.parent_links.deep_view().len() == session.parent_links@.len());
    assert forall|i: int| 0 <= i < model.messages.len() implies (
    #[trigger] session.messages@[i]).deep_view() == model.messages[i] by {
        assert(session.messages.deep_view()[i] == session.messages@[i].deep_view());
    }
    assert forall|i: int| 0 <= i < model.usage_events.len() implies (
    #[trigger] session.usage_events@[i]).deep_view() == model.usage_events[i] by {
        assert(session.usage_events.deep_view()[i] == session.usage_events@[i].deep_view());
    }
    assert forall|i: int| 0 <= i < model.parent_links.len() implies (
    #[trigger] session.parent_links@[i]).deep_view() == model.parent_links[i] by {
        assert(session.parent_links.deep_view()[i] == session.parent_links@[i].deep_view());
    }
    assert forall|i: int| 0 <= i < model.events.len() implies model.events[i].stands_for(
        (#[trigger] session.events@[i]).deep_view(),
        shell,
    ) by {
        assert(model.events[i].stands_for(session.events@[i].deep_view(), shell));
    }
}

/// What was read of nodes is what its model says, item by item.
pub proof fn law_reading_is_what_its_model_says<F: Fn(&ShellQuery) -> ShellEvidence>(
    model: TranscriptModel,
    parsed: ParsedNodes,
    shell: F,
)
    requires
        parsed.stands_for(model, shell),
    ensures
        parsed.messages@.len() == model.messages.len(),
        forall|i: int|
            0 <= i < model.messages.len() ==> (#[trigger] parsed.messages@[i]).deep_view()
                == model.messages[i],
        parsed.usage_events@.len() == model.usage_events.len(),
        forall|i: int|
            0 <= i < model.usage_events.len() ==> (#[trigger] parsed.usage_events@[i]).deep_view()
                == model.usage_events[i],
        parsed.events@.len() == model.events.len(),
        forall|i: int|
            0 <= i < model.events.len() ==> model.events[i].stands_for(
                (#[trigger] parsed.events@[i]).deep_view(),
                shell,
            ),
{
    assert(parsed.messages.deep_view().len() == parsed.messages@.len());
    assert(parsed.usage_events.deep_view().len() == parsed.usage_events@.len());
    assert forall|i: int| 0 <= i < model.messages.len() implies (
    #[trigger] parsed.messages@[i]).deep_view() == model.messages[i] by {
        assert(parsed.messages.deep_view()[i] == parsed.messages@[i].deep_view());
    }
    assert forall|i: int| 0 <= i < model.usage_events.len() implies (
    #[trigger] parsed.usage_events@[i]).deep_view() == model.usage_events[i] by {
        assert(parsed.usage_events.deep_view()[i] == parsed.usage_events@[i].deep_view());
    }
    assert forall|i: int| 0 <= i < model.events.len() implies model.events[i].stands_for(
        (#[trigger] parsed.events@[i]).deep_view(),
        shell,
    ) by {
        assert(model.events[i].stands_for(parsed.events@[i].deep_view(), shell));
    }
}

/// The malformed nodes of a reading are those whose text stands for no JSON and that
/// come first with their key: the places that are given are those of all of them, in
/// their order.
pub proof fn law_malformed_nodes_have_no_json(nodes: Seq<MessageNodeView>) -> (from: Seq<int>)
    ensures
        node_laws::ascending(from, nodes.len()),
        from.len() == parse::malformed(nodes).len(),
        forall|a: int|
            0 <= a < from.len() ==> {
                &&& node_laws::comes_first(nodes, #[trigger] from[a])
                &&& json::json_parsed(nodes[from[a]].chat_message) is None
                &&& parse::malformed(nodes)[a] == nodes[from[a]].node_id
            },
        forall|k: int|
            0 <= k < nodes.len() && #[trigger] node_laws::comes_first(nodes, k)
                && json::json_parsed(nodes[k].chat_message) is None ==> from.contains(k),
    decreases nodes.len(),
{
    if nodes.len() == 0 {
        Seq::empty()
    } else {
        let front = nodes.drop_last();
        let last = nodes.last();
        let end = nodes.len() - 1;
        let earlier = law_malformed_nodes_have_no_json(front);
        node_laws::lemma_first(nodes, arbitrary());
        transcript_laws::lemma_seen(front, arbitrary());
        message_laws::law_message_is_that_of_the_json(last.chat_message);
        let before = parse::malformed(front);
        let after = parse::malformed(nodes);
        let from = if after.len() > before.len() {
            earlier.push(end)
        } else {
            earlier
        };
        assert forall|a: int| 0 <= a < from.len() implies {
            &&& node_laws::comes_first(nodes, #[trigger] from[a])
            &&& json::json_parsed(nodes[from[a]].chat_message) is None
            &&& after[a] == nodes[from[a]].node_id
        } by {
            if a < earlier.len() {
                assert(from[a] == earlier[a]);
                node_laws::lemma_first_in_front(nodes, earlier[a]);
            }
        }
        assert forall|k: int|
            0 <= k < nodes.len() && #[trigger] node_laws::comes_first(nodes, k)
                && json::json_parsed(nodes[k].chat_message) is None implies from.contains(k) by {
            if k < end {
                node_laws::lemma_first_in_front(nodes, k);
                assert(node_laws::comes_first(front, k));
                let a = choose|a: int| 0 <= a < earlier.len() && earlier[a] == k;
                assert(from[a] == k);
            } else {
                assert(from[earlier.len() as int] == k);
            }
        }
        from
    }
}

/// The malformed nodes of a session are those of the session itself, where it is
/// wanted, and then those of each subagent that is.
pub proof fn law_malformed_nodes_of_a_session(
    session_id: Seq<char>,
    nodes: Seq<MessageNodeView>,
    heads: Seq<(Seq<char>, i64)>,
    target: Option<Seq<char>>,
    count: nat,
)
    requires
        count < heads.len(),
    ensures
        session::malformed_up_to(session_id, nodes, heads, target, 0) == (if target is None
            || target == Some(session_id) {
            parse::malformed(on_no_chain(nodes, heads))
        } else {
            Seq::empty()
        }),
        session::malformed_up_to(session_id, nodes, heads, target, count + 1) == (
        session::malformed_up_to(session_id, nodes, heads, target, count) + (if target is None
            || target == Some(session_id + seq![':'] + heads[count as int].0) {
            parse::malformed(on_chain(nodes, heads[count as int].1))
        } else {
            Seq::empty()
        })),
{
    reveal_strlit(":");
    assert(":"@ =~= seq![':']);
    lemma_chains(nodes, heads, heads[count as int].1);
    let before = session::malformed_up_to(session_id, nodes, heads, target, count);
    assert(before + Seq::<i64>::empty() =~= before);
}

/// In every session that is made, the tools work in the working directory of its row
/// without the white space at its ends.
pub proof fn law_tools_work_in_the_directory_of_the_session(
    scan: SessionScanView,
    at: int,
    event: int,
)
    requires
        0 <= at < scan.sessions().len(),
        0 <= event < scan.sessions()[at].events.len(),
    ensures
        event_laws::works_in(
            scan.sessions()[at].events[event],
            text::trimmed(scan.session.working_directory),
        ),
{
    let from = law_sessions_are_the_session_and_its_subagents(scan);
    assert(is_session_at(scan.sessions()[at], scan, from[at]));
    let nodes = if from[at] == -1 {
        on_no_chain(scan.nodes, scan.heads)
    } else {
        on_chain(scan.nodes, scan.heads[from[at]].1)
    };
    event_laws::law_tools_work_in_the_directory(
        nodes,
        scope_of(scan.session, scan.db_path, scan.include_events),
        event,
    );
}

/// Where events are wanted, the session of a subagent has the events of its chain,
/// and the version of their parser: each named tool call of an assistant node on the
/// chain, unless it replays an earlier one, has its event there.
pub proof fn law_subagents_have_their_tool_events(
    scan: SessionScanView,
    agent: int,
    node: int,
    index: int,
    call: Json,
) -> (place: (int, int))
    requires
        scan.include_events,
        scan.target is None || scan.target == Some(id_of_subagent(scan, agent)),
        0 <= agent < scan.heads.len(),
        0 <= node < on_chain(scan.nodes, scan.heads[agent].1).len(),
        node_laws::comes_first(on_chain(scan.nodes, scan.heads[agent].1), node),
        event_laws::node_calls(on_chain(scan.nodes, scan.heads[agent].1)[node], index, call),
        event_laws::is_named(call),
    ensures
        0 <= place.0 < scan.sessions().len(),
        scan.sessions()[place.0].source_id == id_of_subagent(scan, agent),
        scan.sessions()[place.0].thread_role == Some(ThreadRole::Subagent),
        scan.sessions()[place.0].event_parser_version == Some(1u32),
        0 <= place.1 < scan.sessions()[place.0].events.len(),
        event_laws::is_event_of_call(
            scan.sessions()[place.0].events[place.1],
            call,
            text::trimmed(scan.session.working_directory),
        ),
{
    let nodes = on_chain(scan.nodes, scan.heads[agent].1);
    let scope = scope_of(scan.session, scan.db_path, true);
    let event = event_laws::law_named_calls_have_their_events(nodes, scope, node, index, call);
    let from = law_sessions_are_the_session_and_its_subagents(scan);
    assert(subagent_is_due(scan, agent));
    let a = choose|a: int| 0 <= a < from.len() && from[a] == agent;
    assert(is_session_at(scan.sessions()[a], scan, from[a]));
    (a, event)
}

} // verus!

//! Sessions, and the sessions of the subagents that they spawned.

use std::collections::{HashMap, HashSet};

use vstd::prelude::*;
use vstd::string::*;

use crate::chain;
use crate::chain::chain_nodes;
use crate::events::{owned, EventModel, ShellEvidence, ShellQuery};
use crate::parse;
use crate::parse::{malformed_nodes, parse_nodes, ScopeView};
use crate::store;
use crate::store::{
    seconds_to_ms, MessageNode, MessageNodeView, SessionRow, SessionRowView, EVENT_PARSER_VERSION,
    METADATA_PARSER_VERSION, USAGE_PARSER_VERSION,
};
use crate::text;
use crate::types::{
    ParentLink, ParentLinkView, ParentRelation, RawMessageView, RawSession, RawUsageEventView,
    ThreadRole,
};

verus! {

broadcast use vstd::std_specs::hash::group_hash_axioms;

/// A session before shell evidence is attached to its commands.
#[verifier::ext_equal]
pub struct SessionModel {
    pub source_id: Seq<char>,
    pub directory: Option<Seq<char>>,
    pub started_at: i64,
    pub updated_at: Option<i64>,
    pub messages: Seq<RawMessageView>,
    pub usage_events: Seq<RawUsageEventView>,
    pub usage_parser_version: Option<u32>,
    pub events: Seq<EventModel>,
    pub event_parser_version: Option<u32>,
    pub metadata_parser_version: Option<u32>,
    pub custom_title: Option<Seq<char>>,
    pub duration_minutes: Option<u32>,
    pub source_file_path: Option<Seq<char>>,
    pub thread_role: Option<ThreadRole>,
    pub parent_links: Seq<ParentLinkView>,
}

impl SessionModel {
    /// Whether `session` is this session, with the evidence of `shell`.
    pub open spec fn stands_for<F: Fn(&ShellQuery) -> ShellEvidence>(
        self,
        session: RawSession,
        shell: F,
    ) -> bool {
        &&& session.source_id@ == self.source_id
        &&& session.directory.deep_view() == self.directory
        &&& session.started_at == self.started_at
        &&& session.updated_at == self.updated_at
        &&& session.messages.deep_view() == self.messages
        &&& session.usage_events.deep_view() == self.usage_events
        &&& session.usage_parser_version == self.usage_parser_version
        &&& parse::events_match(session.events@, self.events, shell)
        &&& session.event_parser_version == self.event_parser_version
        &&& session.metadata_parser_version == self.metadata_parser_version
        &&& session.custom_title.deep_view() == self.custom_title
        &&& session.duration_minutes == self.duration_minutes
        &&& session.source_file_path.deep_view() == self.source_file_path
        &&& session.thread_role == self.thread_role
        &&& session.parent_links.deep_view() == self.parent_links
    }
}

/// The whole minutes from the start of a session to its last activity, where
/// they fit. A session whose last activity lies before its start took none.
pub open spec fn minutes_between(created_at: i64, last_activity_at: i64) -> Option<u32> {
    let minutes = if last_activity_at > created_at {
        (last_activity_at - created_at) / 60
    } else {
        0
    };
    if minutes <= u32::MAX {
        Some(minutes as u32)
    } else {
        None
    }
}

/// A text without the white space at its ends, where that leaves anything.
pub open spec fn trimmed_non_empty(text: Seq<char>) -> Option<Seq<char>> {
    if text::trimmed(text).len() > 0 {
        Some(text::trimmed(text))
    } else {
        None
    }
}

/// The session that a sequence of nodes makes: none where nothing is read of
/// them.
pub open spec fn session_model(
    session: SessionRowView,
    source_id: Seq<char>,
    db_path: Option<Seq<char>>,
    started_at: i64,
    updated_at: i64,
    nodes: Seq<MessageNodeView>,
    include_events: bool,
) -> Option<SessionModel> {
    let read = parse::transcript(
        nodes,
        ScopeView {
            session,
            directory: text::trimmed(session.working_directory),
            db_path,
            include_events,
        },
    );
    if read.messages.len() == 0 && read.usage_events.len() == 0 && read.events.len() == 0 {
        None
    } else {
        Some(
            SessionModel {
                source_id,
                directory: trimmed_non_empty(session.working_directory),
                started_at,
                updated_at: Some(updated_at),
                messages: read.messages,
                usage_events: read.usage_events,
                usage_parser_version: Some(USAGE_PARSER_VERSION),
                events: if include_events {
                    read.events
                } else {
                    Seq::empty()
                },
                event_parser_version: if include_events {
                    Some(EVENT_PARSER_VERSION)
                } else {
                    None
                },
                metadata_parser_version: Some(METADATA_PARSER_VERSION),
                custom_title: match session.title {
                    Some(title) => trimmed_non_empty(title),
                    None => None,
                },
                duration_minutes: minutes_between(session.created_at, session.last_activity_at),
                source_file_path: db_path,
                thread_role: None,
                parent_links: Seq::empty(),
            },
        )
    }
}

fn minutes(created_at: i64, last_activity_at: i64) -> (r: Option<u32>)
    ensures
        r == minutes_between(created_at, last_activity_at),
{
    let minutes: i128 = if last_activity_at > created_at {
        (last_activity_at as i128 - created_at as i128) / 60
    } else {
        0
    };
    if minutes <= u32::MAX as i128 {
        Some(minutes as u32)
    } else {
        None
    }
}

fn trim_non_empty(value: &str) -> (r: Option<String>)
    ensures
        r.deep_view() == trimmed_non_empty(value@),
{
    let trimmed = text::trim(value);
    if trimmed.is_empty() {
        None
    } else {
        Some(trimmed.to_string())
    }
}

/// The session that `nodes` make, under the id `source_id`: none where nothing
/// is read of them.
pub fn build_session<F: Fn(&ShellQuery) -> ShellEvidence>(
    session: &SessionRow,
    source_id: String,
    db_path: Option<&str>,
    started_at: i64,
    updated_at: i64,
    nodes: &[&MessageNode],
    include_events: bool,
    shell: &F,
) -> (r: Option<RawSession>)
    requires
        forall|query: &ShellQuery| call_requires(*shell, (query,)),
    ensures
        match session_model(
            session.deep_view(),
            source_id@,
            db_path.deep_view(),
            started_at,
            updated_at,
            nodes.deep_view(),
            include_events,
        ) {
            Some(model) => r is Some && model.stands_for(r->0, *shell),
            None => r is None,
        },
{
    let directory = text::trim(session.working_directory.as_str());
    let parsed = parse_nodes(nodes, session, directory, db_path, include_events, shell);
    assert(parsed.messages.deep_view().len() == parsed.messages@.len());
    assert(parsed.usage_events.deep_view().len() == parsed.usage_events@.len());
    if parsed.messages.len() == 0 && parsed.usage_events.len() == 0 && parsed.events.len() == 0 {
        return None;
    }
    let custom_title = match &session.title {
        Some(title) => trim_non_empty(title.as_str()),
        None => None,
    };
    let raw = RawSession {
        source_id,
        directory: trim_non_empty(session.working_directory.as_str()),
        started_at,
        updated_at: Some(updated_at),
        messages: parsed.messages,
        usage_events: parsed.usage_events,
        usage_parser_version: Some(USAGE_PARSER_VERSION),
        events: if include_events {
            parsed.events
        } else {
            Vec::new()
        },
        event_parser_version: if include_events {
            Some(EVENT_PARSER_VERSION)
        } else {
            None
        },
        metadata_parser_version: Some(METADATA_PARSER_VERSION),
        custom_title,
        duration_minutes: minutes(session.created_at, session.last_activity_at),
        source_file_path: owned(db_path),
        thread_role: None,
        parent_links: Vec::new(),
    };
    assert(raw.parent_links.deep_view() =~= Seq::empty());
    Some(raw)
}

/// The parent of each node. Of two nodes with the same id the later one counts.
pub open spec fn parents_of(nodes: Seq<MessageNodeView>) -> Map<i64, Option<i64>>
    decreases nodes.len(),
{
    if nodes.len() == 0 {
        Map::empty()
    } else {
        parents_of(nodes.drop_last()).insert(nodes.last().node_id, nodes.last().parent_node_id)
    }
}

/// Whether a node lies on the chain of one of the subagents.
pub open spec fn in_some_chain(
    parents: Map<i64, Option<i64>>,
    heads: Seq<(Seq<char>, i64)>,
    node_id: i64,
) -> bool {
    exists|i: int|
        0 <= i < heads.len() && #[trigger] chain::chain(parents, heads[i].1).contains(node_id)
}

/// The nodes of a session that belong to none of its subagents.
pub open spec fn main_nodes(
    nodes: Seq<MessageNodeView>,
    heads: Seq<(Seq<char>, i64)>,
) -> Seq<MessageNodeView> {
    nodes.filter(|node: MessageNodeView| !in_some_chain(parents_of(nodes), heads, node.node_id))
}

/// The nodes of a session that lie on the chain that ends in `head`.
pub open spec fn subagent_nodes(nodes: Seq<MessageNodeView>, head: i64) -> Seq<MessageNodeView> {
    nodes.filter(
        |node: MessageNodeView| chain::chain(parents_of(nodes), head).contains(node.node_id),
    )
}

/// What a scan of one session is given.
#[verifier::ext_equal]
pub struct SessionScanView {
    pub session: SessionRowView,
    pub nodes: Seq<MessageNodeView>,
    /// The subagents of the session, each with the last node of its chain.
    pub heads: Seq<(Seq<char>, i64)>,
    pub db_path: Option<Seq<char>>,
    /// The only session that is wanted, where not all are.
    pub target: Option<Seq<char>>,
    pub started_at: i64,
    pub updated_at: i64,
    pub include_events: bool,
}

/// The id of a session of a subagent.
pub open spec fn subagent_id(session_id: Seq<char>, agent_id: Seq<char>) -> Seq<char> {
    session_id + ":"@ + agent_id
}

/// Whether a session is wanted.
pub open spec fn wanted(target: Option<Seq<char>>, source_id: Seq<char>) -> bool {
    target is None || target == Some(source_id)
}

impl SessionScanView {
    /// The session itself.
    pub open spec fn main_session(self) -> Option<SessionModel> {
        if wanted(self.target, self.session.id) {
            session_model(
                self.session,
                self.session.id,
                self.db_path,
                self.started_at,
                self.updated_at,
                main_nodes(self.nodes, self.heads),
                self.include_events,
            )
        } else {
            None
        }
    }

    /// The session of the subagent at `index`. It starts with its first node,
    /// has no title, and is linked to the session that spawned it.
    pub open spec fn subagent_session(self, index: int) -> Option<SessionModel> {
        let source_id = subagent_id(self.session.id, self.heads[index].0);
        let nodes = subagent_nodes(self.nodes, self.heads[index].1);
        if wanted(self.target, source_id) {
            match session_model(
                self.session,
                source_id,
                self.db_path,
                if nodes.len() > 0 {
                    store::in_milliseconds(nodes[0].created_at)
                } else {
                    self.started_at
                },
                self.updated_at,
                nodes,
                self.include_events,
            ) {
                Some(model) => Some(
                    SessionModel {
                        custom_title: None,
                        thread_role: Some(ThreadRole::Subagent),
                        parent_links: seq![
                            ParentLinkView {
                                relation: ParentRelation::Spawn,
                                source: "devin"@,
                                source_id: self.session.id,
                            },
                        ],
                        ..model
                    },
                ),
                None => None,
            }
        } else {
            None
        }
    }

    /// The sessions of the session itself and of its first `count` subagents.
    pub open spec fn sessions_up_to(self, count: nat) -> Seq<SessionModel>
        decreases count,
    {
        if count == 0 {
            match self.main_session() {
                Some(model) => seq![model],
                None => Seq::empty(),
            }
        } else {
            let before = self.sessions_up_to((count - 1) as nat);
            match self.subagent_session(count - 1) {
                Some(model) => before.push(model),
                None => before,
            }
        }
    }

    /// All sessions that a session of the store makes.
    pub open spec fn sessions(self) -> Seq<SessionModel> {
        if self.nodes.len() == 0 {
            Seq::empty()
        } else {
            self.sessions_up_to(self.heads.len())
        }
    }
}

/// The ids of the nodes whose text is no JSON, of the session itself and of its
/// first `count` subagents, where they are wanted.
pub open spec fn malformed_up_to(
    session_id: Seq<char>,
    nodes: Seq<MessageNodeView>,
    heads: Seq<(Seq<char>, i64)>,
    target: Option<Seq<char>>,
    count: nat,
) -> Seq<i64>
    decreases count,
{
    if count == 0 {
        if wanted(target, session_id) {
            parse::malformed(main_nodes(nodes, heads))
        } else {
            Seq::empty()
        }
    } else {
        let before = malformed_up_to(session_id, nodes, heads, target, (count - 1) as nat);
        if wanted(target, subagent_id(session_id, heads[count - 1].0)) {
            before + parse::malformed(subagent_nodes(nodes, heads[count - 1].1))
        } else {
            before
        }
    }
}

/// Whether each session is the one at its place in `models`.
pub open spec fn sessions_match<F: Fn(&ShellQuery) -> ShellEvidence>(
    sessions: Seq<RawSession>,
    models: Seq<SessionModel>,
    shell: F,
) -> bool {
    &&& sessions.len() == models.len()
    &&& forall|i: int| 0 <= i < models.len() ==> (#[trigger] models[i]).stands_for(sessions[i], shell)
}

fn parent_map(nodes: &Vec<MessageNode>) -> (r: HashMap<i64, Option<i64>>)
    ensures
        r@ == parents_of(nodes.deep_view()),
{
    let mut parents: HashMap<i64, Option<i64>> = HashMap::new();
    let mut at: usize = 0;
    while at < nodes.len()
        invariant
            at <= nodes@.len(),
            parents@ == parents_of(nodes.deep_view().take(at as int)),
        decreases nodes@.len() - at,
    {
        parents.insert(nodes[at].node_id, nodes[at].parent_node_id);
        proof {
            let all = nodes.deep_view();
            assert(all.take(at + 1).drop_last() =~= all.take(at as int));
        }
        at = at + 1;
    }
    assert(nodes.deep_view().take(at as int) =~= nodes.deep_view());
    parents
}

fn in_any(chains: &Vec<HashSet<i64>>, node_id: i64) -> (r: bool)
    ensures
        r == exists|i: int| 0 <= i < chains@.len() && #[trigger] chains@[i]@.contains(node_id),
{
    let mut at: usize = 0;
    while at < chains.len()
        invariant
            at <= chains@.len(),
            forall|i: int| 0 <= i < at ==> !(#[trigger] chains@[i]@.contains(node_id)),
        decreases chains@.len() - at,
    {
        if chains[at].contains(&node_id) {
            return true;
        }
        at = at + 1;
    }
    false
}

fn outside_chains<'a>(
    nodes: &'a Vec<MessageNode>,
    heads: &Vec<(String, i64)>,
    chains: &Vec<HashSet<i64>>,
) -> (r: Vec<&'a MessageNode>)
    requires
        chains@.len() == heads@.len(),
        forall|i: int|
            0 <= i < chains@.len() ==> #[trigger] chains@[i]@ == chain::chain(
                parents_of(nodes.deep_view()),
                heads@[i].1,
            ),
    ensures
        r.deep_view() == main_nodes(nodes.deep_view(), heads.deep_view()),
{
    let ghost all = nodes.deep_view();
    let ghost outside = |node: MessageNodeView|
        !in_some_chain(parents_of(all), heads.deep_view(), node.node_id);
    let mut kept: Vec<&'a MessageNode> = Vec::new();
    let mut at: usize = 0;
    reveal(Seq::filter);
    assert(kept.deep_view() =~= all.take(0).filter(outside));
    while at < nodes.len()
        invariant
            at <= nodes@.len(),
            all == nodes.deep_view(),
            outside == (|node: MessageNodeView|
                !in_some_chain(parents_of(all), heads.deep_view(), node.node_id)),
            chains@.len() == heads@.len(),
            forall|i: int|
                0 <= i < chains@.len() ==> #[trigger] chains@[i]@ == chain::chain(
                    parents_of(all),
                    heads@[i].1,
                ),
            kept.deep_view() == all.take(at as int).filter(outside),
        decreases nodes@.len() - at,
    {
        let node = &nodes[at];
        let inside = in_any(chains, node.node_id);
        let ghost before = kept.deep_view();
        proof {
            let parents = parents_of(all);
            if inside {
                let i = choose|i: int|
                    0 <= i < chains@.len() && #[trigger] chains@[i]@.contains(node.node_id);
                assert(chain::chain(parents, heads.deep_view()[i].1).contains(node.node_id));
            } else if in_some_chain(parents, heads.deep_view(), node.node_id) {
                let i = choose|i: int|
                    0 <= i < heads.deep_view().len() && #[trigger] chain::chain(
                        parents,
                        heads.deep_view()[i].1,
                    ).contains(node.node_id);
                assert(chains@[i]@.contains(node.node_id));
            }
            reveal(Seq::filter);
            assert(all.take(at + 1).drop_last() =~= all.take(at as int));
            assert(outside(all[at as int]) == !inside);
        }
        if !inside {
            kept.push(node);
            assert(kept.deep_view() =~= before.push(all[at as int]));
        }
        at = at + 1;
    }
    assert(all.take(at as int) =~= all);
    kept
}

fn inside_chain<'a>(
    nodes: &'a Vec<MessageNode>,
    head: i64,
    members: &HashSet<i64>,
) -> (r: Vec<&'a MessageNode>)
    requires
        members@ == chain::chain(parents_of(nodes.deep_view()), head),
    ensures
        r.deep_view() == subagent_nodes(nodes.deep_view(), head),
{
    let ghost all = nodes.deep_view();
    let ghost inside = |node: MessageNodeView|
        chain::chain(parents_of(all), head).contains(node.node_id);
    let mut kept: Vec<&'a MessageNode> = Vec::new();
    let mut at: usize = 0;
    reveal(Seq::filter);
    assert(kept.deep_view() =~= all.take(0).filter(inside));
    while at < nodes.len()
        invariant
            at <= nodes@.len(),
            all == nodes.deep_view(),
            inside == (|node: MessageNodeView|
                chain::chain(parents_of(all), head).contains(node.node_id)),
            members@ == chain::chain(parents_of(all), head),
            kept.deep_view() == all.take(at as int).filter(inside),
        decreases nodes@.len() - at,
    {
        let node = &nodes[at];
        let ghost before = kept.deep_view();
        proof {
            reveal(Seq::filter);
            assert(all.take(at + 1).drop_last() =~= all.take(at as int));
            assert(inside(all[at as int]) == members@.contains(node.node_id));
        }
        if members.contains(&node.node_id) {
            kept.push(node);
            assert(kept.deep_view() =~= before.push(all[at as int]));
        }
        at = at + 1;
    }
    assert(all.take(at as int) =~= all);
    kept
}

fn all_chains(parents: &HashMap<i64, Option<i64>>, heads: &Vec<(String, i64)>) -> (r: Vec<
    HashSet<i64>,
>)
    ensures
        r@.len() == heads@.len(),
        forall|i: int|
            0 <= i < r@.len() ==> #[trigger] r@[i]@ == chain::chain(parents@, heads@[i].1),
{
    let mut chains: Vec<HashSet<i64>> = Vec::new();
    while chains.len() < heads.len()
        invariant
            chains@.len() <= heads@.len(),
            forall|i: int|
                0 <= i < chains@.len() ==> #[trigger] chains@[i]@ == chain::chain(
                    parents@,
                    heads@[i].1,
                ),
        decreases heads@.len() - chains@.len(),
    {
        chains.push(chain_nodes(parents, heads[chains.len()].1));
    }
    chains
}

fn is_wanted(target: Option<&str>, source_id: &str) -> (r: bool)
    ensures
        r == wanted(target.deep_view(), source_id@),
{
    match target {
        Some(target) => text::same_text(target, source_id),
        None => true,
    }
}

fn subagent_key(session_id: &str, agent_id: &str) -> (r: String)
    ensures
        r@ == subagent_id(session_id@, agent_id@),
{
    let mut id = session_id.to_string();
    id.append(":");
    id.append(agent_id);
    id
}

/// The nodes of a session of the store, and its subagents, each with the last
/// node of its chain.
#[derive(Debug, PartialEq)]
pub struct SessionContent {
    pub nodes: Vec<MessageNode>,
    pub heads: Vec<(String, i64)>,
}

/// The sessions that a session of the store makes: itself, without the nodes on
/// the chains of its subagents, and one for each subagent.
pub fn scan_session<F: Fn(&ShellQuery) -> ShellEvidence>(
    session: &SessionRow,
    content: &SessionContent,
    db_path: Option<&str>,
    target: Option<&str>,
    started_at: i64,
    updated_at: i64,
    include_events: bool,
    shell: &F,
) -> (r: Vec<RawSession>)
    requires
        forall|query: &ShellQuery| call_requires(*shell, (query,)),
    ensures
        sessions_match(
            r@,
            (SessionScanView {
                session: session.deep_view(),
                nodes: content.nodes.deep_view(),
                heads: content.heads.deep_view(),
                db_path: db_path.deep_view(),
                target: target.deep_view(),
                started_at,
                updated_at,
                include_events,
            }).sessions(),
            *shell,
        ),
{
    let nodes = &content.nodes;
    let heads = &content.heads;
    let ghost scan = SessionScanView {
        session: session.deep_view(),
        nodes: nodes.deep_view(),
        heads: heads.deep_view(),
        db_path: db_path.deep_view(),
        target: target.deep_view(),
        started_at,
        updated_at,
        include_events,
    };
    let mut sessions: Vec<RawSession> = Vec::new();
    assert(nodes.deep_view().len() == nodes@.len());
    if nodes.len() == 0 {
        return sessions;
    }
    let parents = parent_map(nodes);
    let chains = all_chains(&parents, heads);
    if is_wanted(target, session.id.as_str()) {
        let main = outside_chains(nodes, heads, &chains);
        if let Some(raw) = build_session(
            session,
            session.id.clone(),
            db_path,
            started_at,
            updated_at,
            main.as_slice(),
            include_events,
            shell,
        ) {
            sessions.push(raw);
        }
    }
    let mut at: usize = 0;
    while at < heads.len()
        invariant
            at <= heads@.len(),
            nodes == content.nodes,
            heads == content.heads,
            chains@.len() == heads@.len(),
            forall|query: &ShellQuery| call_requires(*shell, (query,)),
            forall|i: int|
                0 <= i < chains@.len() ==> #[trigger] chains@[i]@ == chain::chain(
                    parents_of(nodes.deep_view()),
                    heads@[i].1,
                ),
            scan == (SessionScanView {
                session: session.deep_view(),
                nodes: nodes.deep_view(),
                heads: heads.deep_view(),
                db_path: db_path.deep_view(),
                target: target.deep_view(),
                started_at,
                updated_at,
                include_events,
            }),
            sessions_match(sessions@, scan.sessions_up_to(at as nat), *shell),
        decreases heads@.len() - at,
    {
        let head = &heads[at];
        let source_id = subagent_key(session.id.as_str(), head.0.as_str());
        let ghost before = scan.sessions_up_to(at as nat);
        let ghost model = scan.subagent_session(at as int);
        if is_wanted(target, source_id.as_str()) {
            let own = inside_chain(nodes, head.1, &chains[at]);
            assert(own.deep_view().len() == own@.len());
            let started_at = if own.len() > 0 {
                seconds_to_ms(own[0].created_at)
            } else {
                started_at
            };
            if let Some(mut raw) = build_session(
                session,
                source_id,
                db_path,
                started_at,
                updated_at,
                own.as_slice(),
                include_events,
                shell,
            ) {
                raw.custom_title = None;
                raw.thread_role = Some(ThreadRole::Subagent);
                let mut links: Vec<ParentLink> = Vec::new();
                links.push(
                    ParentLink {
                        relation: ParentRelation::Spawn,
                        source: "devin".to_string(),
                        source_id: session.id.clone(),
                    },
                );
                raw.parent_links = links;
                proof {
                    assert(raw.parent_links.deep_view() =~= model->0.parent_links);
                    assert(model->0.stands_for(raw, *shell));
                }
                sessions.push(raw);
            }
        }
        at = at + 1;
    }
    sessions
}

/// The ids of the nodes that a scan of a session leaves out because their text is
/// no JSON: for the session itself, and then for each subagent.
pub fn malformed_in_session(session_id: &str, content: &SessionContent, target: Option<&str>) -> (r:
    Vec<i64>)
    ensures
        r@ == malformed_up_to(
            session_id@,
            content.nodes.deep_view(),
            content.heads.deep_view(),
            target.deep_view(),
            content.heads@.len(),
        ),
{
    let nodes = &content.nodes;
    let heads = &content.heads;
    let parents = parent_map(nodes);
    let chains = all_chains(&parents, heads);
    let mut found: Vec<i64> = if is_wanted(target, session_id) {
        malformed_nodes(outside_chains(nodes, heads, &chains).as_slice())
    } else {
        Vec::new()
    };
    let mut at: usize = 0;
    while at < heads.len()
        invariant
            at <= heads@.len(),
            nodes == content.nodes,
            heads == content.heads,
            chains@.len() == heads@.len(),
            forall|i: int|
                0 <= i < chains@.len() ==> #[trigger] chains@[i]@ == chain::chain(
                    parents_of(nodes.deep_view()),
                    heads@[i].1,
                ),
            found@ == malformed_up_to(
                session_id@,
                nodes.deep_view(),
                heads.deep_view(),
                target.deep_view(),
                at as nat,
            ),
        decreases heads@.len() - at,
    {
        let head = &heads[at];
        if is_wanted(target, subagent_key(session_id, head.0.as_str()).as_str()) {
            let own = inside_chain(nodes, head.1, &chains[at]);
            let mut more = malformed_nodes(own.as_slice());
            found.append(&mut more);
        }
        at = at + 1;
    }
    found
}

} // verus!

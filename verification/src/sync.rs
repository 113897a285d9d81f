//! What an index already holds, and what a scan has to read again.

use vstd::hash_map::StringHashMap;
use vstd::prelude::*;
use vstd::string::*;

use crate::store;
use crate::store::{
    seconds_to_ms, SessionRow, SessionRowView, EVENT_PARSER_VERSION, METADATA_PARSER_VERSION,
    USAGE_PARSER_VERSION,
};
use crate::text;

verus! {

/// Which version of a parser read a session last, and how recent the session was
/// then.
#[derive(Debug, Clone, Copy, PartialEq, Eq)]
pub struct ParserState {
    pub parser_version: u32,
    pub updated_at: Option<i64>,
}

/// What the index holds of the sessions of the store, and the only session that
/// is wanted, where not all are.
pub struct AdapterSyncContext {
    session_meta: StringHashMap<Option<i64>>,
    usage_state: StringHashMap<ParserState>,
    event_state: StringHashMap<ParserState>,
    metadata_state: StringHashMap<ParserState>,
    target: Option<String>,
}

#[verifier::ext_equal]
pub struct AdapterSyncContextView {
    /// When each known session was last updated, by its id.
    pub session_meta: Map<Seq<char>, Option<i64>>,
    pub usage_state: Map<Seq<char>, ParserState>,
    pub event_state: Map<Seq<char>, ParserState>,
    pub metadata_state: Map<Seq<char>, ParserState>,
    pub target: Option<Seq<char>>,
}

impl DeepView for AdapterSyncContext {
    type V = AdapterSyncContextView;

    closed spec fn deep_view(&self) -> AdapterSyncContextView {
        AdapterSyncContextView {
            session_meta: self.session_meta@,
            usage_state: self.usage_state@,
            event_state: self.event_state@,
            metadata_state: self.metadata_state@,
            target: self.target.deep_view(),
        }
    }
}

impl AdapterSyncContextView {
    /// An index that holds nothing, with every session wanted.
    pub open spec fn empty() -> Self {
        AdapterSyncContextView {
            session_meta: Map::empty(),
            usage_state: Map::empty(),
            event_state: Map::empty(),
            metadata_state: Map::empty(),
            target: None,
        }
    }

    /// The session of the store that has to be read for the wanted one: for a
    /// subagent the session that spawned it.
    pub open spec fn target_session(self) -> Option<Seq<char>> {
        match self.target {
            Some(target) => Some(text::before_colon(target)),
            None => None,
        }
    }
}

/// The value of `key`, where there is one.
pub open spec fn entry<T>(map: Map<Seq<char>, T>, key: Seq<char>) -> Option<T> {
    if map.contains_key(key) {
        Some(map[key])
    } else {
        None
    }
}

fn get_copy<T: Copy>(map: &StringHashMap<T>, key: &str) -> (r: Option<T>)
    ensures
        r == entry(map@, key@),
{
    match map.get(key) {
        Some(value) => Some(*value),
        None => None,
    }
}

impl AdapterSyncContext {
    /// An index that holds nothing, with every session wanted.
    pub fn new() -> (r: Self)
        ensures
            r.deep_view() == AdapterSyncContextView::empty(),
    {
        AdapterSyncContext {
            session_meta: StringHashMap::new(),
            usage_state: StringHashMap::new(),
            event_state: StringHashMap::new(),
            metadata_state: StringHashMap::new(),
            target: None,
        }
    }

    /// The same index, with only the session `target` wanted.
    pub fn restricted_to(self, target: String) -> (r: Self)
        ensures
            r.deep_view() == (AdapterSyncContextView {
                target: Some(target@),
                ..self.deep_view()
            }),
    {
        AdapterSyncContext { target: Some(target), ..self }
    }

    /// Records that the index holds a session.
    pub fn record_session(&mut self, source_id: String, updated_at: Option<i64>)
        ensures
            final(self).deep_view() == (AdapterSyncContextView {
                session_meta: old(self).deep_view().session_meta.insert(source_id@, updated_at),
                ..old(self).deep_view()
            }),
    {
        self.session_meta.insert(source_id, updated_at);
    }

    /// Records that the token usage of a session was read.
    pub fn record_usage_state(&mut self, source_id: String, state: ParserState)
        ensures
            final(self).deep_view() == (AdapterSyncContextView {
                usage_state: old(self).deep_view().usage_state.insert(source_id@, state),
                ..old(self).deep_view()
            }),
    {
        self.usage_state.insert(source_id, state);
    }

    /// Records that the tool events of a session were read.
    pub fn record_event_state(&mut self, source_id: String, state: ParserState)
        ensures
            final(self).deep_view() == (AdapterSyncContextView {
                event_state: old(self).deep_view().event_state.insert(source_id@, state),
                ..old(self).deep_view()
            }),
    {
        self.event_state.insert(source_id, state);
    }

    /// Records that the metadata of a session was read.
    pub fn record_metadata_state(&mut self, source_id: String, state: ParserState)
        ensures
            final(self).deep_view() == (AdapterSyncContextView {
                metadata_state: old(self).deep_view().metadata_state.insert(source_id@, state),
                ..old(self).deep_view()
            }),
    {
        self.metadata_state.insert(source_id, state);
    }

    /// Whether the index holds any session.
    pub fn has_existing_sessions(&self) -> (r: bool)
        ensures
            r == (self.deep_view().session_meta != Map::<Seq<char>, Option<i64>>::empty()),
    {
        let empty = self.session_meta.is_empty();
        proof {
            if empty {
                assert(self.session_meta@ =~= Map::<Seq<char>, Option<i64>>::empty());
            }
        }
        !empty
    }

    /// The only session that is wanted, where not all are.
    pub fn target_source_id(&self) -> (r: Option<&str>)
        ensures
            r.deep_view() == self.deep_view().target,
    {
        match &self.target {
            Some(target) => Some(target.as_str()),
            None => None,
        }
    }

    /// The session of the store that has to be read for the wanted one.
    pub fn target_session(&self) -> (r: Option<&str>)
        ensures
            r.deep_view() == self.deep_view().target_session(),
    {
        match &self.target {
            Some(target) => Some(text::until_colon(target.as_str())),
            None => None,
        }
    }
}

/// Whether what a parser read is current: the same version of the parser read the
/// session as it was last updated.
pub open spec fn parser_current(
    version: u32,
    state: Option<ParserState>,
    updated_at: Option<i64>,
) -> bool {
    state matches Some(state) && state.parser_version == version && state.updated_at == updated_at
}

/// Whether what was read of a session is current: its usage, and its events where
/// they are wanted.
pub open spec fn session_current(
    usage_version: u32,
    event_version: u32,
    usage_state: Option<ParserState>,
    event_state: Option<ParserState>,
    updated_at: Option<i64>,
    include_events: bool,
) -> bool {
    &&& parser_current(usage_version, usage_state, updated_at)
    &&& include_events ==> parser_current(event_version, event_state, updated_at)
}

/// Whether what a parser read is current.
pub fn parser_state_is_current(
    version: u32,
    state: Option<ParserState>,
    updated_at: Option<i64>,
) -> (r: bool)
    ensures
        r == parser_current(version, state, updated_at),
{
    match state {
        Some(state) => state.parser_version == version && same_time(state.updated_at, updated_at),
        None => false,
    }
}

fn same_time(a: Option<i64>, b: Option<i64>) -> (r: bool)
    ensures
        r == (a == b),
{
    match (a, b) {
        (Some(a), Some(b)) => a == b,
        (None, None) => true,
        _ => false,
    }
}

/// Whether what was read of a session is current.
pub fn session_state_is_current(
    usage_version: u32,
    event_version: u32,
    usage_state: Option<ParserState>,
    event_state: Option<ParserState>,
    updated_at: Option<i64>,
    include_events: bool,
) -> (r: bool)
    ensures
        r == session_current(
            usage_version,
            event_version,
            usage_state,
            event_state,
            updated_at,
            include_events,
        ),
{
    parser_state_is_current(usage_version, usage_state, updated_at) && (!include_events
        || parser_state_is_current(event_version, event_state, updated_at))
}

/// What a scan does with a session of the store.
#[derive(Debug, Clone, Copy, PartialEq, Eq, Structural)]
pub enum RowDecision {
    /// It is hidden, or too old to be of interest.
    Filter,
    /// The index holds it as it is.
    Skip,
    /// It is read.
    Read,
}

impl AdapterSyncContextView {
    /// Whether the index holds a session as it was updated at `updated_at`.
    pub open spec fn is_current(
        self,
        source_id: Seq<char>,
        updated_at: i64,
        include_events: bool,
    ) -> bool {
        &&& entry(self.session_meta, source_id) == Some(Some(updated_at))
        &&& session_current(
            USAGE_PARSER_VERSION,
            EVENT_PARSER_VERSION,
            entry(self.usage_state, source_id),
            entry(self.event_state, source_id),
            Some(updated_at),
            include_events,
        )
        &&& parser_current(
            METADATA_PARSER_VERSION,
            entry(self.metadata_state, source_id),
            Some(updated_at),
        )
    }
}

/// What a scan does with a session of the store. A hidden session is filtered; so
/// is one that was last updated before `since_ts`; one that the index holds as it
/// is is skipped. A forced scan looks at neither the time nor the index.
pub open spec fn decision(
    row: SessionRowView,
    context: Option<AdapterSyncContextView>,
    since_ts: Option<i64>,
    include_events: bool,
    force: bool,
) -> RowDecision {
    let updated_at = store::in_milliseconds(row.last_activity_at);
    if row.hidden != 0 {
        RowDecision::Filter
    } else if !force && (since_ts matches Some(cutoff) && updated_at < cutoff) {
        RowDecision::Filter
    } else if !force && (context matches Some(context) && context.is_current(
        row.id,
        updated_at,
        include_events,
    )) {
        RowDecision::Skip
    } else {
        RowDecision::Read
    }
}

impl AdapterSyncContext {
    /// Whether the index holds a session as it was updated at `updated_at`.
    pub fn holds_current(&self, source_id: &str, updated_at: i64, include_events: bool) -> (r: bool)
        ensures
            r == self.deep_view().is_current(source_id@, updated_at, include_events),
    {
        let known = match get_copy(&self.session_meta, source_id) {
            Some(known) => same_time(known, Some(updated_at)),
            None => false,
        };
        known && session_state_is_current(
            USAGE_PARSER_VERSION,
            EVENT_PARSER_VERSION,
            get_copy(&self.usage_state, source_id),
            get_copy(&self.event_state, source_id),
            Some(updated_at),
            include_events,
        ) && parser_state_is_current(
            METADATA_PARSER_VERSION,
            get_copy(&self.metadata_state, source_id),
            Some(updated_at),
        )
    }
}

/// What a scan does with a session of the store.
pub fn decide_row(
    row: &SessionRow,
    context: Option<&AdapterSyncContext>,
    since_ts: Option<i64>,
    include_events: bool,
    force: bool,
) -> (r: RowDecision)
    ensures
        r == decision(row.deep_view(), context.deep_view(), since_ts, include_events, force),
{
    if row.hidden != 0 {
        return RowDecision::Filter;
    }
    let updated_at = seconds_to_ms(row.last_activity_at);
    if !force {
        if let Some(cutoff) = since_ts {
            if updated_at < cutoff {
                return RowDecision::Filter;
            }
        }
        if let Some(context) = context {
            if context.holds_current(row.id.as_str(), updated_at, include_events) {
                return RowDecision::Skip;
            }
        }
    }
    RowDecision::Read
}

} // verus!

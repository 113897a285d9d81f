//! Message nodes as messages, token usage and tool events.

use vstd::hash_map::StringHashMap;
use vstd::hash_set::StringHashSet;
use vstd::prelude::*;
use vstd::string::*;

use crate::events;
use crate::events::{
    owned, parse_tool_call, some_non_empty, tool_result_event, EventContext, EventContextView,
    EventModel, ShellEvidence, ShellQuery,
};
use crate::message;
use crate::message::{parse_message, ChatMessage, ChatMessageView, ToolCall, ToolCallView};
use crate::store;
use crate::store::{
    seconds_to_ms, MessageNode, MessageNodeView, SessionRow, SessionRowView, EVENT_PARSER_VERSION,
    USAGE_PARSER_VERSION,
};
use crate::text;
use crate::types::{
    RawMessage, RawMessageView, RawSessionEvent, RawSessionEventView, RawUsageEvent,
    RawUsageEventView, Role,
};

verus! {

/// What the nodes of a session are read with: the session and its directory, the
/// path of the store where it is Unicode, and whether tool events are wanted.
pub struct Scope<'a> {
    pub session: &'a SessionRow,
    pub directory: &'a str,
    pub db_path: Option<&'a str>,
    pub include_events: bool,
}

#[verifier::ext_equal]
pub struct ScopeView {
    pub session: SessionRowView,
    pub directory: Seq<char>,
    pub db_path: Option<Seq<char>>,
    pub include_events: bool,
}

impl<'a> DeepView for Scope<'a> {
    type V = ScopeView;

    open spec fn deep_view(&self) -> ScopeView {
        ScopeView {
            session: self.session.deep_view(),
            directory: self.directory@,
            db_path: self.db_path.deep_view(),
            include_events: self.include_events,
        }
    }
}

/// A token count of a report: one that is missing or negative counts as zero.
pub open spec fn token_count(reported: Option<i64>) -> i64 {
    match reported {
        Some(n) => if n > 0 {
            n
        } else {
            0
        },
        None => 0,
    }
}

/// A text without the white space at its ends, or `fallback` where the text is
/// missing or blank.
pub open spec fn trimmed_or(value: Option<Seq<char>>, fallback: Seq<char>) -> Seq<char> {
    match value {
        Some(text) => if text::trimmed(text).len() > 0 {
            text::trimmed(text)
        } else {
            fallback
        },
        None => fallback,
    }
}

/// The usage that an assistant message reports: nothing where it has no report,
/// or one of zeros.
pub open spec fn usage_model(
    key: Seq<char>,
    event_seq: u32,
    timestamp: i64,
    message_seq: Option<u32>,
    message: ChatMessageView,
    session: SessionRowView,
    db_path: Option<Seq<char>>,
) -> Option<RawUsageEventView> {
    match message.metrics {
        Some(metrics) => {
            let input_tokens = token_count(metrics.input_tokens);
            let output_tokens = token_count(metrics.output_tokens);
            let cache_read_tokens = token_count(metrics.cache_read_tokens);
            let cache_write_tokens = token_count(metrics.cache_creation_tokens);
            if input_tokens + output_tokens + cache_read_tokens + cache_write_tokens == 0 {
                None
            } else {
                Some(
                    RawUsageEventView {
                        event_key: "message:"@ + key,
                        event_seq,
                        timestamp,
                        parser_version: USAGE_PARSER_VERSION,
                        message_seq,
                        model: trimmed_or(session.model, "unknown"@),
                        provider: trimmed_or(session.backend_type, "devin"@),
                        input_tokens,
                        output_tokens,
                        cache_read_tokens,
                        cache_write_tokens,
                        source_path: db_path,
                        raw_usage_json: Some(metrics.json),
                    },
                )
            }
        },
        None => None,
    }
}

/// The number of the last of `len` things, counted from zero.
pub open spec fn last_index(len: nat) -> Option<u32> {
    if len == 0 {
        None
    } else {
        Some((len - 1) as u32)
    }
}

/// What has been read of the nodes of a session up to some point.
#[verifier::ext_equal]
pub struct TranscriptModel {
    pub messages: Seq<RawMessageView>,
    pub usage_events: Seq<RawUsageEventView>,
    pub events: Seq<EventModel>,
    /// The keys of the nodes that were looked at.
    pub seen: Set<Seq<char>>,
    /// The tools that were called, by the id of the call.
    pub call_names: Map<Seq<char>, Seq<char>>,
}

impl TranscriptModel {
    pub open spec fn empty() -> TranscriptModel {
        TranscriptModel {
            messages: Seq::empty(),
            usage_events: Seq::empty(),
            events: Seq::empty(),
            seen: Set::empty(),
            call_names: Map::empty(),
        }
    }

    /// With one more message.
    pub open spec fn with_content(self, role: Role, content: Seq<char>, timestamp: i64) -> Self {
        TranscriptModel {
            messages: self.messages.push(
                RawMessageView { role, content, timestamp: Some(timestamp) },
            ),
            ..self
        }
    }

    /// With the tool call at `index` of an assistant message. A call without a
    /// name is left out.
    pub open spec fn with_call(
        self,
        node_id: i64,
        timestamp: i64,
        index: int,
        call: ToolCallView,
        scope: ScopeView,
    ) -> Self {
        match events::non_empty(call.name) {
            Some(name) => {
                let context = EventContextView {
                    event_seq: self.events.len() as u32,
                    timestamp: Some(timestamp),
                    source_path: scope.db_path,
                    source_event_id: Some(call_event_id(node_id, index)),
                    message_seq: last_index(self.messages.len()),
                    parser_version: EVENT_PARSER_VERSION,
                };
                TranscriptModel {
                    events: self.events.push(
                        events::tool_call_model(call, name, context, scope.directory),
                    ),
                    call_names: match events::non_empty(call.id) {
                        Some(id) => self.call_names.insert(id, name),
                        None => self.call_names,
                    },
                    ..self
                }
            },
            None => self,
        }
    }

    /// With the first `count` tool calls of an assistant message.
    pub open spec fn with_calls(
        self,
        node_id: i64,
        timestamp: i64,
        calls: Seq<ToolCallView>,
        count: nat,
        scope: ScopeView,
    ) -> Self
        decreases count,
    {
        if count == 0 {
            self
        } else {
            self.with_calls(node_id, timestamp, calls, (count - 1) as nat, scope).with_call(
                node_id,
                timestamp,
                count - 1,
                calls[count - 1],
                scope,
            )
        }
    }

    /// With the usage that an assistant message reports.
    pub open spec fn with_usage(
        self,
        key: Seq<char>,
        timestamp: i64,
        message: ChatMessageView,
        scope: ScopeView,
    ) -> Self {
        match usage_model(
            key,
            self.usage_events.len() as u32,
            timestamp,
            last_index(self.messages.len()),
            message,
            scope.session,
            scope.db_path,
        ) {
            Some(usage) => TranscriptModel { usage_events: self.usage_events.push(usage), ..self },
            None => self,
        }
    }

    /// With the result of a tool call.
    pub open spec fn with_result(
        self,
        node_id: i64,
        timestamp: i64,
        message: ChatMessageView,
        scope: ScopeView,
    ) -> Self {
        let context = EventContextView {
            event_seq: self.events.len() as u32,
            timestamp: Some(timestamp),
            source_path: scope.db_path,
            source_event_id: Some(result_event_id(node_id)),
            message_seq: last_index(self.messages.len()),
            parser_version: EVENT_PARSER_VERSION,
        };
        let call_id = events::non_empty(message.tool_call_id);
        let event = RawSessionEventView {
            name: match call_id {
                Some(id) => if self.call_names.contains_key(id) {
                    Some(self.call_names[id])
                } else {
                    None
                },
                None => None,
            },
            summary: events::non_blank(Some(message.content)),
            tool_call_id: call_id,
            status: match message.success {
                Some(success) => Some(
                    if success {
                        "success"@
                    } else {
                        "error"@
                    },
                ),
                None => None,
            },
            ..events::event_at(context, "tool_result"@)
        };
        TranscriptModel { events: self.events.push(EventModel { event, command: None }), ..self }
    }

    /// With the message of a node. A user message counts where a person typed it;
    /// an assistant message brings its tool calls and its usage with it; a tool
    /// message is the result of a call; blank messages and messages of any other
    /// role are left out.
    pub open spec fn with_message(
        self,
        node: MessageNodeView,
        message: ChatMessageView,
        scope: ScopeView,
    ) -> Self {
        let timestamp = store::in_milliseconds(node.created_at);
        if message.role == "user"@ {
            if message.is_user_input == Some(true) && !text::blank(message.content) {
                self.with_content(Role::User, message.content, timestamp)
            } else {
                self
            }
        } else if message.role == "assistant"@ {
            let spoken = if text::blank(message.content) {
                self
            } else {
                self.with_content(Role::Assistant, message.content, timestamp)
            };
            let called = if scope.include_events {
                spoken.with_calls(
                    node.node_id,
                    timestamp,
                    message.tool_calls,
                    message.tool_calls.len(),
                    scope,
                )
            } else {
                spoken
            };
            called.with_usage(node.dedupe_key, timestamp, message, scope)
        } else if message.role == "tool"@ && scope.include_events {
            self.with_result(node.node_id, timestamp, message, scope)
        } else {
            self
        }
    }

    /// With a node. A node whose key was seen before is left out, and so is one
    /// whose text is no JSON.
    pub open spec fn with_node(self, node: MessageNodeView, scope: ScopeView) -> Self {
        if self.seen.contains(node.dedupe_key) {
            self
        } else {
            let noted = TranscriptModel { seen: self.seen.insert(node.dedupe_key), ..self };
            match message::message_of_text(node.chat_message) {
                Some(message) => noted.with_message(node, message, scope),
                None => noted,
            }
        }
    }
}

/// What is read of a sequence of nodes.
pub open spec fn transcript(nodes: Seq<MessageNodeView>, scope: ScopeView) -> TranscriptModel
    decreases nodes.len(),
{
    if nodes.len() == 0 {
        TranscriptModel::empty()
    } else {
        transcript(nodes.drop_last(), scope).with_node(nodes.last(), scope)
    }
}

/// Whether some node has the key `key`.
pub open spec fn has_key(nodes: Seq<MessageNodeView>, key: Seq<char>) -> bool {
    exists|i: int| 0 <= i < nodes.len() && #[trigger] nodes[i].dedupe_key == key
}

/// The ids of the nodes that are left out because their text is no JSON, in their
/// order. A node whose key came before is not looked at.
pub open spec fn malformed(nodes: Seq<MessageNodeView>) -> Seq<i64>
    decreases nodes.len(),
{
    if nodes.len() == 0 {
        Seq::empty()
    } else {
        let before = malformed(nodes.drop_last());
        let last = nodes.last();
        if !has_key(nodes.drop_last(), last.dedupe_key) && message::message_of_text(
            last.chat_message,
        ) is None {
            before.push(last.node_id)
        } else {
            before
        }
    }
}

/// The id of the event of the tool call at `index` in the message of a node.
pub open spec fn call_event_id(node_id: i64, index: int) -> Seq<char> {
    "nodes:"@ + text::decimal(node_id as int) + ":tool_calls:"@ + text::decimal(index)
}

/// The id of the event of the tool result in the message of a node.
pub open spec fn result_event_id(node_id: i64) -> Seq<char> {
    "nodes:"@ + text::decimal(node_id as int)
}

/// Whether each event is the one at its place in `models`.
pub open spec fn events_match<F: Fn(&ShellQuery) -> ShellEvidence>(
    events: Seq<RawSessionEvent>,
    models: Seq<EventModel>,
    shell: F,
) -> bool {
    &&& events.len() == models.len()
    &&& forall|i: int|
        0 <= i < models.len() ==> (#[trigger] models[i]).stands_for(events[i].deep_view(), shell)
}

/// What was read of the nodes of a session.
#[derive(Debug, PartialEq)]
pub struct ParsedNodes {
    pub messages: Vec<RawMessage>,
    pub usage_events: Vec<RawUsageEvent>,
    pub events: Vec<RawSessionEvent>,
}

impl ParsedNodes {
    /// Whether this is what `model` says, with the evidence of `shell`.
    pub open spec fn stands_for<F: Fn(&ShellQuery) -> ShellEvidence>(
        self,
        model: TranscriptModel,
        shell: F,
    ) -> bool {
        &&& self.messages.deep_view() == model.messages
        &&& self.usage_events.deep_view() == model.usage_events
        &&& events_match(self.events@, model.events, shell)
    }
}

/// A reading of nodes that goes on.
pub struct Transcript {
    pub parsed: ParsedNodes,
    pub seen: StringHashSet,
    pub call_names: StringHashMap<String>,
}

/// Whether two maps from texts to texts are the same.
pub open spec fn names_match(
    names: Map<Seq<char>, String>,
    model: Map<Seq<char>, Seq<char>>,
) -> bool {
    &&& names.dom() == model.dom()
    &&& forall|key: Seq<char>| #[trigger] names.contains_key(key) ==> names[key]@ == model[key]
}

fn trimmed_or_else(value: &Option<String>, fallback: &str) -> (r: String)
    ensures
        r@ == trimmed_or(value.deep_view(), fallback@),
{
    if let Some(text) = value {
        let trimmed = text::trim(text.as_str());
        if !trimmed.is_empty() {
            return trimmed.to_string();
        }
    }
    fallback.to_string()
}

fn tokens(reported: Option<i64>) -> (r: i64)
    ensures
        r == token_count(reported),
{
    match reported {
        Some(n) => if n > 0 {
            n
        } else {
            0
        },
        None => 0,
    }
}

/// The usage that the message of a node reports, if any.
pub fn usage_event(
    key: &str,
    event_seq: u32,
    timestamp: i64,
    message_seq: Option<u32>,
    message: &ChatMessage,
    session: &SessionRow,
    db_path: Option<&str>,
) -> (r: Option<RawUsageEvent>)
    ensures
        r.deep_view() == usage_model(
            key@,
            event_seq,
            timestamp,
            message_seq,
            message.deep_view(),
            session.deep_view(),
            db_path.deep_view(),
        ),
{
    let metrics = match &message.metrics {
        Some(metrics) => metrics,
        None => {
            return None;
        },
    };
    let input_tokens = tokens(metrics.input_tokens);
    let output_tokens = tokens(metrics.output_tokens);
    let cache_read_tokens = tokens(metrics.cache_read_tokens);
    let cache_write_tokens = tokens(metrics.cache_creation_tokens);
    if input_tokens == 0 && output_tokens == 0 && cache_read_tokens == 0 && cache_write_tokens
        == 0 {
        return None;
    }
    let mut event_key = "message:".to_string();
    event_key.append(key);
    Some(
        RawUsageEvent {
            event_key,
            event_seq,
            timestamp,
            parser_version: USAGE_PARSER_VERSION,
            message_seq,
            model: trimmed_or_else(&session.model, "unknown"),
            provider: trimmed_or_else(&session.backend_type, "devin"),
            input_tokens,
            output_tokens,
            cache_read_tokens,
            cache_write_tokens,
            source_path: owned(db_path),
            raw_usage_json: Some(metrics.json.clone()),
        },
    )
}

fn last_of(len: usize) -> (r: Option<u32>)
    ensures
        r == last_index(len as nat),
{
    if len == 0 {
        None
    } else {
        Some((len - 1) as u32)
    }
}

fn call_event_key(node_id: i64, index: usize) -> (r: String)
    ensures
        r@ == call_event_id(node_id, index as int),
{
    let mut id = "nodes:".to_string();
    id.append(text::signed_decimal(node_id).as_str());
    id.append(":tool_calls:");
    id.append(text::unsigned_decimal(index as u64).as_str());
    id
}

fn result_event_key(node_id: i64) -> (r: String)
    ensures
        r@ == result_event_id(node_id),
{
    let mut id = "nodes:".to_string();
    id.append(text::signed_decimal(node_id).as_str());
    id
}

impl Transcript {
    /// Whether this is the reading that `model` says, with the evidence of
    /// `shell`.
    pub open spec fn stands_for<F: Fn(&ShellQuery) -> ShellEvidence>(
        self,
        model: TranscriptModel,
        shell: F,
    ) -> bool {
        &&& self.parsed.stands_for(model, shell)
        &&& self.seen@ == model.seen
        &&& names_match(self.call_names@, model.call_names)
    }

    /// A reading of no nodes.
    pub fn new() -> (r: Self)
        ensures
            r.parsed.messages.deep_view() == TranscriptModel::empty().messages,
            r.parsed.usage_events.deep_view() == TranscriptModel::empty().usage_events,
            r.parsed.events@ == Seq::<RawSessionEvent>::empty(),
            r.seen@ == TranscriptModel::empty().seen,
            r.call_names@ == Map::<Seq<char>, String>::empty(),
    {
        Transcript {
            parsed: ParsedNodes {
                messages: Vec::new(),
                usage_events: Vec::new(),
                events: Vec::new(),
            },
            seen: StringHashSet::new(),
            call_names: StringHashMap::new(),
        }
    }

    /// Takes up one more message.
    fn say(&mut self, role: Role, content: &str, timestamp: i64)
        ensures
            final(self).parsed.messages.deep_view() == old(self).parsed.messages.deep_view().push(
                RawMessageView { role, content: content@, timestamp: Some(timestamp) },
            ),
            final(self).parsed.usage_events == old(self).parsed.usage_events,
            final(self).parsed.events == old(self).parsed.events,
            final(self).seen == old(self).seen,
            final(self).call_names == old(self).call_names,
    {
        let message = RawMessage {
            role,
            content: content.to_string(),
            timestamp: Some(timestamp),
        };
        self.parsed.messages.push(message);
        assert(self.parsed.messages.deep_view() =~= old(self).parsed.messages.deep_view().push(
            message.deep_view(),
        ));
    }

    /// Takes up the tool call at `index` of an assistant message.
    fn take_call<F: Fn(&ShellQuery) -> ShellEvidence>(
        &mut self,
        node_id: i64,
        timestamp: i64,
        index: usize,
        call: &ToolCall,
        scope: &Scope,
        shell: &F,
    )
        requires
            forall|query: &ShellQuery| call_requires(*shell, (query,)),
        ensures
            forall|model: TranscriptModel| #[trigger]
                old(self).stands_for(model, *shell) ==> final(self).stands_for(
                    model.with_call(
                        node_id,
                        timestamp,
                        index as int,
                        call.deep_view(),
                        scope.deep_view(),
                    ),
                    *shell,
                ),
    {
        let name = match some_non_empty(&call.name) {
            Some(name) => name,
            None => {
                return;
            },
        };
        let context = EventContext {
            event_seq: self.parsed.events.len() as u32,
            timestamp: Some(timestamp),
            source_path: owned(scope.db_path),
            source_event_id: Some(call_event_key(node_id, index)),
            message_seq: last_of(self.parsed.messages.len()),
            parser_version: EVENT_PARSER_VERSION,
        };
        if let Some(event) = parse_tool_call(call, name, context, scope.directory, shell) {
            let ghost before = *self;
            if let Some(id) = some_non_empty(&call.id) {
                self.call_names.insert(id.to_string(), name.to_string());
            }
            self.parsed.events.push(event);
            proof {
                assert forall|model: TranscriptModel| #[trigger]
                    before.stands_for(model, *shell) implies self.stands_for(
                    model.with_call(
                        node_id,
                        timestamp,
                        index as int,
                        call.deep_view(),
                        scope.deep_view(),
                    ),
                    *shell,
                ) by {
                    let after = model.with_call(
                        node_id,
                        timestamp,
                        index as int,
                        call.deep_view(),
                        scope.deep_view(),
                    );
                    assert(before.parsed.messages.deep_view().len() == model.messages.len());
                    assert(names_match(self.call_names@, after.call_names));
                    assert(events_match(self.parsed.events@, after.events, *shell));
                }
            }
        }
    }

    /// Takes up the tool calls of an assistant message.
    fn take_calls<F: Fn(&ShellQuery) -> ShellEvidence>(
        &mut self,
        node_id: i64,
        timestamp: i64,
        calls: &Vec<ToolCall>,
        scope: &Scope,
        shell: &F,
    )
        requires
            forall|query: &ShellQuery| call_requires(*shell, (query,)),
        ensures
            forall|model: TranscriptModel| #[trigger]
                old(self).stands_for(model, *shell) ==> final(self).stands_for(
                    model.with_calls(
                        node_id,
                        timestamp,
                        calls.deep_view(),
                        calls.deep_view().len(),
                        scope.deep_view(),
                    ),
                    *shell,
                ),
    {
        let mut index: usize = 0;
        while index < calls.len()
            invariant
                index <= calls@.len(),
                forall|query: &ShellQuery| call_requires(*shell, (query,)),
                forall|model: TranscriptModel| #[trigger]
                    old(self).stands_for(model, *shell) ==> self.stands_for(
                        model.with_calls(
                            node_id,
                            timestamp,
                            calls.deep_view(),
                            index as nat,
                            scope.deep_view(),
                        ),
                        *shell,
                    ),
            decreases calls@.len() - index,
        {
            self.take_call(node_id, timestamp, index, &calls[index], scope, shell);
            index = index + 1;
        }
    }

    /// Takes up the usage that an assistant message reports.
    fn take_usage<F: Fn(&ShellQuery) -> ShellEvidence>(
        &mut self,
        key: &str,
        timestamp: i64,
        message: &ChatMessage,
        scope: &Scope,
        shell: &F,
    )
        ensures
            forall|model: TranscriptModel| #[trigger]
                old(self).stands_for(model, *shell) ==> final(self).stands_for(
                    model.with_usage(key@, timestamp, message.deep_view(), scope.deep_view()),
                    *shell,
                ),
    {
        let ghost before = *self;
        if let Some(usage) = usage_event(
            key,
            self.parsed.usage_events.len() as u32,
            timestamp,
            last_of(self.parsed.messages.len()),
            message,
            scope.session,
            scope.db_path,
        ) {
            self.parsed.usage_events.push(usage);
            assert(self.parsed.usage_events.deep_view()
                =~= before.parsed.usage_events.deep_view().push(usage.deep_view()));
        }
        proof {
            assert forall|model: TranscriptModel| #[trigger]
                before.stands_for(model, *shell) implies self.stands_for(
                model.with_usage(key@, timestamp, message.deep_view(), scope.deep_view()),
                *shell,
            ) by {
                assert(before.parsed.messages.deep_view().len() == model.messages.len());
                assert(before.parsed.usage_events.deep_view().len() == model.usage_events.len());
            }
        }
    }

    /// Takes up the result of a tool call.
    fn take_result<F: Fn(&ShellQuery) -> ShellEvidence>(
        &mut self,
        node_id: i64,
        timestamp: i64,
        message: &ChatMessage,
        scope: &Scope,
        shell: &F,
    )
        ensures
            forall|model: TranscriptModel| #[trigger]
                old(self).stands_for(model, *shell) ==> final(self).stands_for(
                    model.with_result(node_id, timestamp, message.deep_view(), scope.deep_view()),
                    *shell,
                ),
    {
        let context = EventContext {
            event_seq: self.parsed.events.len() as u32,
            timestamp: Some(timestamp),
            source_path: owned(scope.db_path),
            source_event_id: Some(result_event_key(node_id)),
            message_seq: last_of(self.parsed.messages.len()),
            parser_version: EVENT_PARSER_VERSION,
        };
        let ghost before = *self;
        let call_id = some_non_empty(&message.tool_call_id);
        let name = match call_id {
            Some(id) => match self.call_names.get(id) {
                Some(name) => Some(name.clone()),
                None => None,
            },
            None => None,
        };
        let summary = if text::is_blank(message.content.as_str()) {
            None
        } else {
            Some(message.content.clone())
        };
        let mut event = tool_result_event(context, name, summary);
        event.tool_call_id = owned(call_id);
        event.status = match message.success {
            Some(success) => Some(
                if success {
                    "success".to_string()
                } else {
                    "error".to_string()
                },
            ),
            None => None,
        };
        self.parsed.events.push(event);
        proof {
            assert forall|model: TranscriptModel| #[trigger]
                before.stands_for(model, *shell) implies self.stands_for(
                model.with_result(node_id, timestamp, message.deep_view(), scope.deep_view()),
                *shell,
            ) by {
                let after = model.with_result(
                    node_id,
                    timestamp,
                    message.deep_view(),
                    scope.deep_view(),
                );
                assert(before.parsed.messages.deep_view().len() == model.messages.len());
                assert(event.deep_view() =~= after.events.last().event);
                assert(events_match(self.parsed.events@, after.events, *shell));
            }
        }
    }

    /// Takes up the message of a node.
    pub fn take_message<F: Fn(&ShellQuery) -> ShellEvidence>(
        &mut self,
        node: &MessageNode,
        message: &ChatMessage,
        scope: &Scope,
        shell: &F,
    )
        requires
            forall|query: &ShellQuery| call_requires(*shell, (query,)),
        ensures
            forall|model: TranscriptModel| #[trigger]
                old(self).stands_for(model, *shell) ==> final(self).stands_for(
                    model.with_message(node.deep_view(), message.deep_view(), scope.deep_view()),
                    *shell,
                ),
    {
        let timestamp = seconds_to_ms(node.created_at);
        let role = message.role.as_str();
        let content = message.content.as_str();
        let typed = match message.is_user_input {
            Some(typed) => typed,
            None => false,
        };
        let ghost before = *self;
        if text::same_text(role, "user") {
            if typed && !text::is_blank(content) {
                self.say(Role::User, content, timestamp);
            }
        } else if text::same_text(role, "assistant") {
            if !text::is_blank(content) {
                self.say(Role::Assistant, content, timestamp);
                assert(forall|model: TranscriptModel| #[trigger]
                    before.stands_for(model, *shell) ==> self.stands_for(
                        model.with_content(Role::Assistant, content@, timestamp),
                        *shell,
                    ));
            }
            if scope.include_events {
                self.take_calls(node.node_id, timestamp, &message.tool_calls, scope, shell);
            }
            self.take_usage(node.dedupe_key.as_str(), timestamp, message, scope, shell);
        } else if text::same_text(role, "tool") && scope.include_events {
            self.take_result(node.node_id, timestamp, message, scope, shell);
        }
    }

    /// Takes up a node, unless its key was seen before or its text is no JSON.
    pub fn take_node<F: Fn(&ShellQuery) -> ShellEvidence>(
        &mut self,
        node: &MessageNode,
        scope: &Scope,
        shell: &F,
    )
        requires
            forall|query: &ShellQuery| call_requires(*shell, (query,)),
        ensures
            forall|model: TranscriptModel| #[trigger]
                old(self).stands_for(model, *shell) ==> final(self).stands_for(
                    model.with_node(node.deep_view(), scope.deep_view()),
                    *shell,
                ),
    {
        let ghost before = *self;
        if !self.seen.insert(node.dedupe_key.clone()) {
            assert(before.seen@.insert(node.dedupe_key@) =~= before.seen@);
            return;
        }
        let ghost noted = *self;
        assert(forall|model: TranscriptModel| #[trigger]
            before.stands_for(model, *shell) ==> noted.stands_for(
                TranscriptModel { seen: model.seen.insert(node.dedupe_key@), ..model },
                *shell,
            ));
        if let Some(message) = parse_message(node.chat_message.as_str()) {
            self.take_message(node, &message, scope, shell);
        }
    }
}

/// Reads the nodes of a session, in their order.
pub fn parse_nodes<F: Fn(&ShellQuery) -> ShellEvidence>(
    nodes: &[&MessageNode],
    session: &SessionRow,
    directory: &str,
    db_path: Option<&str>,
    include_events: bool,
    shell: &F,
) -> (r: ParsedNodes)
    requires
        forall|query: &ShellQuery| call_requires(*shell, (query,)),
    ensures
        r.stands_for(
            transcript(
                nodes.deep_view(),
                (ScopeView {
                    session: session.deep_view(),
                    directory: directory@,
                    db_path: db_path.deep_view(),
                    include_events,
                }),
            ),
            *shell,
        ),
{
    let scope = Scope { session, directory, db_path, include_events };
    let mut reading = Transcript::new();
    let mut at: usize = 0;
    assert(reading.call_names@.dom() =~= TranscriptModel::empty().call_names.dom());
    assert(nodes.deep_view().take(0) =~= Seq::empty());
    while at < nodes.len()
        invariant
            at <= nodes@.len(),
            forall|query: &ShellQuery| call_requires(*shell, (query,)),
            reading.stands_for(
                transcript(nodes.deep_view().take(at as int), scope.deep_view()),
                *shell,
            ),
        decreases nodes@.len() - at,
    {
        let ghost read = nodes.deep_view().take(at as int);
        reading.take_node(nodes[at], &scope, shell);
        at = at + 1;
        assert(nodes.deep_view().take(at as int).drop_last() =~= read);
    }
    assert(nodes.deep_view().take(at as int) =~= nodes.deep_view());
    reading.parsed
}

/// The ids of the nodes that a reading leaves out because their text is no JSON,
/// in their order.
pub fn malformed_nodes(nodes: &[&MessageNode]) -> (r: Vec<i64>)
    ensures
        r@ == malformed(nodes.deep_view()),
{
    let mut found: Vec<i64> = Vec::new();
    let mut seen = StringHashSet::new();
    let mut at: usize = 0;
    assert(nodes.deep_view().take(0) =~= Seq::empty());
    while at < nodes.len()
        invariant
            at <= nodes@.len(),
            found@ == malformed(nodes.deep_view().take(at as int)),
            forall|key: Seq<char>| #[trigger]
                seen@.contains(key) <==> has_key(nodes.deep_view().take(at as int), key),
        decreases nodes@.len() - at,
    {
        let node = nodes[at];
        let ghost front = nodes.deep_view().take(at as int);
        let ghost more = nodes.deep_view().take(at + 1);
        proof {
            assert(more.drop_last() =~= front);
            assert forall|key: Seq<char>| #[trigger]
                has_key(more, key) <==> has_key(front, key) || key == node.dedupe_key@ by {
                if has_key(front, key) {
                    let i = choose|i: int|
                        0 <= i < front.len() && #[trigger] front[i].dedupe_key == key;
                    assert(more[i].dedupe_key == key);
                }
                if key == node.dedupe_key@ {
                    assert(more[at as int].dedupe_key == key);
                }
                if has_key(more, key) && key != node.dedupe_key@ {
                    let i = choose|i: int|
                        0 <= i < more.len() && #[trigger] more[i].dedupe_key == key;
                    assert(front[i].dedupe_key == key);
                }
            }
        }
        if seen.insert(node.dedupe_key.clone()) {
            if parse_message(node.chat_message.as_str()).is_none() {
                found.push(node.node_id);
            }
        }
        at = at + 1;
    }
    assert(nodes.deep_view().take(at as int) =~= nodes.deep_view());
    found
}

} // verus!

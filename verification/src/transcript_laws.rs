//! What holds of every reading of message nodes.

use vstd::prelude::*;

use crate::events;
use crate::events::{EventContextView, EventModel};
use crate::message;
use crate::message::{ChatMessageView, ToolCallView};
use crate::parse;
use crate::parse::{ScopeView, TranscriptModel};
use crate::paths;
use crate::store;
use crate::store::MessageNodeView;
use crate::text;
use crate::types::{RawMessageView, Role};

verus! {

pub(crate) proof fn lemma_calls(
    model: TranscriptModel,
    node_id: i64,
    timestamp: i64,
    calls: Seq<ToolCallView>,
    count: nat,
    scope: ScopeView,
)
    ensures
        ({
            let after = model.with_calls(node_id, timestamp, calls, count, scope);
            &&& after.messages == model.messages
            &&& after.usage_events == model.usage_events
            &&& after.seen == model.seen
            &&& after.events.len() >= model.events.len()
            &&& forall|i: int|
                0 <= i < model.events.len() ==> #[trigger] after.events[i] == model.events[i]
            &&& forall|i: int|
                model.events.len() <= i < after.events.len() ==> {
                    &&& (#[trigger] after.events[i]).event.event_seq == i as u32
                    &&& after.events[i].event.message_seq == parse::last_index(model.messages.len())
                    &&& exists|index: int|
                        0 <= index < count && after.events[i].event.source_event_id == Some(
                            #[trigger] parse::call_event_id(node_id, index),
                        )
                }
        }),
    decreases count,
{
    if count > 0 {
        lemma_calls(model, node_id, timestamp, calls, (count - 1) as nat, scope);
        let before = model.with_calls(node_id, timestamp, calls, (count - 1) as nat, scope);
        let after = model.with_calls(node_id, timestamp, calls, count, scope);
        assert(after == before.with_call(node_id, timestamp, count - 1, calls[count - 1], scope));
        assert forall|i: int| model.events.len() <= i < after.events.len() implies {
            &&& (#[trigger] after.events[i]).event.event_seq == i as u32
            &&& after.events[i].event.message_seq == parse::last_index(model.messages.len())
            &&& exists|index: int|
                0 <= index < count && after.events[i].event.source_event_id == Some(
                    #[trigger] parse::call_event_id(node_id, index),
                )
        } by {
            if i < before.events.len() {
                assert(after.events[i] == before.events[i]);
                let index = choose|index: int|
                    0 <= index < count - 1 && before.events[i].event.source_event_id == Some(
                        #[trigger] parse::call_event_id(node_id, index),
                    );
                assert(after.events[i].event.source_event_id == Some(
                    parse::call_event_id(node_id, index),
                ));
            } else {
                assert(after.events[i].event.source_event_id == Some(
                    parse::call_event_id(node_id, count - 1),
                ));
            }
        }
    }
}

/// A reading with what a node says, but without its tool events and its usage.
spec fn spoken(
    model: TranscriptModel,
    node: MessageNodeView,
    message: ChatMessageView,
) -> TranscriptModel {
    let timestamp = store::in_milliseconds(node.created_at);
    if text::blank(message.content) {
        model
    } else if message.role == "user"@ {
        if message.is_user_input == Some(true) {
            model.with_content(Role::User, message.content, timestamp)
        } else {
            model
        }
    } else if message.role == "assistant"@ {
        model.with_content(Role::Assistant, message.content, timestamp)
    } else {
        model
    }
}

/// What taking up a message does to all but the tool events.
proof fn lemma_message(
    model: TranscriptModel,
    node: MessageNodeView,
    message: ChatMessageView,
    scope: ScopeView,
)
    ensures
        ({
            let after = model.with_message(node, message, scope);
            let said = spoken(model, node, message);
            let timestamp = store::in_milliseconds(node.created_at);
            &&& after.seen == model.seen
            &&& after.messages == said.messages
            &&& after.usage_events == (if message.role != "user"@ && message.role == "assistant"@ {
                said.with_usage(node.dedupe_key, timestamp, message, scope).usage_events
            } else {
                model.usage_events
            })
            &&& !scope.include_events ==> after.events == model.events
        }),
{
    lemma_calls(
        spoken(model, node, message),
        node.node_id,
        store::in_milliseconds(node.created_at),
        message.tool_calls,
        message.tool_calls.len(),
        scope,
    );
}

pub(crate) proof fn lemma_seen(nodes: Seq<MessageNodeView>, scope: ScopeView)
    ensures
        forall|key: Seq<char>| #[trigger]
            parse::transcript(nodes, scope).seen.contains(key) <==> parse::has_key(nodes, key),
    decreases nodes.len(),
{
    if nodes.len() > 0 {
        let front = nodes.drop_last();
        let last = nodes.last();
        lemma_seen(front, scope);
        let before = parse::transcript(front, scope);
        let noted = TranscriptModel { seen: before.seen.insert(last.dedupe_key), ..before };
        if let Some(message) = message::message_of_text(last.chat_message) {
            lemma_message(noted, last, message, scope);
        }
        assert forall|key: Seq<char>| #[trigger]
            parse::transcript(nodes, scope).seen.contains(key) <==> parse::has_key(nodes, key) by {
            if parse::has_key(front, key) {
                let i = choose|i: int|
                    0 <= i < front.len() && #[trigger] front[i].dedupe_key == key;
                assert(nodes[i].dedupe_key == key);
            }
            if parse::has_key(nodes, key) && last.dedupe_key != key {
                let i = choose|i: int|
                    0 <= i < nodes.len() && #[trigger] nodes[i].dedupe_key == key;
                assert(front[i].dedupe_key == key);
            }
            if last.dedupe_key == key {
                assert(nodes[nodes.len() - 1].dedupe_key == key);
            }
        }
    }
}

proof fn lemma_replay(
    nodes: Seq<MessageNodeView>,
    replay: Seq<MessageNodeView>,
    scope: ScopeView,
)
    requires
        forall|i: int| 0 <= i < replay.len() ==> parse::has_key(nodes, (#[trigger] replay[i]).dedupe_key),
    ensures
        parse::transcript(nodes + replay, scope) == parse::transcript(nodes, scope),
    decreases replay.len(),
{
    if replay.len() == 0 {
        assert(nodes + replay =~= nodes);
    } else {
        lemma_replay(nodes, replay.drop_last(), scope);
        assert((nodes + replay).drop_last() =~= nodes + replay.drop_last());
        lemma_seen(nodes, scope);
        assert(parse::has_key(nodes, replay[replay.len() - 1].dedupe_key));
    }
}

/// Nodes that replay messages which were read before change nothing, whatever
/// comes after them.
pub proof fn law_replay_changes_nothing(
    nodes: Seq<MessageNodeView>,
    replay: Seq<MessageNodeView>,
    rest: Seq<MessageNodeView>,
    scope: ScopeView,
)
    requires
        forall|i: int| 0 <= i < replay.len() ==> parse::has_key(nodes, (#[trigger] replay[i]).dedupe_key),
    ensures
        parse::transcript(nodes + replay + rest, scope) == parse::transcript(nodes + rest, scope),
    decreases rest.len(),
{
    if rest.len() == 0 {
        assert(nodes + replay + rest =~= nodes + replay);
        assert(nodes + rest =~= nodes);
        lemma_replay(nodes, replay, scope);
    } else {
        law_replay_changes_nothing(nodes, replay, rest.drop_last(), scope);
        assert((nodes + replay + rest).drop_last() =~= nodes + replay + rest.drop_last());
        assert((nodes + rest).drop_last() =~= nodes + rest.drop_last());
    }
}

/// Whether `after` starts with all that `before` holds.
pub open spec fn starts_with(after: TranscriptModel, before: TranscriptModel) -> bool {
    &&& before.messages.is_prefix_of(after.messages)
    &&& before.usage_events.is_prefix_of(after.usage_events)
    &&& before.events.is_prefix_of(after.events)
}

/// What one node adds: it comes after all that was read before, and what is added
/// names the last message that was read up to then.
pub(crate) proof fn lemma_node(model: TranscriptModel, node: MessageNodeView, scope: ScopeView)
    ensures
        ({
            let after = model.with_node(node, scope);
            let last = parse::last_index(after.messages.len());
            &&& starts_with(after, model)
            &&& forall|i: int|
                model.events.len() <= i < after.events.len() ==> (
                #[trigger] after.events[i]).event.message_seq == last
            &&& forall|i: int|
                model.usage_events.len() <= i < after.usage_events.len() ==> (
                #[trigger] after.usage_events[i]).message_seq == last
        }),
{
    let after = model.with_node(node, scope);
    let noted = TranscriptModel { seen: model.seen.insert(node.dedupe_key), ..model };
    if let Some(message) = message::message_of_text(node.chat_message) {
        lemma_message(noted, node, message, scope);
        lemma_calls(
            spoken(noted, node, message),
            node.node_id,
            store::in_milliseconds(node.created_at),
            message.tool_calls,
            message.tool_calls.len(),
            scope,
        );
    }
    assert(model.messages =~= after.messages.subrange(0, model.messages.len() as int));
    assert(model.usage_events =~= after.usage_events.subrange(
        0,
        model.usage_events.len() as int,
    ));
    assert(model.events =~= after.events.subrange(0, model.events.len() as int));
}

/// Later nodes never change what was read of earlier ones.
pub proof fn law_later_nodes_change_nothing(
    nodes: Seq<MessageNodeView>,
    later: Seq<MessageNodeView>,
    scope: ScopeView,
)
    ensures
        starts_with(parse::transcript(nodes + later, scope), parse::transcript(nodes, scope)),
    decreases later.len(),
{
    if later.len() == 0 {
        assert(nodes + later =~= nodes);
    } else {
        law_later_nodes_change_nothing(nodes, later.drop_last(), scope);
        assert((nodes + later).drop_last() =~= nodes + later.drop_last());
        let first = parse::transcript(nodes, scope);
        let before = parse::transcript(nodes + later.drop_last(), scope);
        let after = parse::transcript(nodes + later, scope);
        lemma_node(before, later.last(), scope);
        assert(first.messages =~= after.messages.subrange(0, first.messages.len() as int)) by {
            lemma_prefix(first.messages, before.messages, after.messages);
        }
        assert(first.events =~= after.events.subrange(0, first.events.len() as int)) by {
            lemma_prefix(first.events, before.events, after.events);
        }
        assert(first.usage_events =~= after.usage_events.subrange(
            0,
            first.usage_events.len() as int,
        )) by {
            lemma_prefix(first.usage_events, before.usage_events, after.usage_events);
        }
    }
}

proof fn lemma_prefix<T>(a: Seq<T>, b: Seq<T>, c: Seq<T>)
    requires
        a.is_prefix_of(b),
        b.is_prefix_of(c),
    ensures
        a.is_prefix_of(c),
{
    assert forall|i: int| 0 <= i < a.len() implies #[trigger] a[i] == c[i] by {
        assert(a[i] == b.subrange(0, a.len() as int)[i]);
        assert(b[i] == c.subrange(0, b.len() as int)[i]);
    }
    assert(a =~= c.subrange(0, a.len() as int));
}

/// The events and the usage that the node at `node` brings name the last message
/// that was read up to and with that node.
pub proof fn law_events_name_the_last_message(
    nodes: Seq<MessageNodeView>,
    scope: ScopeView,
    node: int,
    at: int,
)
    requires
        0 <= node < nodes.len(),
    ensures
        ({
            let before = parse::transcript(nodes.take(node), scope);
            let after = parse::transcript(nodes.take(node + 1), scope);
            let whole = parse::transcript(nodes, scope);
            let last = parse::last_index(after.messages.len());
            &&& before.events.len() <= at < after.events.len()
                ==> whole.events[at].event.message_seq == last
            &&& before.usage_events.len() <= at < after.usage_events.len()
                ==> whole.usage_events[at].message_seq == last
        }),
{
    let front = nodes.take(node + 1);
    let after = parse::transcript(front, scope);
    let whole = parse::transcript(nodes, scope);
    assert(front.drop_last() =~= nodes.take(node));
    assert(front + nodes.skip(node + 1) =~= nodes);
    lemma_node(parse::transcript(nodes.take(node), scope), front.last(), scope);
    law_later_nodes_change_nothing(front, nodes.skip(node + 1), scope);
    if 0 <= at < after.events.len() {
        assert(after.events[at] == whole.events.subrange(0, after.events.len() as int)[at]);
    }
    if 0 <= at < after.usage_events.len() {
        assert(after.usage_events[at] == whole.usage_events.subrange(
            0,
            after.usage_events.len() as int,
        )[at]);
    }
}

/// Whether a number is that of one of `len` things, counted from zero.
pub open spec fn numbers_one_of(number: Option<u32>, len: nat) -> bool {
    number matches Some(number) ==> exists|i: int| 0 <= i < len && number == #[trigger] (i as u32)
}

/// Whether events and usage are numbered in their order, and the messages that
/// they name are there.
pub open spec fn numbered(model: TranscriptModel) -> bool {
    &&& forall|i: int|
        0 <= i < model.events.len() ==> {
            &&& (#[trigger] model.events[i]).event.event_seq == i as u32
            &&& numbers_one_of(model.events[i].event.message_seq, model.messages.len())
        }
    &&& forall|i: int|
        0 <= i < model.usage_events.len() ==> {
            &&& (#[trigger] model.usage_events[i]).event_seq == i as u32
            &&& numbers_one_of(model.usage_events[i].message_seq, model.messages.len())
        }
}

proof fn lemma_number_stays(number: Option<u32>, len: nat, more: nat)
    requires
        numbers_one_of(number, len),
        len <= more,
    ensures
        numbers_one_of(number, more),
{
    if let Some(number) = number {
        let i = choose|i: int| 0 <= i < len && number == #[trigger] (i as u32);
        assert(number == i as u32);
    }
}

proof fn lemma_last_index(len: nat)
    ensures
        numbers_one_of(parse::last_index(len), len),
{
    if len > 0 {
        assert(parse::last_index(len) == Some((len - 1) as u32));
    }
}

proof fn lemma_numbered_content(model: TranscriptModel, role: Role, content: Seq<char>, at: i64)
    requires
        numbered(model),
    ensures
        numbered(model.with_content(role, content, at)),
{
    let after = model.with_content(role, content, at);
    assert forall|i: int| 0 <= i < after.events.len() implies numbers_one_of(
        (#[trigger] after.events[i]).event.message_seq,
        after.messages.len(),
    ) by {
        lemma_number_stays(
            model.events[i].event.message_seq,
            model.messages.len(),
            after.messages.len(),
        );
    }
    assert forall|i: int| 0 <= i < after.usage_events.len() implies numbers_one_of(
        (#[trigger] after.usage_events[i]).message_seq,
        after.messages.len(),
    ) by {
        lemma_number_stays(
            model.usage_events[i].message_seq,
            model.messages.len(),
            after.messages.len(),
        );
    }
}

proof fn lemma_numbered_message(
    model: TranscriptModel,
    node: MessageNodeView,
    message: ChatMessageView,
    scope: ScopeView,
)
    requires
        numbered(model),
    ensures
        numbered(model.with_message(node, message, scope)),
{
    let timestamp = store::in_milliseconds(node.created_at);
    lemma_last_index(model.messages.len());
    if message.role == "user"@ {
        lemma_numbered_content(model, Role::User, message.content, timestamp);
    } else if message.role == "assistant"@ {
        let spoken = if text::blank(message.content) {
            model
        } else {
            lemma_numbered_content(model, Role::Assistant, message.content, timestamp);
            model.with_content(Role::Assistant, message.content, timestamp)
        };
        let count = message.tool_calls.len();
        lemma_calls(spoken, node.node_id, timestamp, message.tool_calls, count, scope);
        lemma_last_index(spoken.messages.len());
        let called = if scope.include_events {
            spoken.with_calls(node.node_id, timestamp, message.tool_calls, count, scope)
        } else {
            spoken
        };
        assert(numbered(called)) by {
            assert forall|i: int| 0 <= i < called.events.len() implies {
                &&& (#[trigger] called.events[i]).event.event_seq == i as u32
                &&& numbers_one_of(called.events[i].event.message_seq, called.messages.len())
            } by {
                if i < spoken.events.len() {
                    assert(called.events[i] == spoken.events[i]);
                }
            }
        }
    }
}

/// The events and the usage of a session are numbered in their order, and each
/// message that one of them names is there.
pub proof fn law_events_are_numbered(nodes: Seq<MessageNodeView>, scope: ScopeView)
    ensures
        numbered(parse::transcript(nodes, scope)),
    decreases nodes.len(),
{
    if nodes.len() > 0 {
        let last = nodes.last();
        law_events_are_numbered(nodes.drop_last(), scope);
        let before = parse::transcript(nodes.drop_last(), scope);
        let noted = TranscriptModel { seen: before.seen.insert(last.dedupe_key), ..before };
        assert(numbered(noted));
        if let Some(message) = message::message_of_text(last.chat_message) {
            lemma_numbered_message(noted, last, message, scope);
        }
    }
}

/// Whether `said` is the message of a node: one that is not blank, and that a
/// person typed or the assistant wrote.
pub open spec fn said_in(said: RawMessageView, node: MessageNodeView) -> bool {
    message::message_of_text(node.chat_message) matches Some(message) && {
        &&& said.content == message.content
        &&& said.timestamp == Some(store::in_milliseconds(node.created_at))
        &&& !text::blank(message.content)
        &&& match said.role {
            Role::User => message.role == "user"@ && message.is_user_input == Some(true),
            Role::Assistant => message.role == "assistant"@,
        }
    }
}

/// Every message of a session is that of one of its nodes: no prompt that the
/// program wrote for itself is among them, and none is blank.
pub proof fn law_messages_are_said(nodes: Seq<MessageNodeView>, scope: ScopeView, at: int)
    requires
        0 <= at < parse::transcript(nodes, scope).messages.len(),
    ensures
        exists|i: int|
            0 <= i < nodes.len() && #[trigger] said_in(
                parse::transcript(nodes, scope).messages[at],
                nodes[i],
            ),
    decreases nodes.len(),
{
    let front = nodes.drop_last();
    let last = nodes.last();
    let before = parse::transcript(front, scope);
    let said = parse::transcript(nodes, scope).messages[at];
    let noted = TranscriptModel { seen: before.seen.insert(last.dedupe_key), ..before };
    if let Some(message) = message::message_of_text(last.chat_message) {
        lemma_message(noted, last, message, scope);
    }
    if at < before.messages.len() {
        law_messages_are_said(front, scope, at);
        assert(said == before.messages[at]);
        let i = choose|i: int| 0 <= i < front.len() && #[trigger] said_in(said, front[i]);
        assert(said_in(said, nodes[i]));
    } else {
        assert(said_in(said, nodes[nodes.len() - 1]));
    }
}

/// Whether the node at `at` is the first with its key.
pub open spec fn first_with_its_key(nodes: Seq<MessageNodeView>, at: int) -> bool {
    !parse::has_key(nodes.take(at), nodes[at].dedupe_key)
}

/// Whether `said` is among the messages.
pub open spec fn said_among(said: RawMessageView, messages: Seq<RawMessageView>) -> bool {
    exists|i: int| 0 <= i < messages.len() && #[trigger] messages[i] == said
}

/// What a person typed or the assistant wrote is kept, unless it replays an
/// earlier node.
pub proof fn law_messages_are_kept(
    nodes: Seq<MessageNodeView>,
    scope: ScopeView,
    at: int,
    said: RawMessageView,
)
    requires
        0 <= at < nodes.len(),
        first_with_its_key(nodes, at),
        said_in(said, nodes[at]),
    ensures
        said_among(said, parse::transcript(nodes, scope).messages),
    decreases nodes.len(),
{
    let front = nodes.drop_last();
    let last = nodes.last();
    let before = parse::transcript(front, scope);
    let after = parse::transcript(nodes, scope);
    let noted = TranscriptModel { seen: before.seen.insert(last.dedupe_key), ..before };
    if let Some(message) = message::message_of_text(last.chat_message) {
        lemma_message(noted, last, message, scope);
    }
    if at < front.len() {
        assert(front.take(at) =~= nodes.take(at));
        law_messages_are_kept(front, scope, at, said);
        let i = choose|i: int|
            0 <= i < before.messages.len() && #[trigger] before.messages[i] == said;
        assert(after.messages[i] == said);
    } else {
        assert(nodes.take(at) =~= front);
        lemma_seen(front, scope);
        lemma_roles();
        assert(after.messages.last() == said);
    }
}

proof fn lemma_roles()
    ensures
        "user"@ != "assistant"@,
{
    reveal_strlit("user");
    reveal_strlit("assistant");
    assert("user"@.len() != "assistant"@.len());
}

/// A session holds at most one message for each of its nodes.
pub proof fn law_one_message_for_each_node(nodes: Seq<MessageNodeView>, scope: ScopeView)
    ensures
        parse::transcript(nodes, scope).messages.len() <= nodes.len(),
        parse::transcript(nodes, scope).usage_events.len() <= nodes.len(),
    decreases nodes.len(),
{
    if nodes.len() > 0 {
        let last = nodes.last();
        law_one_message_for_each_node(nodes.drop_last(), scope);
        let before = parse::transcript(nodes.drop_last(), scope);
        let noted = TranscriptModel { seen: before.seen.insert(last.dedupe_key), ..before };
        if let Some(message) = message::message_of_text(last.chat_message) {
            lemma_message(noted, last, message, scope);
        }
    }
}

/// Leaving the tool events out leaves the messages and the usage as they are.
pub proof fn law_events_are_separate(nodes: Seq<MessageNodeView>, scope: ScopeView)
    ensures
        ({
            let without = parse::transcript(nodes, ScopeView { include_events: false, ..scope });
            let with = parse::transcript(nodes, ScopeView { include_events: true, ..scope });
            &&& without.events.len() == 0
            &&& without.messages == with.messages
            &&& without.usage_events == with.usage_events
            &&& without.seen == with.seen
        }),
    decreases nodes.len(),
{
    if nodes.len() > 0 {
        let last = nodes.last();
        law_events_are_separate(nodes.drop_last(), scope);
        let on = ScopeView { include_events: true, ..scope };
        let before = parse::transcript(nodes.drop_last(), on);
        let noted = TranscriptModel { seen: before.seen.insert(last.dedupe_key), ..before };
        if let Some(message) = message::message_of_text(last.chat_message) {
            lemma_message(noted, last, message, on);
        }
    }
}

/// Every usage event counts at least one token, and none counts fewer than zero
/// of any kind.
pub proof fn law_usage_counts_tokens(nodes: Seq<MessageNodeView>, scope: ScopeView, at: int)
    requires
        0 <= at < parse::transcript(nodes, scope).usage_events.len(),
    ensures
        ({
            let usage = parse::transcript(nodes, scope).usage_events[at];
            &&& usage.input_tokens >= 0
            &&& usage.output_tokens >= 0
            &&& usage.cache_read_tokens >= 0
            &&& usage.cache_write_tokens >= 0
            &&& usage.input_tokens + usage.output_tokens + usage.cache_read_tokens
                + usage.cache_write_tokens > 0
        }),
    decreases nodes.len(),
{
    let front = nodes.drop_last();
    let last = nodes.last();
    let before = parse::transcript(front, scope);
    let noted = TranscriptModel { seen: before.seen.insert(last.dedupe_key), ..before };
    if let Some(message) = message::message_of_text(last.chat_message) {
        lemma_message(noted, last, message, scope);
    }
    if at < before.usage_events.len() {
        law_usage_counts_tokens(front, scope, at);
    }
}

/// Whether a usage event is that of a key which was seen.
spec fn usage_is_seen(event_key: Seq<char>, seen: Set<Seq<char>>) -> bool {
    exists|key: Seq<char>| #[trigger] seen.contains(key) && event_key == "message:"@ + key
}

/// Whether no two usage events have the same key.
pub open spec fn usage_keys_differ(model: TranscriptModel) -> bool {
    forall|i: int, j: int|
        #![trigger model.usage_events[i], model.usage_events[j]]
        0 <= i < j < model.usage_events.len() ==> model.usage_events[i].event_key
            != model.usage_events[j].event_key
}

proof fn lemma_usage_keys(nodes: Seq<MessageNodeView>, scope: ScopeView)
    ensures
        ({
            let read = parse::transcript(nodes, scope);
            &&& usage_keys_differ(read)
            &&& forall|i: int|
                0 <= i < read.usage_events.len() ==> usage_is_seen(
                    (#[trigger] read.usage_events[i]).event_key,
                    read.seen,
                )
        }),
    decreases nodes.len(),
{
    if nodes.len() > 0 {
        let last = nodes.last();
        let prefix = "message:"@;
        lemma_usage_keys(nodes.drop_last(), scope);
        let before = parse::transcript(nodes.drop_last(), scope);
        let after = parse::transcript(nodes, scope);
        let noted = TranscriptModel { seen: before.seen.insert(last.dedupe_key), ..before };
        if let Some(message) = message::message_of_text(last.chat_message) {
            lemma_message(noted, last, message, scope);
        }
        assert forall|i: int| 0 <= i < after.usage_events.len() implies usage_is_seen(
            (#[trigger] after.usage_events[i]).event_key,
            after.seen,
        ) by {
            if i < before.usage_events.len() {
                assert(after.usage_events[i] == before.usage_events[i]);
                let key = choose|key: Seq<char>| #[trigger]
                    before.seen.contains(key) && before.usage_events[i].event_key == prefix + key;
                assert(after.seen.contains(key));
            } else {
                assert(after.seen.contains(last.dedupe_key));
            }
        }
        assert forall|i: int, j: int|
            #![trigger after.usage_events[i], after.usage_events[j]]
            0 <= i < j < after.usage_events.len() implies after.usage_events[i].event_key
            != after.usage_events[j].event_key by {
            assert(after.usage_events[i] == before.usage_events[i]);
            if j < before.usage_events.len() {
                assert(after.usage_events[j] == before.usage_events[j]);
            } else {
                let key = choose|key: Seq<char>| #[trigger]
                    before.seen.contains(key) && before.usage_events[i].event_key == prefix + key;
                assert(after.usage_events[j].event_key == prefix + last.dedupe_key);
                assert((prefix + key).skip(prefix.len() as int) =~= key);
                assert((prefix + last.dedupe_key).skip(prefix.len() as int) =~= last.dedupe_key);
            }
        }
    }
}

/// Usage is counted once for each key: no two usage events have the same.
pub proof fn law_usage_keys_differ(nodes: Seq<MessageNodeView>, scope: ScopeView)
    ensures
        usage_keys_differ(parse::transcript(nodes, scope)),
{
    lemma_usage_keys(nodes, scope);
}

/// The shell analysis is asked only about commands that are not blank. The
/// directory that it is given is that of the call or that of the session, and the
/// machine says that it is absolute; a plainly relative one is never given.
pub proof fn law_shell_is_asked_about_commands(
    call: ToolCallView,
    name: Seq<char>,
    context: EventContextView,
    directory: Seq<char>,
    cwd: Option<Seq<char>>,
)
    ensures
        ({
            let model = events::tool_call_model(call, name, context, directory);
            model.command matches Some(command) ==> {
                &&& !text::blank(command.command)
                &&& model.event.kind == "command"@
                &&& model.event.target == Some(command.command)
                &&& command.runs_in(cwd) && cwd is Some ==> {
                    &&& cwd == command.workdir || cwd == Some(directory)
                    &&& paths::says_absolute(cwd->0, true)
                    &&& !paths::plainly_relative(cwd->0)
                }
            }
        }),
{
    if let Some(path) = cwd {
        if paths::plainly_relative(path) {
            paths::law_plainly_relative_is_not_absolute(path);
        }
    }
}

/// Whether an event is a tool call, and not the result of one.
pub open spec fn is_call(model: EventModel) -> bool {
    model.event.kind != "tool_result"@
}

/// Whether an event is the call with the id `id`.
pub open spec fn is_call_with(model: EventModel, id: Seq<char>) -> bool {
    is_call(model) && model.event.tool_call_id == Some(id)
}

/// Whether the event at `i` is the latest call with the id `id` before `at`.
pub open spec fn is_latest_call(
    events: Seq<EventModel>,
    at: int,
    i: int,
    id: Seq<char>,
) -> bool {
    &&& 0 <= i < at
    &&& is_call_with(events[i], id)
    &&& forall|j: int| i < j < at ==> !(#[trigger] is_call_with(events[j], id))
}

/// Whether the event at `at`, where it is a result, has the name of the latest call
/// before it with the same id, and no name only where there is no such call.
pub open spec fn result_is_named(events: Seq<EventModel>, at: int) -> bool {
    !is_call(events[at]) ==> match events[at].event.tool_call_id {
        Some(id) => match events[at].event.name {
            Some(name) => exists|i: int| #[trigger]
                is_latest_call(events, at, i, id) && events[i].event.name == Some(name),
            None => forall|i: int| 0 <= i < at ==> !(#[trigger] is_call_with(events[i], id)),
        },
        None => events[at].event.name is None,
    }
}

/// Whether the calls that are remembered are the latest among the events, and the
/// results among the events are named after them.
spec fn calls_remembered(events: Seq<EventModel>, names: Map<Seq<char>, Seq<char>>) -> bool {
    &&& forall|id: Seq<char>| #[trigger]
        names.contains_key(id) ==> exists|i: int| #[trigger]
            is_latest_call(events, events.len() as int, i, id) && events[i].event.name == Some(
                names[id],
            )
    &&& forall|id: Seq<char>, i: int|
        0 <= i < events.len() && #[trigger] is_call_with(events[i], id) ==> names.contains_key(id)
    &&& forall|at: int| 0 <= at < events.len() ==> #[trigger] result_is_named(events, at)
}

proof fn lemma_kinds()
    ensures
        "tool_call"@ != "tool_result"@,
        "file_read"@ != "tool_result"@,
        "file_write"@ != "tool_result"@,
        "command"@ != "tool_result"@,
{
    reveal_strlit("tool_call");
    reveal_strlit("file_read");
    reveal_strlit("file_write");
    reveal_strlit("command");
    reveal_strlit("tool_result");
    assert("tool_call"@.len() != "tool_result"@.len());
    assert("file_read"@.len() != "tool_result"@.len());
    assert("file_write"@.len() != "tool_result"@.len());
    assert("command"@.len() != "tool_result"@.len());
}

proof fn lemma_result_stays_named(events: Seq<EventModel>, more: EventModel, at: int)
    requires
        0 <= at < events.len(),
        result_is_named(events, at),
    ensures
        result_is_named(events.push(more), at),
{
    let after = events.push(more);
    assert(after[at] == events[at]);
    if !is_call(events[at]) {
        if let Some(id) = events[at].event.tool_call_id {
            if let Some(name) = events[at].event.name {
                let i = choose|i: int| #[trigger]
                    is_latest_call(events, at, i, id) && events[i].event.name == Some(name);
                assert forall|j: int| i < j < at implies !(#[trigger] is_call_with(
                    after[j],
                    id,
                )) by {
                    assert(!is_call_with(events[j], id));
                }
                assert(is_latest_call(after, at, i, id));
            } else {
                assert forall|i: int| 0 <= i < at implies !(#[trigger] is_call_with(
                    after[i],
                    id,
                )) by {
                    assert(!is_call_with(events[i], id));
                }
            }
        }
    }
}

proof fn lemma_latest_stays(
    events: Seq<EventModel>,
    more: EventModel,
    id: Seq<char>,
    name: Seq<char>,
)
    requires
        !is_call_with(more, id),
        exists|i: int| #[trigger]
            is_latest_call(events, events.len() as int, i, id) && events[i].event.name == Some(
                name,
            ),
    ensures
        exists|i: int| #[trigger]
            is_latest_call(events.push(more), events.len() as int + 1, i, id) && events.push(
                more,
            )[i].event.name == Some(name),
{
    let after = events.push(more);
    let i = choose|i: int| #[trigger]
        is_latest_call(events, events.len() as int, i, id) && events[i].event.name == Some(name);
    assert forall|j: int| i < j < events.len() + 1 implies !(#[trigger] is_call_with(
        after[j],
        id,
    )) by {
        if j < events.len() {
            assert(!is_call_with(events[j], id));
        }
    }
    assert(is_latest_call(after, events.len() as int + 1, i, id));
}

proof fn lemma_call_remembered(
    model: TranscriptModel,
    node_id: i64,
    timestamp: i64,
    index: int,
    call: ToolCallView,
    scope: ScopeView,
)
    requires
        calls_remembered(model.events, model.call_names),
    ensures
        ({
            let after = model.with_call(node_id, timestamp, index, call, scope);
            calls_remembered(after.events, after.call_names)
        }),
{
    lemma_kinds();
    let after = model.with_call(node_id, timestamp, index, call, scope);
    if events::non_empty(call.name) is Some {
        let added = after.events.last();
        let last = model.events.len() as int;
        assert(is_call(added));
        assert(after.events[last] == added);
        assert forall|id: Seq<char>| #[trigger]
            after.call_names.contains_key(id) implies exists|i: int| #[trigger]
            is_latest_call(after.events, after.events.len() as int, i, id)
                && after.events[i].event.name == Some(after.call_names[id]) by {
            if events::non_empty(call.id) == Some(id) {
                assert(is_latest_call(after.events, after.events.len() as int, last, id));
            } else {
                assert(model.call_names.contains_key(id));
                lemma_latest_stays(model.events, added, id, model.call_names[id]);
            }
        }
        assert forall|id: Seq<char>, i: int|
            0 <= i < after.events.len() && #[trigger] is_call_with(
                after.events[i],
                id,
            ) implies after.call_names.contains_key(id) by {
            if i < last {
                assert(is_call_with(model.events[i], id));
            }
        }
        assert forall|at: int| 0 <= at < after.events.len() implies #[trigger] result_is_named(
            after.events,
            at,
        ) by {
            if at < last {
                assert(result_is_named(model.events, at));
                lemma_result_stays_named(model.events, added, at);
            }
        }
    }
}

proof fn lemma_calls_remembered(
    model: TranscriptModel,
    node_id: i64,
    timestamp: i64,
    calls: Seq<ToolCallView>,
    count: nat,
    scope: ScopeView,
)
    requires
        calls_remembered(model.events, model.call_names),
    ensures
        ({
            let after = model.with_calls(node_id, timestamp, calls, count, scope);
            calls_remembered(after.events, after.call_names)
        }),
    decreases count,
{
    if count > 0 {
        lemma_calls_remembered(model, node_id, timestamp, calls, (count - 1) as nat, scope);
        lemma_call_remembered(
            model.with_calls(node_id, timestamp, calls, (count - 1) as nat, scope),
            node_id,
            timestamp,
            count - 1,
            calls[count - 1],
            scope,
        );
    }
}

proof fn lemma_result_remembered(
    model: TranscriptModel,
    node_id: i64,
    timestamp: i64,
    message: ChatMessageView,
    scope: ScopeView,
)
    requires
        calls_remembered(model.events, model.call_names),
    ensures
        ({
            let after = model.with_result(node_id, timestamp, message, scope);
            calls_remembered(after.events, after.call_names)
        }),
{
    let after = model.with_result(node_id, timestamp, message, scope);
    let added = after.events.last();
    let last = model.events.len() as int;
    assert(after.events[last] == added);
    assert(!is_call(added));
    assert forall|id: Seq<char>| #[trigger]
        after.call_names.contains_key(id) implies exists|i: int| #[trigger]
        is_latest_call(after.events, after.events.len() as int, i, id)
            && after.events[i].event.name == Some(after.call_names[id]) by {
        assert(model.call_names.contains_key(id));
        lemma_latest_stays(model.events, added, id, model.call_names[id]);
    }
    assert forall|id: Seq<char>, i: int|
        0 <= i < after.events.len() && #[trigger] is_call_with(
            after.events[i],
            id,
        ) implies after.call_names.contains_key(id) by {
        assert(i < last);
        assert(is_call_with(model.events[i], id));
    }
    assert forall|at: int| 0 <= at < after.events.len() implies #[trigger] result_is_named(
        after.events,
        at,
    ) by {
        if at < last {
            assert(result_is_named(model.events, at));
            lemma_result_stays_named(model.events, added, at);
        } else if let Some(id) = added.event.tool_call_id {
            if let Some(name) = added.event.name {
                assert(model.call_names.contains_key(id));
                let i = choose|i: int| #[trigger]
                    is_latest_call(model.events, last, i, id) && model.events[i].event.name
                        == Some(model.call_names[id]);
                assert forall|j: int| i < j < last implies !(#[trigger] is_call_with(
                    after.events[j],
                    id,
                )) by {
                    assert(!is_call_with(model.events[j], id));
                }
                assert(is_latest_call(after.events, at, i, id));
            } else {
                assert forall|i: int| 0 <= i < at implies !(#[trigger] is_call_with(
                    after.events[i],
                    id,
                )) by {
                    if is_call_with(after.events[i], id) {
                        assert(is_call_with(model.events[i], id));
                    }
                }
            }
        }
    }
}

proof fn lemma_remembered(nodes: Seq<MessageNodeView>, scope: ScopeView)
    ensures
        ({
            let read = parse::transcript(nodes, scope);
            calls_remembered(read.events, read.call_names)
        }),
    decreases nodes.len(),
{
    if nodes.len() > 0 {
        let last = nodes.last();
        lemma_remembered(nodes.drop_last(), scope);
        let before = parse::transcript(nodes.drop_last(), scope);
        let noted = TranscriptModel { seen: before.seen.insert(last.dedupe_key), ..before };
        assert(calls_remembered(noted.events, noted.call_names));
        if let Some(message) = message::message_of_text(last.chat_message) {
            let timestamp = store::in_milliseconds(last.created_at);
            let said = spoken(noted, last, message);
            assert(calls_remembered(said.events, said.call_names));
            lemma_calls_remembered(
                said,
                last.node_id,
                timestamp,
                message.tool_calls,
                message.tool_calls.len(),
                scope,
            );
            lemma_result_remembered(noted, last.node_id, timestamp, message, scope);
        }
    }
}

/// The result of a tool call has the name of the latest earlier call with its id,
/// and no name only where there is no such call.
pub proof fn law_results_are_named_after_calls(
    nodes: Seq<MessageNodeView>,
    scope: ScopeView,
    at: int,
)
    requires
        0 <= at < parse::transcript(nodes, scope).events.len(),
    ensures
        result_is_named(parse::transcript(nodes, scope).events, at),
{
    lemma_remembered(nodes, scope);
}

/// Whether an event comes from the node with the id `node_id`.
spec fn comes_from(model: EventModel, node_id: i64) -> bool {
    ||| model.event.source_event_id == Some(parse::result_event_id(node_id))
    ||| exists|index: int|
        0 <= index && model.event.source_event_id == Some(
            #[trigger] parse::call_event_id(node_id, index),
        )
}

/// Whether an event comes from a node other than that with the id `node_id`.
spec fn comes_from_elsewhere(model: EventModel, node_id: i64) -> bool {
    exists|other: i64| other != node_id && #[trigger] comes_from(model, other)
}

/// Whether an event comes from one of the nodes.
spec fn comes_from_one_of(model: EventModel, nodes: Seq<MessageNodeView>) -> bool {
    exists|n: int| 0 <= n < nodes.len() && comes_from(model, (#[trigger] nodes[n]).node_id)
}

/// The ids of events say which node and which call they come from: those of two
/// nodes differ, those of two calls differ, and that of a result differs from
/// those of all calls.
pub proof fn law_event_ids_are_injective(a: i64, i: int, b: i64, j: int)
    ensures
        parse::call_event_id(a, i) == parse::call_event_id(b, j) ==> a == b && i == j,
        parse::result_event_id(a) == parse::result_event_id(b) ==> a == b,
        parse::result_event_id(a) != parse::call_event_id(b, j),
{
    reveal_strlit(":tool_calls:");
    let prefix = "nodes:"@;
    let x = text::decimal(a as int);
    let y = text::decimal(b as int);
    text::law_decimal_is_injective(a as int, b as int);
    text::law_decimal_is_injective(b as int, a as int);
    text::law_decimal_is_injective(i, j);
    let rest = ":tool_calls:"@.skip(1);
    assert(":tool_calls:"@ =~= seq![':'] + rest);
    let at = prefix.len() as int;
    text::lemma_colon_after(x, rest + text::decimal(i));
    text::lemma_colon_after(y, rest + text::decimal(j));
    assert(parse::call_event_id(a, i).skip(at) =~= x + seq![':'] + (rest + text::decimal(i)));
    assert(parse::call_event_id(b, j).skip(at) =~= y + seq![':'] + (rest + text::decimal(j)));
    assert(parse::result_event_id(a).skip(at) =~= x);
    assert(parse::result_event_id(b).skip(at) =~= y);
    if parse::call_event_id(a, i) == parse::call_event_id(b, j) {
        let whole = at + x.len() + 12;
        assert(parse::call_event_id(a, i).skip(whole) =~= text::decimal(i));
        assert(parse::call_event_id(b, j).skip(whole) =~= text::decimal(j));
    }
    if parse::result_event_id(a) == parse::call_event_id(b, j) {
        assert(x == y);
        assert(parse::result_event_id(a).len() < parse::call_event_id(b, j).len());
    }
}

proof fn lemma_other_node(one: EventModel, a: i64, other: EventModel, b: i64)
    requires
        comes_from(one, a),
        comes_from(other, b),
        a != b,
    ensures
        one.event.source_event_id != other.event.source_event_id,
{
    if one.event.source_event_id == Some(parse::result_event_id(a)) {
        if other.event.source_event_id == Some(parse::result_event_id(b)) {
            law_event_ids_are_injective(a, 0, b, 0);
        } else {
            let j = choose|j: int|
                0 <= j && other.event.source_event_id == Some(
                    #[trigger] parse::call_event_id(b, j),
                );
            law_event_ids_are_injective(a, 0, b, j);
        }
    } else {
        let i = choose|i: int|
            0 <= i && one.event.source_event_id == Some(#[trigger] parse::call_event_id(a, i));
        if other.event.source_event_id == Some(parse::result_event_id(b)) {
            law_event_ids_are_injective(b, 0, a, i);
        } else {
            let j = choose|j: int|
                0 <= j && other.event.source_event_id == Some(
                    #[trigger] parse::call_event_id(b, j),
                );
            law_event_ids_are_injective(a, i, b, j);
        }
    }
}

/// Whether no two events have the same id.
pub open spec fn ids_differ(events: Seq<EventModel>) -> bool {
    forall|i: int, j: int|
        #![trigger events[i], events[j]]
        0 <= i < j < events.len() ==> events[i].event.source_event_id
            != events[j].event.source_event_id
}

proof fn lemma_call_ids(
    model: TranscriptModel,
    node_id: i64,
    timestamp: i64,
    calls: Seq<ToolCallView>,
    count: nat,
    scope: ScopeView,
)
    requires
        ids_differ(model.events),
        forall|i: int|
            0 <= i < model.events.len() ==> comes_from_elsewhere(
                #[trigger] model.events[i],
                node_id,
            ),
    ensures
        ids_differ(model.with_calls(node_id, timestamp, calls, count, scope).events),
    decreases count,
{
    if count > 0 {
        lemma_call_ids(model, node_id, timestamp, calls, (count - 1) as nat, scope);
        lemma_calls(model, node_id, timestamp, calls, (count - 1) as nat, scope);
        let before = model.with_calls(node_id, timestamp, calls, (count - 1) as nat, scope);
        let after = model.with_calls(node_id, timestamp, calls, count, scope);
        assert(after == before.with_call(node_id, timestamp, count - 1, calls[count - 1], scope));
        assert forall|i: int, j: int|
            #![trigger after.events[i], after.events[j]]
            0 <= i < j < after.events.len() implies after.events[i].event.source_event_id
            != after.events[j].event.source_event_id by {
            assert(after.events[i] == before.events[i]);
            if j < before.events.len() {
                assert(after.events[j] == before.events[j]);
            } else {
                assert(after.events[j].event.source_event_id == Some(
                    parse::call_event_id(node_id, count - 1),
                ));
                assert(comes_from(after.events[j], node_id));
                if i < model.events.len() {
                    let other = choose|other: i64|
                        other != node_id && #[trigger] comes_from(model.events[i], other);
                    lemma_other_node(after.events[i], other, after.events[j], node_id);
                } else {
                    let index = choose|index: int|
                        0 <= index < count - 1 && before.events[i].event.source_event_id == Some(
                            #[trigger] parse::call_event_id(node_id, index),
                        );
                    law_event_ids_are_injective(node_id, index, node_id, count - 1);
                }
            }
        }
    }
}

/// Whether every event comes from one of the nodes.
spec fn come_from(events: Seq<EventModel>, nodes: Seq<MessageNodeView>) -> bool {
    forall|i: int| 0 <= i < events.len() ==> comes_from_one_of(#[trigger] events[i], nodes)
}

proof fn lemma_origins(
    model: TranscriptModel,
    nodes: Seq<MessageNodeView>,
    message: ChatMessageView,
    scope: ScopeView,
)
    requires
        nodes.len() > 0,
        come_from(model.events, nodes.drop_last()),
        ids_differ(model.events),
        forall|i: int, j: int|
            #![trigger nodes[i], nodes[j]]
            0 <= i < j < nodes.len() ==> nodes[i].node_id != nodes[j].node_id,
    ensures
        ids_differ(model.with_message(nodes.last(), message, scope).events),
        come_from(model.with_message(nodes.last(), message, scope).events, nodes),
{
    let front = nodes.drop_last();
    let last = nodes.last();
    let timestamp = store::in_milliseconds(last.created_at);
    let after = model.with_message(last, message, scope);
    let said = spoken(model, last, message);
    let count = message.tool_calls.len();
    assert forall|i: int| 0 <= i < model.events.len() implies {
        &&& comes_from_elsewhere(#[trigger] model.events[i], last.node_id)
        &&& comes_from_one_of(model.events[i], nodes)
    } by {
        let n = choose|n: int|
            0 <= n < front.len() && comes_from(
                model.events[i],
                (#[trigger] front[n]).node_id,
            );
        assert(nodes[n] == front[n]);
        assert(nodes[n].node_id != nodes[nodes.len() - 1].node_id);
        assert(comes_from(model.events[i], nodes[n].node_id));
    }
    assert(said.events == model.events);
    lemma_calls(said, last.node_id, timestamp, message.tool_calls, count, scope);
    lemma_call_ids(said, last.node_id, timestamp, message.tool_calls, count, scope);
    assert forall|i: int| 0 <= i < after.events.len() implies comes_from_one_of(
        #[trigger] after.events[i],
        nodes,
    ) by {
        if i < model.events.len() {
            assert(after.events[i] == model.events[i]);
        } else {
            assert(comes_from(after.events[i], nodes[nodes.len() - 1].node_id));
        }
    }
    if message.role != "user"@ && message.role != "assistant"@ && message.role == "tool"@
        && scope.include_events {
        let end = model.events.len() as int;
        assert forall|i: int, j: int|
            #![trigger after.events[i], after.events[j]]
            0 <= i < j < after.events.len() implies after.events[i].event.source_event_id
            != after.events[j].event.source_event_id by {
            assert(after.events[i] == model.events[i]);
            if j < end {
                assert(after.events[j] == model.events[j]);
            } else {
                assert(comes_from(after.events[j], last.node_id));
                let other = choose|other: i64|
                    other != last.node_id && #[trigger] comes_from(model.events[i], other);
                lemma_other_node(after.events[i], other, after.events[j], last.node_id);
            }
        }
    }
}

proof fn lemma_event_ids(nodes: Seq<MessageNodeView>, scope: ScopeView)
    requires
        forall|i: int, j: int|
            #![trigger nodes[i], nodes[j]]
            0 <= i < j < nodes.len() ==> nodes[i].node_id != nodes[j].node_id,
    ensures
        ids_differ(parse::transcript(nodes, scope).events),
        come_from(parse::transcript(nodes, scope).events, nodes),
    decreases nodes.len(),
{
    if nodes.len() > 0 {
        let front = nodes.drop_last();
        let last = nodes.last();
        lemma_event_ids(front, scope);
        let before = parse::transcript(front, scope);
        let noted = TranscriptModel { seen: before.seen.insert(last.dedupe_key), ..before };
        assert forall|i: int| 0 <= i < before.events.len() implies comes_from_one_of(
            #[trigger] before.events[i],
            nodes,
        ) by {
            let n = choose|n: int|
                0 <= n < front.len() && comes_from(
                    before.events[i],
                    (#[trigger] front[n]).node_id,
                );
            assert(nodes[n] == front[n]);
        }
        if let Some(message) = message::message_of_text(last.chat_message) {
            lemma_origins(noted, nodes, message, scope);
        }
    }
}

/// No two events of a session have the same id, where no two of its nodes have.
pub proof fn law_event_ids_differ(nodes: Seq<MessageNodeView>, scope: ScopeView)
    requires
        forall|i: int, j: int|
            #![trigger nodes[i], nodes[j]]
            0 <= i < j < nodes.len() ==> nodes[i].node_id != nodes[j].node_id,
    ensures
        ids_differ(parse::transcript(nodes, scope).events),
{
    lemma_event_ids(nodes, scope);
}

} // verus!

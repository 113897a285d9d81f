//! What is read of message nodes, by the JSON of their texts.
//!
//! Each law gives for every message, usage event or tool event the node that it
//! comes from, in order and with none left out.

use vstd::prelude::*;

use crate::json;
use crate::json::Json;
use crate::message;
use crate::message_laws;
use crate::parse;
use crate::parse::{ScopeView, TranscriptModel};
use crate::store;
use crate::store::{MessageNodeView, SessionRowView};
use crate::text;
use crate::transcript_laws;
use crate::types::{RawMessageView, RawUsageEventView, Role};

verus! {

/// Whether no node before `at` has the key of the node at `at`.
pub open spec fn comes_first(nodes: Seq<MessageNodeView>, at: int) -> bool {
    forall|i: int| 0 <= i < at ==> (#[trigger] nodes[i]).dedupe_key != nodes[at].dedupe_key
}

/// Whether places are in their order, each once, and within `len`.
pub open spec fn ascending(places: Seq<int>, len: nat) -> bool {
    &&& forall|a: int| 0 <= a < places.len() ==> 0 <= #[trigger] places[a] < len
    &&& forall|a: int, b: int|
        #![trigger places[a], places[b]]
        0 <= a < b < places.len() ==> places[a] < places[b]
}

/// The number of the last of `len` messages, counted from zero, where there is one.
pub open spec fn number_of_last(number: Option<u32>, len: nat) -> bool {
    match number {
        Some(number) => len > 0 && number == (len - 1) as u32,
        None => len == 0,
    }
}

/// Whether the JSON of a message says `content`, in the part of `role`: a user
/// message counts where a person typed it, and blank messages do not count.
pub open spec fn json_says(json: Json, role: Role, content: Seq<char>) -> bool {
    &&& message_laws::has(json, "content"@, Json::Text(content))
    &&& !text::blank(content)
    &&& match role {
        Role::User => message_laws::has(json, "role"@, Json::Text("user"@))
            && message_laws::says_typed(json, true),
        Role::Assistant => message_laws::has(json, "role"@, Json::Text("assistant"@)),
    }
}

/// Whether a node says `said`.
pub open spec fn node_says(node: MessageNodeView, said: RawMessageView) -> bool {
    &&& json::json_parsed(node.chat_message) matches Some(json) && json_says(
        json,
        said.role,
        said.content,
    )
    &&& said.timestamp == Some(store::in_milliseconds(node.created_at))
}

pub(crate) proof fn lemma_role_names()
    ensures
        "user"@ != "assistant"@,
        "user"@ != "tool"@,
        "assistant"@ != "tool"@,
        "user"@.len() > 0,
        "assistant"@.len() > 0,
        "tool"@.len() > 0,
{
    reveal_strlit("user");
    reveal_strlit("assistant");
    reveal_strlit("tool");
    assert("user"@[0] != "tool"@[0]);
    assert("user"@.len() != "assistant"@.len());
    assert("assistant"@.len() != "tool"@.len());
}

/// A message has one of the known roles exactly where the member `role` says so.
pub(crate) proof fn lemma_role(json: Json)
    ensures
        message::message_in(json).role == "user"@ <==> message_laws::has(
            json,
            "role"@,
            Json::Text("user"@),
        ),
        message::message_in(json).role == "assistant"@ <==> message_laws::has(
            json,
            "role"@,
            Json::Text("assistant"@),
        ),
        message::message_in(json).role == "tool"@ <==> message_laws::has(
            json,
            "role"@,
            Json::Text("tool"@),
        ),
{
    lemma_role_names();
    message_laws::law_texts_are_the_string_members(json, "user"@);
    message_laws::law_texts_are_the_string_members(json, "assistant"@);
    message_laws::law_texts_are_the_string_members(json, "tool"@);
}

/// The messages of a reading after one more node that was not seen.
proof fn lemma_said(
    model: TranscriptModel,
    node: MessageNodeView,
    scope: ScopeView,
    said: RawMessageView,
)
    requires
        !model.seen.contains(node.dedupe_key),
    ensures
        ({
            let after = model.with_node(node, scope).messages;
            &&& node_says(node, said) ==> after == model.messages.push(said)
            &&& after == model.messages || (after.len() == model.messages.len() + 1 && after
                == model.messages.push(after.last()) && node_says(node, after.last()))
        }),
{
    lemma_role_names();
    let noted = TranscriptModel { seen: model.seen.insert(node.dedupe_key), ..model };
    message_laws::law_message_is_that_of_the_json(node.chat_message);
    if let Some(json) = json::json_parsed(node.chat_message) {
        let message = message::message_in(json);
        let timestamp = store::in_milliseconds(node.created_at);
        lemma_role(json);
        message_laws::law_texts_are_the_string_members(json, said.content);
        message_laws::law_texts_are_the_string_members(json, message.content);
        message_laws::law_flags_are_the_boolean_members(json, true);
        let spoken = if text::blank(message.content) {
            noted
        } else {
            noted.with_content(Role::Assistant, message.content, timestamp)
        };
        transcript_laws::lemma_calls(
            spoken,
            node.node_id,
            timestamp,
            message.tool_calls,
            message.tool_calls.len(),
            scope,
        );
        let after = model.with_node(node, scope).messages;
        if after != model.messages {
            let added = RawMessageView {
                role: if message.role == "user"@ {
                    Role::User
                } else {
                    Role::Assistant
                },
                content: message.content,
                timestamp: Some(timestamp),
            };
            assert(after == model.messages.push(added));
            assert(message.content.len() > 0);
            assert(after.last() == added);
            assert(node_says(node, added));
        }
    }
}

/// The messages of a reading are what its nodes say: the places that are given are
/// those of the nodes that say something and come first with their key, in their
/// order, and each message is what the node at its place says.
pub proof fn law_messages_are_what_nodes_say(nodes: Seq<MessageNodeView>, scope: ScopeView) -> (from:
    Seq<int>)
    ensures
        ascending(from, nodes.len()),
        from.len() == parse::transcript(nodes, scope).messages.len(),
        forall|a: int|
            0 <= a < from.len() ==> {
                &&& comes_first(nodes, #[trigger] from[a])
                &&& node_says(nodes[from[a]], parse::transcript(nodes, scope).messages[a])
            },
        forall|k: int, said: RawMessageView|
            0 <= k < nodes.len() && comes_first(nodes, k) && #[trigger] node_says(nodes[k], said)
                ==> from.contains(k),
    decreases nodes.len(),
{
    if nodes.len() == 0 {
        Seq::empty()
    } else {
        let front = nodes.drop_last();
        let last = nodes.last();
        let end = nodes.len() - 1;
        let earlier = law_messages_are_what_nodes_say(front, scope);
        let before = parse::transcript(front, scope);
        let after = parse::transcript(nodes, scope);
        lemma_first(nodes, scope);
        if !before.seen.contains(last.dedupe_key) {
            lemma_said(before, last, scope, arbitrary());
        }
        let from = if after.messages.len() > before.messages.len() {
            earlier.push(end)
        } else {
            earlier
        };
        assert forall|a: int| 0 <= a < from.len() implies {
            &&& comes_first(nodes, #[trigger] from[a])
            &&& node_says(nodes[from[a]], after.messages[a])
        } by {
            if a < earlier.len() {
                assert(from[a] == earlier[a]);
                lemma_first_in_front(nodes, earlier[a]);
                assert(after.messages[a] == before.messages[a]);
            }
        }
        assert forall|k: int, said: RawMessageView|
            0 <= k < nodes.len() && comes_first(nodes, k) && #[trigger] node_says(
                nodes[k],
                said,
            ) implies from.contains(k) by {
            if k < end {
                lemma_first_in_front(nodes, k);
                assert(node_says(front[k], said));
                let a = choose|a: int| 0 <= a < earlier.len() && earlier[a] == k;
                assert(from[a] == k);
            } else {
                lemma_said(before, last, scope, said);
                assert(from[earlier.len() as int] == k);
            }
        }
        from
    }
}

/// A node that comes first is not among the keys that were seen, and one that does
/// not is.
pub(crate) proof fn lemma_first(nodes: Seq<MessageNodeView>, scope: ScopeView)
    requires
        nodes.len() > 0,
    ensures
        parse::transcript(nodes.drop_last(), scope).seen.contains(nodes.last().dedupe_key)
            <==> !comes_first(nodes, nodes.len() - 1),
{
    let front = nodes.drop_last();
    let last = nodes.last();
    transcript_laws::lemma_seen(front, scope);
    if parse::has_key(front, last.dedupe_key) {
        let i = choose|i: int|
            0 <= i < front.len() && #[trigger] front[i].dedupe_key == last.dedupe_key;
        assert(nodes[i].dedupe_key == last.dedupe_key);
    }
    if !comes_first(nodes, nodes.len() - 1) {
        let i = choose|i: int|
            0 <= i < nodes.len() - 1 && (#[trigger] nodes[i]).dedupe_key == last.dedupe_key;
        assert(front[i].dedupe_key == last.dedupe_key);
    }
}

pub(crate) proof fn lemma_first_in_front(nodes: Seq<MessageNodeView>, at: int)
    requires
        0 <= at < nodes.len() - 1,
    ensures
        comes_first(nodes, at) <==> comes_first(nodes.drop_last(), at),
        nodes.drop_last()[at] == nodes[at],
{
    let front = nodes.drop_last();
    assert forall|i: int| 0 <= i < at implies #[trigger] nodes[i] == front[i] by {}
    if comes_first(nodes, at) {
        assert forall|i: int| 0 <= i < at implies (#[trigger] front[i]).dedupe_key
            != front[at].dedupe_key by {
            assert(nodes[i].dedupe_key != nodes[at].dedupe_key);
        }
    }
}

/// Whether `n` is the count that a report has under `key`: what is missing, no
/// integer, or below zero counts as zero.
pub open spec fn count_is(report: Json, key: Seq<char>, n: i64) -> bool {
    &&& n >= 0
    &&& n > 0 ==> message_laws::has_integer(report, key, n)
    &&& n == 0 ==> forall|x: i64| #[trigger] message_laws::has_integer(report, key, x) ==> x <= 0
}

/// Whether `result` is `value` without the white space at its ends, or `otherwise`
/// where the value is missing or blank.
pub open spec fn trimmed_or_else(
    value: Option<Seq<char>>,
    otherwise: Seq<char>,
    result: Seq<char>,
) -> bool {
    if value is Some && !text::blank(value->0) {
        result == text::trimmed(value->0)
    } else {
        result == otherwise
    }
}

/// Whether a report has a count above zero.
pub open spec fn counts_tokens(report: Json) -> bool {
    exists|n: i64|
        n > 0 && {
            ||| #[trigger] message_laws::has_integer(report, "input_tokens"@, n)
            ||| message_laws::has_integer(report, "output_tokens"@, n)
            ||| message_laws::has_integer(report, "cache_read_tokens"@, n)
            ||| message_laws::has_integer(report, "cache_creation_tokens"@, n)
        }
}

/// Whether the message of a node is one of the assistant with the token report
/// `report`.
pub open spec fn node_reports(node: MessageNodeView, report: Json) -> bool {
    json::json_parsed(node.chat_message) matches Some(json) && {
        &&& message_laws::has(json, "role"@, Json::Text("assistant"@))
        &&& message_laws::has_report(json, report)
    }
}

/// Whether `usage` matches the token report `report`, count by count.
pub open spec fn usage_matches(usage: RawUsageEventView, report: Json) -> bool {
    &&& count_is(report, "input_tokens"@, usage.input_tokens)
    &&& count_is(report, "output_tokens"@, usage.output_tokens)
    &&& count_is(report, "cache_read_tokens"@, usage.cache_read_tokens)
    &&& count_is(report, "cache_creation_tokens"@, usage.cache_write_tokens)
    &&& usage.raw_usage_json == Some(json::json_printed(report))
}

/// Whether `usage` is that of a node, in a session and a store.
pub open spec fn usage_is_of(
    usage: RawUsageEventView,
    node: MessageNodeView,
    session: SessionRowView,
    db_path: Option<Seq<char>>,
) -> bool {
    &&& exists|report: Json| #[trigger]
        node_reports(node, report) && usage_matches(usage, report)
    &&& usage.event_key == "message:"@ + node.dedupe_key
    &&& usage.timestamp == store::in_milliseconds(node.created_at)
    &&& usage.parser_version == 1
    &&& trimmed_or_else(session.model, "unknown"@, usage.model)
    &&& trimmed_or_else(session.backend_type, "devin"@, usage.provider)
    &&& usage.source_path == db_path
}

proof fn lemma_count(json: Json, report: Json)
    requires
        message_laws::has_report(json, report),
    ensures
        ({
            let read = message::message_in(json).metrics->0;
            &&& message::message_in(json).metrics is Some
            &&& count_is(report, "input_tokens"@, parse::token_count(read.input_tokens))
            &&& count_is(report, "output_tokens"@, parse::token_count(read.output_tokens))
            &&& count_is(report, "cache_read_tokens"@, parse::token_count(read.cache_read_tokens))
            &&& count_is(
                report,
                "cache_creation_tokens"@,
                parse::token_count(read.cache_creation_tokens),
            )
            &&& read.json == json::json_printed(report)
        }),
{
    let message = message::message_in(json);
    message_laws::law_report_is_read_count_by_count(json, report, 0);
    let read = message.metrics->0;
    if let Some(n) = read.input_tokens {
        message_laws::law_report_is_read_count_by_count(json, report, n);
    }
    if let Some(n) = read.output_tokens {
        message_laws::law_report_is_read_count_by_count(json, report, n);
    }
    if let Some(n) = read.cache_read_tokens {
        message_laws::law_report_is_read_count_by_count(json, report, n);
    }
    if let Some(n) = read.cache_creation_tokens {
        message_laws::law_report_is_read_count_by_count(json, report, n);
    }
    assert forall|x: i64| #[trigger]
        message_laws::has_integer(report, "input_tokens"@, x) implies read.input_tokens == Some(
        x,
    ) by {
        message_laws::law_report_is_read_count_by_count(json, report, x);
    }
    assert forall|x: i64| #[trigger]
        message_laws::has_integer(report, "output_tokens"@, x) implies read.output_tokens == Some(
        x,
    ) by {
        message_laws::law_report_is_read_count_by_count(json, report, x);
    }
    assert forall|x: i64| #[trigger]
        message_laws::has_integer(report, "cache_read_tokens"@, x) implies read.cache_read_tokens
        == Some(x) by {
        message_laws::law_report_is_read_count_by_count(json, report, x);
    }
    assert forall|x: i64| #[trigger]
        message_laws::has_integer(
            report,
            "cache_creation_tokens"@,
            x,
        ) implies read.cache_creation_tokens == Some(x) by {
        message_laws::law_report_is_read_count_by_count(json, report, x);
    }
}

/// The usage events of a reading after one more node that was not seen.
proof fn lemma_used(model: TranscriptModel, node: MessageNodeView, scope: ScopeView)
    requires
        !model.seen.contains(node.dedupe_key),
    ensures
        ({
            let after = model.with_node(node, scope).usage_events;
            &&& after == model.usage_events || (after.len() == model.usage_events.len() + 1
                && after == model.usage_events.push(after.last()) && usage_is_of(
                after.last(),
                node,
                scope.session,
                scope.db_path,
            ) && after.last().event_seq == model.usage_events.len() as u32)
            &&& forall|report: Json| #[trigger]
                node_reports(node, report) && counts_tokens(report) ==> after.len()
                    == model.usage_events.len() + 1
        }),
{
    lemma_role_names();
    message_laws::law_message_is_that_of_the_json(node.chat_message);
    let after = model.with_node(node, scope).usage_events;
    if let Some(json) = json::json_parsed(node.chat_message) {
        let message = message::message_in(json);
        let timestamp = store::in_milliseconds(node.created_at);
        lemma_role(json);
        lemma_trimmed(scope.session.model);
        lemma_trimmed(scope.session.backend_type);
        let noted = TranscriptModel { seen: model.seen.insert(node.dedupe_key), ..model };
        let spoken = if text::blank(message.content) {
            noted
        } else {
            noted.with_content(Role::Assistant, message.content, timestamp)
        };
        transcript_laws::lemma_calls(
            spoken,
            node.node_id,
            timestamp,
            message.tool_calls,
            message.tool_calls.len(),
            scope,
        );
        if after.len() > model.usage_events.len() {
            message_laws::law_report_is_read_count_by_count(json, Json::Null, 0);
            let report = choose|report: Json| #[trigger] message_laws::has_report(json, report);
            lemma_count(json, report);
            assert(node_reports(node, report));
            assert(usage_matches(after.last(), report));
        }
        assert forall|report: Json| #[trigger]
            node_reports(node, report) && counts_tokens(report) implies after.len()
            == model.usage_events.len() + 1 by {
            lemma_count(json, report);
            let n = choose|n: i64|
                n > 0 && {
                    ||| #[trigger] message_laws::has_integer(report, "input_tokens"@, n)
                    ||| message_laws::has_integer(report, "output_tokens"@, n)
                    ||| message_laws::has_integer(report, "cache_read_tokens"@, n)
                    ||| message_laws::has_integer(report, "cache_creation_tokens"@, n)
                };
        }
    }
}

proof fn lemma_trimmed(value: Option<Seq<char>>)
    ensures
        trimmed_or_else(value, "unknown"@, parse::trimmed_or(value, "unknown"@)),
        trimmed_or_else(value, "devin"@, parse::trimmed_or(value, "devin"@)),
{
    if let Some(text) = value {
        text::law_blank_is_trimmed_away(text);
    }
}

/// The usage events of a reading are the token reports of its assistant messages:
/// the places that are given are those of the nodes that report a token and come
/// first with their key, in their order, and each usage event matches the report of
/// the node at its place, count by count.
pub proof fn law_usage_is_what_nodes_report(nodes: Seq<MessageNodeView>, scope: ScopeView) -> (from:
    Seq<int>)
    ensures
        ascending(from, nodes.len()),
        from.len() == parse::transcript(nodes, scope).usage_events.len(),
        forall|a: int|
            0 <= a < from.len() ==> {
                let usage = parse::transcript(nodes, scope).usage_events[a];
                let heard = parse::transcript(nodes.take(from[a] + 1), scope).messages.len();
                &&& comes_first(nodes, #[trigger] from[a])
                &&& usage_is_of(usage, nodes[from[a]], scope.session, scope.db_path)
                &&& usage.event_seq == a as u32
                &&& number_of_last(usage.message_seq, heard)
            },
        forall|k: int, report: Json|
            0 <= k < nodes.len() && comes_first(nodes, k) && #[trigger] node_reports(
                nodes[k],
                report,
            ) && counts_tokens(report) ==> from.contains(k),
    decreases nodes.len(),
{
    if nodes.len() == 0 {
        Seq::empty()
    } else {
        let front = nodes.drop_last();
        let last = nodes.last();
        let end = nodes.len() - 1;
        let earlier = law_usage_is_what_nodes_report(front, scope);
        let before = parse::transcript(front, scope);
        let after = parse::transcript(nodes, scope);
        lemma_first(nodes, scope);
        transcript_laws::lemma_node(before, last, scope);
        if !before.seen.contains(last.dedupe_key) {
            lemma_used(before, last, scope);
        }
        let from = if after.usage_events.len() > before.usage_events.len() {
            earlier.push(end)
        } else {
            earlier
        };
        assert(nodes.take(end + 1) =~= nodes);
        assert forall|a: int| 0 <= a < from.len() implies {
            let usage = after.usage_events[a];
            let heard = parse::transcript(nodes.take(from[a] + 1), scope).messages.len();
            &&& comes_first(nodes, #[trigger] from[a])
            &&& usage_is_of(usage, nodes[from[a]], scope.session, scope.db_path)
            &&& usage.event_seq == a as u32
            &&& number_of_last(usage.message_seq, heard)
        } by {
            if a < earlier.len() {
                assert(from[a] == earlier[a]);
                lemma_first_in_front(nodes, earlier[a]);
                assert(after.usage_events[a] == before.usage_events[a]);
                assert(front.take(from[a] + 1) =~= nodes.take(from[a] + 1));
            }
        }
        assert forall|k: int, report: Json|
            0 <= k < nodes.len() && comes_first(nodes, k) && #[trigger] node_reports(
                nodes[k],
                report,
            ) && counts_tokens(report) implies from.contains(k) by {
            if k < end {
                lemma_first_in_front(nodes, k);
                assert(node_reports(front[k], report));
                let a = choose|a: int| 0 <= a < earlier.len() && earlier[a] == k;
                assert(from[a] == k);
            } else {
                assert(from[earlier.len() as int] == k);
            }
        }
        from
    }
}

/// The string that an assistant message has as its content is kept whole, unless it
/// is blank or the node replays an earlier one, whatever else the message has; and so
/// is what a person typed.
pub proof fn law_content_is_kept_whole(
    nodes: Seq<MessageNodeView>,
    scope: ScopeView,
    at: int,
    json: Json,
    content: Seq<char>,
    role: Role,
)
    requires
        0 <= at < nodes.len(),
        comes_first(nodes, at),
        json::json_parsed(nodes[at].chat_message) == Some(json),
        message_laws::has(json, "content"@, Json::Text(content)),
        !text::blank(content),
        match role {
            Role::User => message_laws::has(json, "role"@, Json::Text("user"@))
                && message_laws::says_typed(json, true),
            Role::Assistant => message_laws::has(json, "role"@, Json::Text("assistant"@)),
        },
    ensures
        parse::transcript(nodes, scope).messages.contains(
            RawMessageView {
                role,
                content,
                timestamp: Some(store::in_milliseconds(nodes[at].created_at)),
            },
        ),
{
    lemma_role_names();
    let said = RawMessageView {
        role,
        content,
        timestamp: Some(store::in_milliseconds(nodes[at].created_at)),
    };
    let from = law_messages_are_what_nodes_say(nodes, scope);
    assert(node_says(nodes[at], said));
    let a = choose|a: int| 0 <= a < from.len() && from[a] == at;
    assert(node_says(nodes[from[a]], parse::transcript(nodes, scope).messages[a]));
    assert(parse::transcript(nodes, scope).messages[a] == said);
}

} // verus!

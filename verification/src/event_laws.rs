//! Tool events, by the JSON of the messages that they come from.

use vstd::prelude::*;

use crate::events;
use crate::events::{
    CommandModel, EventContextView, EventModel, ShellEvidence, ShellEvidenceView, ShellQuery,
    ShellQueryView,
};
use crate::json;
use crate::json::Json;
use crate::message;
use crate::message_laws;
use crate::node_laws;
use crate::parse;
use crate::parse::{ScopeView, TranscriptModel};
use crate::paths;
use crate::store;
use crate::store::MessageNodeView;
use crate::text;
use crate::transcript_laws;
use crate::types::{FileOperation, RawSessionEventView, Role};

verus! {

/// Whether the arguments of a tool call have `value` under `key`.
pub open spec fn has_argument(call: Json, key: Seq<char>, value: Json) -> bool {
    exists|arguments: Json| #[trigger]
        message_laws::has(call, "arguments"@, arguments) && message_laws::has(
            arguments,
            key,
            value,
        )
}

/// Whether the arguments of a tool call name `path` as the directory to run in.
pub open spec fn asks_for_directory(call: Json, path: Seq<char>) -> bool {
    exists|arguments: Json| #[trigger]
        message_laws::has(call, "arguments"@, arguments) && message_laws::names_directory(
            arguments,
            path,
        )
}

/// Whether a tool writes the file that it is given.
pub open spec fn writes_files(name: Seq<char>) -> bool {
    name == "write"@ || name == "edit"@ || name == "notebook_edit"@
}

/// Whether a call of the tool `name` is given the file `path`: under
/// `notebook_path` for a notebook, and under `file_path` otherwise.
pub open spec fn is_given_file(call: Json, name: Seq<char>, path: Seq<char>) -> bool {
    &&& !text::blank(path)
    &&& if name == "notebook_edit"@ {
        has_argument(call, "notebook_path"@, Json::Text(path))
    } else {
        has_argument(call, "file_path"@, Json::Text(path))
    }
}

/// Whether a call is given the command `command`.
pub open spec fn is_given_command(call: Json, command: Seq<char>) -> bool {
    has_argument(call, "command"@, Json::Text(command)) && !text::blank(command)
}

/// Whether `model` is what a call that reads or writes `path` leaves.
pub open spec fn touches_file(
    model: EventModel,
    path: Seq<char>,
    operation: FileOperation,
    kind: Seq<char>,
    directory: Seq<char>,
) -> bool {
    &&& model.event.kind == kind
    &&& model.event.target == Some(path)
    &&& model.event.files.len() == 1
    &&& model.event.files[0].path == path
    &&& model.event.files[0].operation == operation
    &&& model.event.files[0].cwd == Some(directory)
    &&& model.command is None
}

/// Whether `model` is what a command leaves before the shell analysis is asked. It
/// is asked about the command that the call is given, with the directory that the
/// call names and that of the session.
pub open spec fn runs_command(model: EventModel, call: Json, directory: Seq<char>) -> bool {
    &&& model.event.kind == "command"@
    &&& model.event.files.len() == 0
    &&& forall|command: Seq<char>|
        model.event.target == Some(command) <==> #[trigger] is_given_command(call, command)
    &&& model.event.target is None <==> model.command is None
    &&& model.command matches Some(asked) ==> {
        &&& model.event.target == Some(asked.command)
        &&& asked.directory == directory
        &&& forall|path: Seq<char>|
            asked.workdir == Some(path) <==> #[trigger] asks_for_directory(call, path)
    }
}

/// Whether `model` is a call of which nothing more is known.
pub open spec fn stays_plain(model: EventModel) -> bool {
    &&& model.event.kind == "tool_call"@
    &&& model.event.target is None
    &&& model.event.files.len() == 0
    &&& model.command is None
}

/// Whether `model` is what a call of the tool `name` leaves, by what the tool does.
pub open spec fn does(
    model: EventModel,
    name: Seq<char>,
    call: Json,
    directory: Seq<char>,
) -> bool {
    &&& forall|path: Seq<char>|
        name == "read"@ && #[trigger] is_given_file(call, name, path) ==> touches_file(
            model,
            path,
            FileOperation::Read,
            "file_read"@,
            directory,
        )
    &&& forall|path: Seq<char>|
        writes_files(name) && #[trigger] is_given_file(call, name, path) ==> touches_file(
            model,
            path,
            FileOperation::Write,
            "file_write"@,
            directory,
        )
    &&& name == "exec"@ ==> runs_command(model, call, directory)
    &&& name != "exec"@ && (name == "read"@ || writes_files(name) ==> forall|path: Seq<char>|
        !(#[trigger] is_given_file(call, name, path))) ==> stays_plain(model)
}

/// Whether `model` is the event of the tool call `call`.
pub open spec fn is_event_of_call(model: EventModel, call: Json, directory: Seq<char>) -> bool {
    &&& exists|name: Seq<char>|
        {
            &&& #[trigger] message_laws::has(call, "name"@, Json::Text(name))
            &&& name.len() > 0
            &&& model.event.name == Some(name)
            &&& does(model, name, call, directory)
        }
    &&& forall|id: Seq<char>|
        model.event.tool_call_id == Some(id) <==> #[trigger] message_laws::has(
            call,
            "id"@,
            Json::Text(id),
        ) && id.len() > 0
    &&& message_laws::lacks(call, "arguments"@) ==> model.event.arguments is None
    &&& forall|arguments: Json| #[trigger]
        message_laws::has(call, "arguments"@, arguments) ==> model.event.arguments == Some(
            json::json_printed(arguments),
        )
    &&& model.event.summary is None
    &&& model.event.status is None
    &&& model.event.command_evidence_status is None
}

/// Whether the message of a node is one of the assistant that calls a tool, by
/// `call` at `index`.
pub open spec fn node_calls(node: MessageNodeView, index: int, call: Json) -> bool {
    json::json_parsed(node.chat_message) matches Some(json) && {
        &&& message_laws::has(json, "role"@, Json::Text("assistant"@))
        &&& exists|calls: Seq<Json>|
            {
                &&& #[trigger] message_laws::has(json, "tool_calls"@, Json::Array(calls))
                &&& 0 <= index < calls.len()
                &&& calls[index] == call
            }
    }
}

/// Whether a tool call has a name.
pub open spec fn is_named(call: Json) -> bool {
    exists|name: Seq<char>| #[trigger]
        message_laws::has(call, "name"@, Json::Text(name)) && name.len() > 0
}

/// Whether `model` is the event of the result that a message of JSON `json` reports.
pub open spec fn is_event_of_result(model: EventModel, json: Json) -> bool {
    &&& model.event.kind == "tool_result"@
    &&& model.command is None
    &&& forall|id: Seq<char>|
        model.event.tool_call_id == Some(id) <==> #[trigger] message_laws::has(
            json,
            "tool_call_id"@,
            Json::Text(id),
        ) && id.len() > 0
    &&& forall|content: Seq<char>|
        model.event.summary == Some(content) <==> #[trigger] message_laws::has(
            json,
            "content"@,
            Json::Text(content),
        ) && !text::blank(content)
    &&& model.event.status == Some("success"@) <==> message_laws::reports_outcome(json, true)
    &&& model.event.status == Some("error"@) <==> message_laws::reports_outcome(json, false)
    &&& model.event.status matches Some(status) ==> status == "success"@ || status == "error"@
    &&& model.event.target is None
    &&& model.event.arguments is None
    &&& model.event.files.len() == 0
    &&& model.event.command_evidence_status is None
}

/// Whether the message of a node is the result of a tool call, of JSON `json`.
pub open spec fn node_answers(node: MessageNodeView, json: Json) -> bool {
    &&& json::json_parsed(node.chat_message) == Some(json)
    &&& message_laws::has(json, "role"@, Json::Text("tool"@))
}

/// Whether an event stands at its place: its time, its id and the path of its store.
pub open spec fn is_placed(
    event: RawSessionEventView,
    node: MessageNodeView,
    id: Seq<char>,
    db_path: Option<Seq<char>>,
) -> bool {
    &&& event.timestamp == Some(store::in_milliseconds(node.created_at))
    &&& event.source_event_id == Some(id)
    &&& event.source_path == db_path
    &&& event.parser_version == 1
}

/// Whether `model` is the event of the tool call at `index` in the message of a
/// node.
pub open spec fn is_call_of(
    model: EventModel,
    node: MessageNodeView,
    index: int,
    scope: ScopeView,
) -> bool {
    &&& exists|call: Json| #[trigger]
        node_calls(node, index, call) && is_event_of_call(model, call, scope.directory)
    &&& is_placed(
        model.event,
        node,
        "nodes:"@ + text::decimal(node.node_id as int) + ":tool_calls:"@ + text::decimal(index),
        scope.db_path,
    )
}

/// Whether `model` is the event of the result that a node reports.
pub open spec fn is_result_of(model: EventModel, node: MessageNodeView, scope: ScopeView) -> bool {
    &&& exists|json: Json| #[trigger]
        node_answers(node, json) && is_event_of_result(model, json)
    &&& is_placed(
        model.event,
        node,
        "nodes:"@ + text::decimal(node.node_id as int),
        scope.db_path,
    )
}

proof fn lemma_tool_names()
    ensures
        "exec"@ != "read"@,
        "exec"@ != "write"@,
        "exec"@ != "edit"@,
        "exec"@ != "notebook_edit"@,
        "read"@ != "write"@,
        "read"@ != "edit"@,
        "read"@ != "notebook_edit"@,
{
    reveal_strlit("exec");
    reveal_strlit("read");
    reveal_strlit("write");
    reveal_strlit("edit");
    reveal_strlit("notebook_edit");
    assert("exec"@[1] != "read"@[1]);
    assert("exec"@[1] != "edit"@[1]);
    assert("read"@[0] != "edit"@[0]);
    assert("exec"@.len() != "write"@.len());
    assert("exec"@.len() != "notebook_edit"@.len());
    assert("read"@.len() != "write"@.len());
    assert("read"@.len() != "notebook_edit"@.len());
}

/// The text of a member of the arguments of a call.
proof fn lemma_argument(json: Json, calls: Seq<Json>, at: int, text: Seq<char>)
    requires
        message_laws::has(json, "tool_calls"@, Json::Array(calls)),
        0 <= at < calls.len(),
    ensures
        ({
            let call = message::message_in(json).tool_calls[at];
            let read = call.arguments->0;
            &&& (call.arguments is Some && read.file_path == Some(text)) <==> has_argument(
                calls[at],
                "file_path"@,
                Json::Text(text),
            )
            &&& (call.arguments is Some && read.notebook_path == Some(text)) <==> has_argument(
                calls[at],
                "notebook_path"@,
                Json::Text(text),
            )
            &&& (call.arguments is Some && read.command == Some(text)) <==> has_argument(
                calls[at],
                "command"@,
                Json::Text(text),
            )
            &&& (call.arguments is Some && read.workdir == Some(text)) <==> asks_for_directory(
                calls[at],
                text,
            )
        }),
{
    message_laws::law_call_is_read_member_by_member(json, calls, at, Json::Null, text);
    if message::message_in(json).tool_calls[at].arguments is Some {
        let arguments = calls[at]->Object_0["arguments"@];
        assert(message_laws::has(calls[at], "arguments"@, arguments));
        message_laws::law_call_is_read_member_by_member(json, calls, at, arguments, text);
    }
}

/// The event of a named tool call is what its JSON says.
proof fn lemma_call_event(
    json: Json,
    calls: Seq<Json>,
    at: int,
    name: Seq<char>,
    context: EventContextView,
    directory: Seq<char>,
)
    requires
        message_laws::has(json, "tool_calls"@, Json::Array(calls)),
        0 <= at < calls.len(),
        message_laws::has(calls[at], "name"@, Json::Text(name)),
        name.len() > 0,
    ensures
        is_event_of_call(
            events::tool_call_model(
                message::message_in(json).tool_calls[at],
                name,
                context,
                directory,
            ),
            calls[at],
            directory,
        ),
{
    lemma_tool_names();
    let call = message::message_in(json).tool_calls[at];
    let model = events::tool_call_model(call, name, context, directory);
    assert forall|id: Seq<char>|
        model.event.tool_call_id == Some(id) <==> #[trigger] message_laws::has(
            calls[at],
            "id"@,
            Json::Text(id),
        ) && id.len() > 0 by {
        message_laws::law_call_is_read_member_by_member(json, calls, at, Json::Null, id);
    }
    message_laws::law_call_is_read_member_by_member(json, calls, at, Json::Null, name);
    assert forall|arguments: Json| #[trigger]
        message_laws::has(calls[at], "arguments"@, arguments) implies model.event.arguments == Some(
        json::json_printed(arguments),
    ) by {
        message_laws::law_call_is_read_member_by_member(json, calls, at, arguments, name);
    }
    assert forall|path: Seq<char>| #[trigger]
        is_given_file(calls[at], name, path) <==> events::file_argument(name, call.arguments)
        == Some(path) by {
        lemma_argument(json, calls, at, path);
    }
    if let Some(path) = events::file_argument(name, call.arguments) {
        assert(is_given_file(calls[at], name, path));
    }
    assert forall|command: Seq<char>| #[trigger]
        is_given_command(calls[at], command) <==> (call.arguments is Some
        && call.arguments->0.command == Some(command) && !text::blank(command)) by {
        lemma_argument(json, calls, at, command);
    }
    assert forall|path: Seq<char>| #[trigger]
        asks_for_directory(calls[at], path) <==> (call.arguments is Some
        && call.arguments->0.workdir == Some(path)) by {
        lemma_argument(json, calls, at, path);
    }
    assert(does(model, name, calls[at], directory));
}

/// The events of the first `count` tool calls of a message, with the index of the
/// call of each.
proof fn lemma_events_of_calls(
    model: TranscriptModel,
    node: MessageNodeView,
    json: Json,
    calls: Seq<Json>,
    count: nat,
    scope: ScopeView,
) -> (from: Seq<int>)
    requires
        json::json_parsed(node.chat_message) == Some(json),
        message_laws::has(json, "role"@, Json::Text("assistant"@)),
        message_laws::has(json, "tool_calls"@, Json::Array(calls)),
        count <= calls.len(),
    ensures
        ({
            let after = model.with_calls(
                node.node_id,
                store::in_milliseconds(node.created_at),
                message::message_in(json).tool_calls,
                count,
                scope,
            );
            let start = model.events.len();
            &&& after.events.len() == start + from.len()
            &&& node_laws::ascending(from, count)
            &&& forall|a: int|
                0 <= a < from.len() ==> is_call_of(
                    after.events[start + a],
                    node,
                    #[trigger] from[a],
                    scope,
                )
            &&& forall|index: int|
                0 <= index < count && is_named(#[trigger] calls[index]) ==> from.contains(index)
        }),
    decreases count,
{
    if count == 0 {
        Seq::empty()
    } else {
        let timestamp = store::in_milliseconds(node.created_at);
        let read = message::message_in(json).tool_calls;
        let index = count - 1;
        let call = calls[index];
        let earlier = lemma_events_of_calls(
            model,
            node,
            json,
            calls,
            (count - 1) as nat,
            scope,
        );
        let before = model.with_calls(node.node_id, timestamp, read, (count - 1) as nat, scope);
        let after = model.with_calls(node.node_id, timestamp, read, count, scope);
        let start = model.events.len();
        message_laws::law_calls_are_the_elements(json, calls);
        assert(after == before.with_call(node.node_id, timestamp, index, read[index], scope));
        assert(node_calls(node, index, call));
        if let Some(name) = read[index].name {
            message_laws::law_call_is_read_member_by_member(json, calls, index, Json::Null, name);
        }
        let from = if after.events.len() > before.events.len() {
            earlier.push(index)
        } else {
            earlier
        };
        assert forall|a: int| 0 <= a < from.len() implies is_call_of(
            after.events[start + a],
            node,
            #[trigger] from[a],
            scope,
        ) by {
            if a < earlier.len() {
                assert(from[a] == earlier[a]);
                assert(after.events[start + a] == before.events[start + a]);
            } else {
                let name = read[index].name->0;
                let context = EventContextView {
                    event_seq: before.events.len() as u32,
                    timestamp: Some(timestamp),
                    source_path: scope.db_path,
                    source_event_id: Some(parse::call_event_id(node.node_id, index)),
                    message_seq: parse::last_index(before.messages.len()),
                    parser_version: 1,
                };
                lemma_call_event(json, calls, index, name, context, scope.directory);
                assert(after.events[start + a] == events::tool_call_model(
                    read[index],
                    name,
                    context,
                    scope.directory,
                ));
            }
        }
        assert forall|i: int|
            0 <= i < count && is_named(#[trigger] calls[i]) implies from.contains(i) by {
            if i < index {
                let a = choose|a: int| 0 <= a < earlier.len() && earlier[a] == i;
                assert(from[a] == i);
            } else {
                let name = choose|name: Seq<char>| #[trigger]
                    message_laws::has(call, "name"@, Json::Text(name)) && name.len() > 0;
                message_laws::law_call_is_read_member_by_member(
                    json,
                    calls,
                    index,
                    Json::Null,
                    name,
                );
                assert(from[earlier.len() as int] == i);
            }
        }
        from
    }
}

/// The event of a result is what its JSON says.
proof fn lemma_result_event(
    model: TranscriptModel,
    node: MessageNodeView,
    json: Json,
    scope: ScopeView,
)
    requires
        node_answers(node, json),
    ensures
        ({
            let after = model.with_result(
                node.node_id,
                store::in_milliseconds(node.created_at),
                message::message_in(json),
                scope,
            );
            &&& after.events.len() == model.events.len() + 1
            &&& is_result_of(after.events.last(), node, scope)
        }),
{
    let message = message::message_in(json);
    let timestamp = store::in_milliseconds(node.created_at);
    let after = model.with_result(node.node_id, timestamp, message, scope);
    let added = after.events.last();
    reveal_strlit("success");
    reveal_strlit("error");
    assert("success"@.len() != "error"@.len());
    message_laws::law_flags_are_the_boolean_members(json, true);
    message_laws::law_flags_are_the_boolean_members(json, false);
    message_laws::law_texts_are_the_string_members(json, message.content);
    assert forall|id: Seq<char>|
        added.event.tool_call_id == Some(id) <==> #[trigger] message_laws::has(
            json,
            "tool_call_id"@,
            Json::Text(id),
        ) && id.len() > 0 by {
        message_laws::law_texts_are_the_string_members(json, id);
    }
    assert forall|content: Seq<char>|
        added.event.summary == Some(content) <==> #[trigger] message_laws::has(
            json,
            "content"@,
            Json::Text(content),
        ) && !text::blank(content) by {
        message_laws::law_texts_are_the_string_members(json, content);
    }
    assert(is_event_of_result(added, json));
}

/// Whether places, each of a node and of a call in it, are in their order.
pub open spec fn in_order(places: Seq<(int, int)>) -> bool {
    forall|a: int, b: int|
        #![trigger places[a], places[b]]
        0 <= a < b < places.len() ==> {
            ||| places[a].0 < places[b].0
            ||| places[a].0 == places[b].0 && places[a].1 < places[b].1
        }
}

/// Whether `model` is the event at the place of a node and of a call in it; the
/// result that a node reports stands at -1.
pub open spec fn is_event_at(
    model: EventModel,
    nodes: Seq<MessageNodeView>,
    place: (int, int),
    scope: ScopeView,
) -> bool {
    &&& 0 <= place.0 < nodes.len()
    &&& node_laws::comes_first(nodes, place.0)
    &&& if place.1 == -1 {
        is_result_of(model, nodes[place.0], scope)
    } else {
        is_call_of(model, nodes[place.0], place.1, scope)
    }
    &&& node_laws::number_of_last(
        model.event.message_seq,
        parse::transcript(nodes.take(place.0 + 1), scope).messages.len(),
    )
}

/// The events that one more node brings, with the call of each.
proof fn lemma_events_of_node(model: TranscriptModel, node: MessageNodeView, scope: ScopeView) -> (
    from: Seq<int>)
    requires
        scope.include_events,
        !model.seen.contains(node.dedupe_key),
    ensures
        ({
            let after = model.with_node(node, scope);
            let start = model.events.len();
            &&& after.events.len() == start + from.len()
            &&& forall|a: int, b: int|
                #![trigger from[a], from[b]]
                0 <= a < b < from.len() ==> from[a] < from[b]
            &&& forall|a: int|
                0 <= a < from.len() ==> if #[trigger] from[a] == -1 {
                    is_result_of(after.events[start + a], node, scope)
                } else {
                    is_call_of(after.events[start + a], node, from[a], scope)
                }
            &&& forall|index: int, call: Json| #[trigger]
                node_calls(node, index, call) && is_named(call) ==> from.contains(index)
            &&& forall|json: Json| #[trigger] node_answers(node, json) ==> from.contains(-1)
        }),
{
    node_laws::lemma_role_names();
    message_laws::law_message_is_that_of_the_json(node.chat_message);
    if let Some(json) = json::json_parsed(node.chat_message) {
        let message = message::message_in(json);
        let timestamp = store::in_milliseconds(node.created_at);
        node_laws::lemma_role(json);
        let noted = TranscriptModel { seen: model.seen.insert(node.dedupe_key), ..model };
        if message.role == "assistant"@ {
            let spoken = if text::blank(message.content) {
                noted
            } else {
                noted.with_content(Role::Assistant, message.content, timestamp)
            };
            message_laws::law_calls_are_the_elements(json, Seq::empty());
            if exists|calls: Seq<Json>| #[trigger]
                message_laws::has(json, "tool_calls"@, Json::Array(calls)) {
                let calls = choose|calls: Seq<Json>| #[trigger]
                    message_laws::has(json, "tool_calls"@, Json::Array(calls));
                message_laws::law_calls_are_the_elements(json, calls);
                let from = lemma_events_of_calls(
                    spoken,
                    node,
                    json,
                    calls,
                    calls.len(),
                    scope,
                );
                assert forall|index: int, call: Json| #[trigger]
                    node_calls(node, index, call) && is_named(call) implies from.contains(index) by {
                    assert(calls[index] == call);
                }
                from
            } else {
                assert(message.tool_calls.len() == 0);
                Seq::empty()
            }
        } else if message.role == "tool"@ {
            lemma_result_event(noted, node, json, scope);
            let from = seq![-1int];
            assert(from[0] == -1);
            from
        } else {
            Seq::empty()
        }
    } else {
        Seq::empty()
    }
}

/// The events of a reading are the named tool calls and the results of its nodes:
/// the places that are given are those of all of them whose node comes first with
/// its key, in their order, and each event is what the JSON at its place says.
pub proof fn law_events_are_what_nodes_call(nodes: Seq<MessageNodeView>, scope: ScopeView) -> (from:
    Seq<(int, int)>)
    requires
        scope.include_events,
    ensures
        in_order(from),
        from.len() == parse::transcript(nodes, scope).events.len(),
        forall|a: int|
            0 <= a < from.len() ==> {
                &&& is_event_at(
                    parse::transcript(nodes, scope).events[a],
                    nodes,
                    #[trigger] from[a],
                    scope,
                )
                &&& parse::transcript(nodes, scope).events[a].event.event_seq == a as u32
            },
        forall|k: int, index: int, call: Json|
            0 <= k < nodes.len() && node_laws::comes_first(nodes, k) && #[trigger] node_calls(
                nodes[k],
                index,
                call,
            ) && is_named(call) ==> from.contains((k, index)),
        forall|k: int, json: Json|
            0 <= k < nodes.len() && node_laws::comes_first(nodes, k) && #[trigger] node_answers(
                nodes[k],
                json,
            ) ==> from.contains((k, -1)),
    decreases nodes.len(),
{
    if nodes.len() == 0 {
        Seq::empty()
    } else {
        let front = nodes.drop_last();
        let last = nodes.last();
        let end = nodes.len() - 1;
        let earlier = law_events_are_what_nodes_call(front, scope);
        let before = parse::transcript(front, scope);
        let after = parse::transcript(nodes, scope);
        node_laws::lemma_first(nodes, scope);
        transcript_laws::lemma_node(before, last, scope);
        transcript_laws::law_events_are_numbered(nodes, scope);
        let own = if before.seen.contains(last.dedupe_key) {
            Seq::empty()
        } else {
            lemma_events_of_node(before, last, scope)
        };
        let from = earlier + own.map_values(|index: int| (end, index));
        assert(nodes.take(end + 1) =~= nodes);
        assert forall|a: int| 0 <= a < from.len() implies is_event_at(
            after.events[a],
            nodes,
            #[trigger] from[a],
            scope,
        ) by {
            if a < earlier.len() {
                assert(from[a] == earlier[a]);
                assert(is_event_at(before.events[a], front, earlier[a], scope));
                node_laws::lemma_first_in_front(nodes, earlier[a].0);
                assert(after.events[a] == before.events[a]);
                assert(front.take(from[a].0 + 1) =~= nodes.take(from[a].0 + 1));
            } else {
                let b = a - earlier.len();
                assert(from[a] == (end, own[b]));
            }
        }
        assert forall|a: int, b: int|
            #![trigger from[a], from[b]]
            0 <= a < b < from.len() implies {
            ||| from[a].0 < from[b].0
            ||| from[a].0 == from[b].0 && from[a].1 < from[b].1
        } by {
            if a < earlier.len() {
                assert(from[a] == earlier[a]);
                assert(is_event_at(before.events[a], front, earlier[a], scope));
                if b < earlier.len() {
                    assert(from[b] == earlier[b]);
                }
            } else {
                assert(own[a - earlier.len()] < own[b - earlier.len()]);
            }
        }
        assert forall|k: int, index: int, call: Json|
            0 <= k < nodes.len() && node_laws::comes_first(nodes, k) && #[trigger] node_calls(
                nodes[k],
                index,
                call,
            ) && is_named(call) implies from.contains((k, index)) by {
            if k < end {
                node_laws::lemma_first_in_front(nodes, k);
                assert(node_calls(front[k], index, call));
                let a = choose|a: int| 0 <= a < earlier.len() && earlier[a] == (k, index);
                assert(from[a] == (k, index));
            } else {
                let b = choose|b: int| 0 <= b < own.len() && own[b] == index;
                assert(from[earlier.len() + b] == (k, index));
            }
        }
        assert forall|k: int, json: Json|
            0 <= k < nodes.len() && node_laws::comes_first(nodes, k) && #[trigger] node_answers(
                nodes[k],
                json,
            ) implies from.contains((k, -1)) by {
            if k < end {
                node_laws::lemma_first_in_front(nodes, k);
                assert(node_answers(front[k], json));
                let a = choose|a: int| 0 <= a < earlier.len() && earlier[a] == (k, -1int);
                assert(from[a] == (k, -1int));
            } else {
                let b = choose|b: int| 0 <= b < own.len() && own[b] == -1;
                assert(from[earlier.len() + b] == (k, -1int));
            }
        }
        from
    }
}

/// Without events, a reading has none.
pub proof fn law_no_events_where_none_are_wanted(nodes: Seq<MessageNodeView>, scope: ScopeView)
    requires
        !scope.include_events,
    ensures
        parse::transcript(nodes, scope).events.len() == 0,
{
    transcript_laws::law_events_are_separate(nodes, scope);
}

/// A command runs in the directory that its call names, where that is absolute, and
/// otherwise in that of the session, where that is.
pub proof fn law_commands_run_in_the_first_absolute_directory(
    command: CommandModel,
    cwd: Option<Seq<char>>,
)
    requires
        command.runs_in(cwd),
    ensures
        ({
            ||| cwd is Some && cwd == command.workdir && paths::says_absolute(cwd->0, true)
            ||| {
                &&& command.workdir matches Some(workdir) ==> paths::says_absolute(workdir, false)
                &&& cwd == Some(command.directory)
                &&& paths::says_absolute(command.directory, true)
            }
            ||| {
                &&& command.workdir matches Some(workdir) ==> paths::says_absolute(workdir, false)
                &&& cwd is None
                &&& paths::says_absolute(command.directory, false)
            }
        }),
{
}

/// Whether two events agree in all but their files and how certain those are.
pub open spec fn agree_but_for_evidence(one: RawSessionEventView, other: RawSessionEventView) -> bool {
    &&& one.event_seq == other.event_seq
    &&& one.timestamp == other.timestamp
    &&& one.kind == other.kind
    &&& one.name == other.name
    &&& one.tool_call_id == other.tool_call_id
    &&& one.target == other.target
    &&& one.arguments == other.arguments
    &&& one.summary == other.summary
    &&& one.status == other.status
    &&& one.source_path == other.source_path
    &&& one.source_event_id == other.source_event_id
    &&& one.message_seq == other.message_seq
    &&& one.parser_version == other.parser_version
}

/// Whether `shell` was asked about a command in `cwd`, and gave the files and the
/// status of `event`.
pub open spec fn evidence_is_from<F: Fn(&ShellQuery) -> ShellEvidence>(
    event: RawSessionEventView,
    command: Seq<char>,
    cwd: Option<Seq<char>>,
    shell: F,
) -> bool {
    exists|asked: ShellQuery, given: ShellEvidence|
        {
            &&& #[trigger] call_ensures(shell, (&asked,), given)
            &&& asked.command@ == command
            &&& asked.cwd.deep_view() == cwd
            &&& event.files == given.files.deep_view()
            &&& event.command_evidence_status == Some(given.status@)
        }
}

/// An event is what its model says. Where it is a command, its files and their
/// status are those that the shell analysis gave, asked about that command in the
/// directory in which it runs.
pub proof fn law_commands_carry_the_evidence_of_the_shell<F: Fn(&ShellQuery) -> ShellEvidence>(
    model: EventModel,
    event: RawSessionEventView,
    shell: F,
)
    requires
        model.stands_for(event, shell),
    ensures
        model.command is None ==> event == model.event,
        model.command matches Some(command) ==> {
            &&& agree_but_for_evidence(event, model.event)
            &&& exists|cwd: Option<Seq<char>>| #[trigger]
                command.runs_in(cwd) && evidence_is_from(event, command.command, cwd, shell)
        },
{
    if let Some(command) = model.command {
        let evidence = choose|evidence: ShellEvidenceView|
            {
                &&& #[trigger] command.may_leave(evidence, shell)
                &&& event == events::with_evidence(model.event, evidence)
            };
        let cwd = choose|cwd: Option<Seq<char>>| #[trigger]
            command.runs_in(cwd) && events::answers(
                shell,
                ShellQueryView { command: command.command, cwd },
                evidence,
            );
        let (asked, given) = choose|asked: ShellQuery, given: ShellEvidence|
            {
                &&& asked.deep_view() == (ShellQueryView { command: command.command, cwd })
                &&& given.deep_view() == evidence
                &&& #[trigger] call_ensures(shell, (&asked,), given)
            };
        assert(call_ensures(shell, (&asked,), given));
        assert(evidence_is_from(event, command.command, cwd, shell));
    }
}

/// Every named tool call of an assistant message has its event, unless the node
/// replays an earlier one.
pub proof fn law_named_calls_have_their_events(
    nodes: Seq<MessageNodeView>,
    scope: ScopeView,
    at: int,
    index: int,
    call: Json,
) -> (event: int)
    requires
        scope.include_events,
        0 <= at < nodes.len(),
        node_laws::comes_first(nodes, at),
        node_calls(nodes[at], index, call),
        is_named(call),
    ensures
        0 <= event < parse::transcript(nodes, scope).events.len(),
        is_call_of(parse::transcript(nodes, scope).events[event], nodes[at], index, scope),
        is_event_of_call(parse::transcript(nodes, scope).events[event], call, scope.directory),
{
    let from = law_events_are_what_nodes_call(nodes, scope);
    let a = choose|a: int| 0 <= a < from.len() && from[a] == (at, index);
    let model = parse::transcript(nodes, scope).events[a];
    assert(is_event_at(model, nodes, from[a], scope));
    let read = choose|read: Json| #[trigger]
        node_calls(nodes[at], index, read) && is_event_of_call(model, read, scope.directory);
    assert(read == call);
    a
}

/// Whether the tools of an event work in `directory`: the files that it touches are
/// given with it, and a command that names no absolute directory runs in it, where it
/// is absolute.
pub open spec fn works_in(model: EventModel, directory: Seq<char>) -> bool {
    &&& forall|i: int|
        0 <= i < model.event.files.len() ==> (#[trigger] model.event.files[i]).cwd == Some(
            directory,
        )
    &&& model.command matches Some(command) ==> {
        &&& command.directory == directory
        &&& forall|cwd: Option<Seq<char>>| #[trigger]
            command.runs_in(cwd) && !paths::says_absolute(directory, false) && (
            command.workdir matches Some(workdir) ==> !paths::says_absolute(workdir, true))
                ==> cwd == Some(directory)
    }
}

/// The tools of a session work in the directory with which its nodes are read.
pub proof fn law_tools_work_in_the_directory(
    nodes: Seq<MessageNodeView>,
    scope: ScopeView,
    at: int,
)
    requires
        0 <= at < parse::transcript(nodes, scope).events.len(),
    ensures
        works_in(parse::transcript(nodes, scope).events[at], scope.directory),
{
    let model = parse::transcript(nodes, scope).events[at];
    if scope.include_events {
        let from = law_events_are_what_nodes_call(nodes, scope);
        assert(is_event_at(model, nodes, from[at], scope));
        if from[at].1 != -1 {
            let node = nodes[from[at].0];
            let call = choose|call: Json| #[trigger]
                node_calls(node, from[at].1, call) && is_event_of_call(
                    model,
                    call,
                    scope.directory,
                );
            lemma_tools_work_in(model, call, scope.directory);
        }
    } else {
        law_no_events_where_none_are_wanted(nodes, scope);
    }
}

proof fn lemma_tools_work_in(model: EventModel, call: Json, directory: Seq<char>)
    requires
        is_event_of_call(model, call, directory),
    ensures
        works_in(model, directory),
{
    let name = choose|name: Seq<char>|
        {
            &&& #[trigger] message_laws::has(call, "name"@, Json::Text(name))
            &&& name.len() > 0
            &&& model.event.name == Some(name)
            &&& does(model, name, call, directory)
        };
    lemma_tool_names();
    if name == "read"@ || writes_files(name) {
        if exists|path: Seq<char>| #[trigger] is_given_file(call, name, path) {
            let path = choose|path: Seq<char>| #[trigger] is_given_file(call, name, path);
            assert(is_given_file(call, name, path));
        }
    }
    if let Some(command) = model.command {
        assert forall|cwd: Option<Seq<char>>| #[trigger]
            command.runs_in(cwd) && !paths::says_absolute(directory, false) && (
            command.workdir matches Some(workdir) ==> !paths::says_absolute(
                workdir,
                true,
            )) implies cwd == Some(directory) by {
            law_commands_run_in_the_first_absolute_directory(command, cwd);
        }
    }
}

} // verus!

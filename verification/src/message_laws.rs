//! What a chat message says, by the members of its JSON.

use vstd::prelude::*;

use crate::json;
use crate::json::Json;
use crate::message;

verus! {

/// Whether `json` is an object whose member `key` is `value`.
pub open spec fn has(json: Json, key: Seq<char>, value: Json) -> bool {
    json matches Json::Object(members) && members.contains_key(key) && members[key] == value
}

/// Whether `json` is no object, or one without a member `key`.
pub open spec fn lacks(json: Json, key: Seq<char>) -> bool {
    json matches Json::Object(members) ==> !members.contains_key(key)
}

/// Whether `json` is an object whose member `key` is the integer `n`.
pub open spec fn has_integer(json: Json, key: Seq<char>, n: i64) -> bool {
    exists|text: Seq<char>| #[trigger] has(json, key, Json::Number { text, whole: Some(n) })
}

/// Whether the outcome that a message reports, under its metadata, is `success`.
pub open spec fn reports_outcome(json: Json, success: bool) -> bool {
    exists|metadata: Json, extensions: Json, result: Json|
        {
            &&& #[trigger] has(json, "metadata"@, metadata)
            &&& #[trigger] has(metadata, "extensions"@, extensions)
            &&& #[trigger] has(extensions, "chisel/tool_result_meta"@, result)
            &&& has(result, "success"@, Json::Bool(success))
        }
}

/// Whether a message says of itself, under its metadata, that a person typed it, or
/// that none did.
pub open spec fn says_typed(json: Json, typed: bool) -> bool {
    exists|metadata: Json|
        {
            &&& #[trigger] has(json, "metadata"@, metadata)
            &&& has(metadata, "is_user_input"@, Json::Bool(typed))
        }
}

/// Whether `metrics` is the token report of a message.
pub open spec fn has_report(json: Json, metrics: Json) -> bool {
    exists|metadata: Json|
        {
            &&& #[trigger] has(json, "metadata"@, metadata)
            &&& has(metadata, "metrics"@, metrics)
        }
}

/// The role, the content and the call that is answered are the string members of
/// those names, whatever the other members are. A role or a content that is no
/// string is empty.
pub proof fn law_texts_are_the_string_members(json: Json, text: Seq<char>)
    ensures
        has(json, "role"@, Json::Text(text)) ==> message::message_in(json).role == text,
        has(json, "content"@, Json::Text(text)) ==> message::message_in(json).content == text,
        message::message_in(json).tool_call_id == Some(text) <==> has(
            json,
            "tool_call_id"@,
            Json::Text(text),
        ),
        message::message_in(json).role.len() > 0 ==> has(
            json,
            "role"@,
            Json::Text(message::message_in(json).role),
        ),
        message::message_in(json).content.len() > 0 ==> has(
            json,
            "content"@,
            Json::Text(message::message_in(json).content),
        ),
{
}

/// Whether a person typed the message, and whether the call that it answers
/// succeeded, are the booleans that its metadata has for it.
pub proof fn law_flags_are_the_boolean_members(json: Json, flag: bool)
    ensures
        message::message_in(json).is_user_input == Some(flag) <==> says_typed(json, flag),
        message::message_in(json).success == Some(flag) <==> reports_outcome(json, flag),
{
    let read = message::message_in(json);
    if read.is_user_input == Some(flag) {
        let metadata = json->Object_0["metadata"@];
        assert(has(json, "metadata"@, metadata));
        assert(says_typed(json, flag));
    }
    if read.success == Some(flag) {
        let metadata = json->Object_0["metadata"@];
        let extensions = metadata->Object_0["extensions"@];
        let result = extensions->Object_0["chisel/tool_result_meta"@];
        assert(has(json, "metadata"@, metadata));
        assert(has(metadata, "extensions"@, extensions));
        assert(has(extensions, "chisel/tool_result_meta"@, result));
        assert(reports_outcome(json, flag));
    }
}

/// A message has a token report where its metadata has one. Each count of it is the
/// integer of that name, and its text is the report as compact JSON.
pub proof fn law_report_is_read_count_by_count(json: Json, metrics: Json, n: i64)
    ensures
        message::message_in(json).metrics is Some ==> exists|report: Json| #[trigger]
            has_report(json, report),
        has_report(json, metrics) ==> (message::message_in(json).metrics matches Some(read) && {
            &&& read.input_tokens == Some(n) <==> has_integer(metrics, "input_tokens"@, n)
            &&& read.output_tokens == Some(n) <==> has_integer(metrics, "output_tokens"@, n)
            &&& read.cache_read_tokens == Some(n) <==> has_integer(
                metrics,
                "cache_read_tokens"@,
                n,
            )
            &&& read.cache_creation_tokens == Some(n) <==> has_integer(
                metrics,
                "cache_creation_tokens"@,
                n,
            )
            &&& read.json == json::json_printed(metrics)
        }),
{
    if message::message_in(json).metrics is Some {
        let metadata = json->Object_0["metadata"@];
        assert(has(json, "metadata"@, metadata));
        assert(has_report(json, metadata->Object_0["metrics"@]));
    }
    if has_report(json, metrics) {
        lemma_integer(metrics, "input_tokens"@, n);
        lemma_integer(metrics, "output_tokens"@, n);
        lemma_integer(metrics, "cache_read_tokens"@, n);
        lemma_integer(metrics, "cache_creation_tokens"@, n);
    }
}

proof fn lemma_integer(json: Json, key: Seq<char>, n: i64)
    ensures
        json.integer_member(key) == Some(n) <==> has_integer(json, key, n),
{
    if json.integer_member(key) == Some(n) {
        let text = json->Object_0[key]->text;
        assert(has(json, key, Json::Number { text, whole: Some(n) }));
    }
}

/// A message has one tool call for each element of its array of them, and none where
/// it has no such array.
pub proof fn law_calls_are_the_elements(json: Json, items: Seq<Json>)
    ensures
        has(json, "tool_calls"@, Json::Array(items)) ==> message::message_in(json).tool_calls.len()
            == items.len(),
        message::message_in(json).tool_calls.len() > 0 ==> exists|elements: Seq<Json>| #[trigger]
            has(json, "tool_calls"@, Json::Array(elements)),
{
    if message::message_in(json).tool_calls.len() > 0 {
        let elements = json->Object_0["tool_calls"@]->Array_0;
        assert(has(json, "tool_calls"@, Json::Array(elements)));
    }
}

/// Whether the arguments of a tool call name `path` as the directory to run in: as
/// its `workdir`, or, where it has none, as its `cwd`.
pub open spec fn names_directory(arguments: Json, path: Seq<char>) -> bool {
    ||| has(arguments, "workdir"@, Json::Text(path))
    ||| lacks(arguments, "workdir"@) && has(arguments, "cwd"@, Json::Text(path))
}

/// The id and the name of a tool call are its string members of those names, and it
/// has arguments where it has a member of that name, of whatever type.
pub proof fn law_call_is_read_member_by_member(
    json: Json,
    items: Seq<Json>,
    at: int,
    arguments: Json,
    text: Seq<char>,
)
    requires
        has(json, "tool_calls"@, Json::Array(items)),
        0 <= at < items.len(),
    ensures
        ({
            let call = message::message_in(json).tool_calls[at];
            &&& call.id == Some(text) <==> has(items[at], "id"@, Json::Text(text))
            &&& call.name == Some(text) <==> has(items[at], "name"@, Json::Text(text))
            &&& call.arguments is None <==> lacks(items[at], "arguments"@)
            &&& has(items[at], "arguments"@, arguments) ==> (call.arguments matches Some(read) && {
                &&& read.file_path == Some(text) <==> has(
                    arguments,
                    "file_path"@,
                    Json::Text(text),
                )
                &&& read.notebook_path == Some(text) <==> has(
                    arguments,
                    "notebook_path"@,
                    Json::Text(text),
                )
                &&& read.command == Some(text) <==> has(arguments, "command"@, Json::Text(text))
                &&& read.workdir == Some(text) <==> names_directory(arguments, text)
                &&& read.json == json::json_printed(arguments)
            })
        }),
{
}

/// The message of a text is that of the JSON that the text stands for; a text that
/// stands for none has no message.
pub proof fn law_message_is_that_of_the_json(text: Seq<char>)
    ensures
        match json::json_parsed(text) {
            Some(json) => message::message_of_text(text) == Some(message::message_in(json)),
            None => message::message_of_text(text) is None,
        },
{
}

} // verus!

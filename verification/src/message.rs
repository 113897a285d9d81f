//! Chat messages, as the store keeps them in JSON.

use vstd::prelude::*;

use crate::json;
use crate::json::{member, parse_value, printed, Json};

verus! {

/// The arguments of a tool call, as far as the scan looks at them.
#[derive(Debug, PartialEq)]
pub struct ToolArguments {
    pub file_path: Option<String>,
    pub notebook_path: Option<String>,
    pub command: Option<String>,
    /// The directory that the call names as the one to run in.
    pub workdir: Option<String>,
    /// All arguments, as compact JSON.
    pub json: String,
}

#[verifier::ext_equal]
pub struct ToolArgumentsView {
    pub file_path: Option<Seq<char>>,
    pub notebook_path: Option<Seq<char>>,
    pub command: Option<Seq<char>>,
    pub workdir: Option<Seq<char>>,
    pub json: Seq<char>,
}

impl DeepView for ToolArguments {
    type V = ToolArgumentsView;

    open spec fn deep_view(&self) -> ToolArgumentsView {
        ToolArgumentsView {
            file_path: self.file_path.deep_view(),
            notebook_path: self.notebook_path.deep_view(),
            command: self.command.deep_view(),
            workdir: self.workdir.deep_view(),
            json: self.json@,
        }
    }
}

/// A tool call in an assistant message.
#[derive(Debug, PartialEq)]
pub struct ToolCall {
    pub id: Option<String>,
    pub name: Option<String>,
    pub arguments: Option<ToolArguments>,
}

#[verifier::ext_equal]
pub struct ToolCallView {
    pub id: Option<Seq<char>>,
    pub name: Option<Seq<char>>,
    pub arguments: Option<ToolArgumentsView>,
}

impl DeepView for ToolCall {
    type V = ToolCallView;

    open spec fn deep_view(&self) -> ToolCallView {
        ToolCallView {
            id: self.id.deep_view(),
            name: self.name.deep_view(),
            arguments: self.arguments.deep_view(),
        }
    }
}

/// The token counts that an assistant message reports.
#[derive(Debug, PartialEq)]
pub struct UsageMetrics {
    pub input_tokens: Option<i64>,
    pub output_tokens: Option<i64>,
    pub cache_read_tokens: Option<i64>,
    pub cache_creation_tokens: Option<i64>,
    /// The whole report, as compact JSON.
    pub json: String,
}

#[verifier::ext_equal]
pub struct UsageMetricsView {
    pub input_tokens: Option<i64>,
    pub output_tokens: Option<i64>,
    pub cache_read_tokens: Option<i64>,
    pub cache_creation_tokens: Option<i64>,
    pub json: Seq<char>,
}

impl DeepView for UsageMetrics {
    type V = UsageMetricsView;

    open spec fn deep_view(&self) -> UsageMetricsView {
        UsageMetricsView {
            input_tokens: self.input_tokens,
            output_tokens: self.output_tokens,
            cache_read_tokens: self.cache_read_tokens,
            cache_creation_tokens: self.cache_creation_tokens,
            json: self.json@,
        }
    }
}

/// A chat message, as far as the scan looks at it.
#[derive(Debug, PartialEq)]
pub struct ChatMessage {
    pub role: String,
    pub content: String,
    /// Whether a person typed the message, where it says so.
    pub is_user_input: Option<bool>,
    pub tool_calls: Vec<ToolCall>,
    pub metrics: Option<UsageMetrics>,
    /// The call that a tool message answers.
    pub tool_call_id: Option<String>,
    /// Whether the call that a tool message answers succeeded, where it says so.
    pub success: Option<bool>,
}

#[verifier::ext_equal]
pub struct ChatMessageView {
    pub role: Seq<char>,
    pub content: Seq<char>,
    pub is_user_input: Option<bool>,
    pub tool_calls: Seq<ToolCallView>,
    pub metrics: Option<UsageMetricsView>,
    pub tool_call_id: Option<Seq<char>>,
    pub success: Option<bool>,
}

impl DeepView for ChatMessage {
    type V = ChatMessageView;

    open spec fn deep_view(&self) -> ChatMessageView {
        ChatMessageView {
            role: self.role@,
            content: self.content@,
            is_user_input: self.is_user_input,
            tool_calls: self.tool_calls.deep_view(),
            metrics: self.metrics.deep_view(),
            tool_call_id: self.tool_call_id.deep_view(),
            success: self.success,
        }
    }
}

impl Json {
    /// The member `key`, where it is a string.
    pub open spec fn text_member(self, key: Seq<char>) -> Option<Seq<char>> {
        match self.member(key) {
            Some(value) => value.text(),
            None => None,
        }
    }

    /// The member `key`, where it is a boolean.
    pub open spec fn bool_member(self, key: Seq<char>) -> Option<bool> {
        match self.member(key) {
            Some(value) => value.boolean(),
            None => None,
        }
    }

    /// The member `key`, where it is an `i64`.
    pub open spec fn integer_member(self, key: Seq<char>) -> Option<i64> {
        match self.member(key) {
            Some(value) => value.integer(),
            None => None,
        }
    }
}

/// What the arguments of a tool call say. The directory is the `workdir`, or
/// the `cwd` where there is no `workdir`.
pub open spec fn arguments_in(json: Json) -> ToolArgumentsView {
    ToolArgumentsView {
        file_path: json.text_member("file_path"@),
        notebook_path: json.text_member("notebook_path"@),
        command: json.text_member("command"@),
        workdir: match json.member("workdir"@) {
            Some(value) => value.text(),
            None => json.text_member("cwd"@),
        },
        json: json::json_printed(json),
    }
}

/// What a tool call says.
pub open spec fn tool_call_in(json: Json) -> ToolCallView {
    ToolCallView {
        id: json.text_member("id"@),
        name: json.text_member("name"@),
        arguments: match json.member("arguments"@) {
            Some(arguments) => Some(arguments_in(arguments)),
            None => None,
        },
    }
}

/// What a token report says.
pub open spec fn metrics_in(json: Json) -> UsageMetricsView {
    UsageMetricsView {
        input_tokens: json.integer_member("input_tokens"@),
        output_tokens: json.integer_member("output_tokens"@),
        cache_read_tokens: json.integer_member("cache_read_tokens"@),
        cache_creation_tokens: json.integer_member("cache_creation_tokens"@),
        json: json::json_printed(json),
    }
}

/// The outcome that the metadata of a tool message reports.
pub open spec fn success_in(metadata: Json) -> Option<bool> {
    match metadata.member("extensions"@) {
        Some(extensions) => match extensions.member("chisel/tool_result_meta"@) {
            Some(result) => result.bool_member("success"@),
            None => None,
        },
        None => None,
    }
}

/// What a chat message says. A role or a content that is no string counts as
/// empty, and tool calls that are no array count as none.
pub open spec fn message_in(json: Json) -> ChatMessageView {
    let metadata = json.member("metadata"@);
    ChatMessageView {
        role: match json.text_member("role"@) {
            Some(role) => role,
            None => Seq::empty(),
        },
        content: match json.text_member("content"@) {
            Some(content) => content,
            None => Seq::empty(),
        },
        is_user_input: match metadata {
            Some(metadata) => metadata.bool_member("is_user_input"@),
            None => None,
        },
        tool_calls: match json.member("tool_calls"@) {
            Some(calls) => match calls.items() {
                Some(items) => items.map_values(|call: Json| tool_call_in(call)),
                None => Seq::empty(),
            },
            None => Seq::empty(),
        },
        metrics: match metadata {
            Some(metadata) => match metadata.member("metrics"@) {
                Some(metrics) => Some(metrics_in(metrics)),
                None => None,
            },
            None => None,
        },
        tool_call_id: json.text_member("tool_call_id"@),
        success: match metadata {
            Some(metadata) => success_in(metadata),
            None => None,
        },
    }
}

/// The message that a text in the store stands for, or nothing where the text
/// is no JSON.
pub open spec fn message_of_text(text: Seq<char>) -> Option<ChatMessageView> {
    match json::json_parsed(text) {
        Some(json) => Some(message_in(json)),
        None => None,
    }
}

fn text_member(value: &serde_json::Value, key: &str) -> (r: Option<String>)
    ensures
        r.deep_view() == json::json_value(*value).text_member(key@),
{
    match member(value, key) {
        Some(found) => match found.as_str() {
            Some(text) => Some(text.to_string()),
            None => None,
        },
        None => None,
    }
}

fn bool_member(value: &serde_json::Value, key: &str) -> (r: Option<bool>)
    ensures
        r == json::json_value(*value).bool_member(key@),
{
    match member(value, key) {
        Some(found) => found.as_bool(),
        None => None,
    }
}

fn integer_member(value: &serde_json::Value, key: &str) -> (r: Option<i64>)
    ensures
        r == json::json_value(*value).integer_member(key@),
{
    match member(value, key) {
        Some(found) => found.as_i64(),
        None => None,
    }
}

fn read_arguments(value: &serde_json::Value) -> (r: ToolArguments)
    ensures
        r.deep_view() == arguments_in(json::json_value(*value)),
{
    let workdir = match member(value, "workdir") {
        Some(found) => match found.as_str() {
            Some(text) => Some(text.to_string()),
            None => None,
        },
        None => text_member(value, "cwd"),
    };
    ToolArguments {
        file_path: text_member(value, "file_path"),
        notebook_path: text_member(value, "notebook_path"),
        command: text_member(value, "command"),
        workdir,
        json: printed(value),
    }
}

fn read_tool_call(value: &serde_json::Value) -> (r: ToolCall)
    ensures
        r.deep_view() == tool_call_in(json::json_value(*value)),
{
    ToolCall {
        id: text_member(value, "id"),
        name: text_member(value, "name"),
        arguments: match member(value, "arguments") {
            Some(arguments) => Some(read_arguments(arguments)),
            None => None,
        },
    }
}

fn read_tool_calls(items: &Vec<serde_json::Value>) -> (r: Vec<ToolCall>)
    ensures
        r.deep_view() == items@.map_values(
            |item: serde_json::Value| json::json_value(item),
        ).map_values(|call: Json| tool_call_in(call)),
{
    let mut calls: Vec<ToolCall> = Vec::new();
    let mut at: usize = 0;
    while at < items.len()
        invariant
            at <= items@.len(),
            calls@.len() == at,
            forall|i: int|
                0 <= i < at ==> (#[trigger] calls@[i]).deep_view() == tool_call_in(
                    json::json_value(items@[i]),
                ),
        decreases items@.len() - at,
    {
        calls.push(read_tool_call(&items[at]));
        at = at + 1;
    }
    assert(calls.deep_view() =~= items@.map_values(
        |item: serde_json::Value| json::json_value(item),
    ).map_values(|call: Json| tool_call_in(call)));
    calls
}

fn read_metrics(value: &serde_json::Value) -> (r: UsageMetrics)
    ensures
        r.deep_view() == metrics_in(json::json_value(*value)),
{
    UsageMetrics {
        input_tokens: integer_member(value, "input_tokens"),
        output_tokens: integer_member(value, "output_tokens"),
        cache_read_tokens: integer_member(value, "cache_read_tokens"),
        cache_creation_tokens: integer_member(value, "cache_creation_tokens"),
        json: printed(value),
    }
}

fn read_success(metadata: &serde_json::Value) -> (r: Option<bool>)
    ensures
        r == success_in(json::json_value(*metadata)),
{
    match member(metadata, "extensions") {
        Some(extensions) => match member(extensions, "chisel/tool_result_meta") {
            Some(result) => bool_member(result, "success"),
            None => None,
        },
        None => None,
    }
}

/// Reads what a JSON value says as a chat message.
pub fn read_message(value: &serde_json::Value) -> (r: ChatMessage)
    ensures
        r.deep_view() == message_in(json::json_value(*value)),
{
    let role = match text_member(value, "role") {
        Some(role) => role,
        None => String::new(),
    };
    let content = match text_member(value, "content") {
        Some(content) => content,
        None => String::new(),
    };
    let tool_calls = match member(value, "tool_calls") {
        Some(calls) => match calls.as_array() {
            Some(items) => read_tool_calls(items),
            None => Vec::new(),
        },
        None => Vec::new(),
    };
    let (is_user_input, metrics, success) = match member(value, "metadata") {
        Some(metadata) => (
            bool_member(metadata, "is_user_input"),
            match member(metadata, "metrics") {
                Some(metrics) => Some(read_metrics(metrics)),
                None => None,
            },
            read_success(metadata),
        ),
        None => (None, None, None),
    };
    let message = ChatMessage {
        role,
        content,
        is_user_input,
        tool_calls,
        metrics,
        tool_call_id: text_member(value, "tool_call_id"),
        success,
    };
    assert(message.deep_view() =~= message_in(json::json_value(*value)));
    message
}

/// Reads a chat message from its text, or gives nothing where the text is no
/// JSON.
pub fn parse_message(text: &str) -> (r: Option<ChatMessage>)
    ensures
        r.deep_view() == message_of_text(text@),
{
    match parse_value(text) {
        Ok(value) => Some(read_message(&value)),
        Err(_) => None,
    }
}

} // verus!

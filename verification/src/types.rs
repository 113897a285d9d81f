//! The records that a scan of the store produces.
//!
//! Each record has a mathematical counterpart, named after it with `View`, in
//! which texts are sequences of characters and vectors are sequences.

use vstd::prelude::*;

verus! {

/// Who wrote a message.
#[derive(Debug, Clone, Copy, PartialEq, Eq, Structural)]
pub enum Role {
    User,
    Assistant,
}

impl Role {
    /// The name of the role.
    pub fn as_str(&self) -> (r: &'static str)
        ensures
            r@ == (match *self {
                Role::User => "user"@,
                Role::Assistant => "assistant"@,
            }),
    {
        match self {
            Role::User => "user",
            Role::Assistant => "assistant",
        }
    }
}

impl DeepView for Role {
    type V = Role;

    open spec fn deep_view(&self) -> Role {
        *self
    }
}

/// A message of a conversation.
#[derive(Debug, PartialEq)]
pub struct RawMessage {
    pub role: Role,
    pub content: String,
    pub timestamp: Option<i64>,
}

#[verifier::ext_equal]
pub struct RawMessageView {
    pub role: Role,
    pub content: Seq<char>,
    pub timestamp: Option<i64>,
}

impl DeepView for RawMessage {
    type V = RawMessageView;

    open spec fn deep_view(&self) -> RawMessageView {
        RawMessageView {
            role: self.role,
            content: self.content@,
            timestamp: self.timestamp,
        }
    }
}

/// The tokens that one message cost.
#[derive(Debug, PartialEq)]
pub struct RawUsageEvent {
    pub event_key: String,
    pub event_seq: u32,
    pub timestamp: i64,
    pub parser_version: u32,
    pub message_seq: Option<u32>,
    pub model: String,
    pub provider: String,
    pub input_tokens: i64,
    pub output_tokens: i64,
    pub cache_read_tokens: i64,
    pub cache_write_tokens: i64,
    pub source_path: Option<String>,
    pub raw_usage_json: Option<String>,
}

#[verifier::ext_equal]
pub struct RawUsageEventView {
    pub event_key: Seq<char>,
    pub event_seq: u32,
    pub timestamp: i64,
    pub parser_version: u32,
    pub message_seq: Option<u32>,
    pub model: Seq<char>,
    pub provider: Seq<char>,
    pub input_tokens: i64,
    pub output_tokens: i64,
    pub cache_read_tokens: i64,
    pub cache_write_tokens: i64,
    pub source_path: Option<Seq<char>>,
    pub raw_usage_json: Option<Seq<char>>,
}

impl DeepView for RawUsageEvent {
    type V = RawUsageEventView;

    open spec fn deep_view(&self) -> RawUsageEventView {
        RawUsageEventView {
            event_key: self.event_key@,
            event_seq: self.event_seq,
            timestamp: self.timestamp,
            parser_version: self.parser_version,
            message_seq: self.message_seq,
            model: self.model@,
            provider: self.provider@,
            input_tokens: self.input_tokens,
            output_tokens: self.output_tokens,
            cache_read_tokens: self.cache_read_tokens,
            cache_write_tokens: self.cache_write_tokens,
            source_path: self.source_path.deep_view(),
            raw_usage_json: self.raw_usage_json.deep_view(),
        }
    }
}

/// What a tool did to a file.
#[derive(Debug, Clone, Copy, PartialEq, Eq, Structural)]
pub enum FileOperation {
    Read,
    Write,
}

/// A file that an event touched.
#[derive(Debug, PartialEq)]
pub struct FileEvidence {
    pub path: String,
    pub operation: FileOperation,
    pub cwd: Option<String>,
}

#[verifier::ext_equal]
pub struct FileEvidenceView {
    pub path: Seq<char>,
    pub operation: FileOperation,
    pub cwd: Option<Seq<char>>,
}

impl DeepView for FileEvidence {
    type V = FileEvidenceView;

    open spec fn deep_view(&self) -> FileEvidenceView {
        FileEvidenceView {
            path: self.path@,
            operation: self.operation,
            cwd: self.cwd.deep_view(),
        }
    }
}

/// A tool call or a tool result.
#[derive(Debug, PartialEq)]
pub struct RawSessionEvent {
    pub event_seq: u32,
    pub timestamp: Option<i64>,
    pub kind: String,
    pub name: Option<String>,
    pub tool_call_id: Option<String>,
    pub target: Option<String>,
    pub arguments: Option<String>,
    pub summary: Option<String>,
    pub status: Option<String>,
    pub files: Vec<FileEvidence>,
    pub command_evidence_status: Option<String>,
    pub source_path: Option<String>,
    pub source_event_id: Option<String>,
    pub message_seq: Option<u32>,
    pub parser_version: u32,
}

#[verifier::ext_equal]
pub struct RawSessionEventView {
    pub event_seq: u32,
    pub timestamp: Option<i64>,
    pub kind: Seq<char>,
    pub name: Option<Seq<char>>,
    pub tool_call_id: Option<Seq<char>>,
    pub target: Option<Seq<char>>,
    pub arguments: Option<Seq<char>>,
    pub summary: Option<Seq<char>>,
    pub status: Option<Seq<char>>,
    pub files: Seq<FileEvidenceView>,
    pub command_evidence_status: Option<Seq<char>>,
    pub source_path: Option<Seq<char>>,
    pub source_event_id: Option<Seq<char>>,
    pub message_seq: Option<u32>,
    pub parser_version: u32,
}

impl DeepView for RawSessionEvent {
    type V = RawSessionEventView;

    open spec fn deep_view(&self) -> RawSessionEventView {
        RawSessionEventView {
            event_seq: self.event_seq,
            timestamp: self.timestamp,
            kind: self.kind@,
            name: self.name.deep_view(),
            tool_call_id: self.tool_call_id.deep_view(),
            target: self.target.deep_view(),
            arguments: self.arguments.deep_view(),
            summary: self.summary.deep_view(),
            status: self.status.deep_view(),
            files: self.files.deep_view(),
            command_evidence_status: self.command_evidence_status.deep_view(),
            source_path: self.source_path.deep_view(),
            source_event_id: self.source_event_id.deep_view(),
            message_seq: self.message_seq,
            parser_version: self.parser_version,
        }
    }
}

/// The part that a session plays in a tree of sessions.
#[derive(Debug, Clone, Copy, PartialEq, Eq, Structural)]
pub enum ThreadRole {
    Subagent,
}

/// How a session came from its parent.
#[derive(Debug, Clone, Copy, PartialEq, Eq, Structural)]
pub enum ParentRelation {
    Spawn,
}

/// The session that a session came from.
#[derive(Debug, PartialEq)]
pub struct ParentLink {
    pub relation: ParentRelation,
    pub source: String,
    pub source_id: String,
}

#[verifier::ext_equal]
pub struct ParentLinkView {
    pub relation: ParentRelation,
    pub source: Seq<char>,
    pub source_id: Seq<char>,
}

impl DeepView for ParentLink {
    type V = ParentLinkView;

    open spec fn deep_view(&self) -> ParentLinkView {
        ParentLinkView {
            relation: self.relation,
            source: self.source@,
            source_id: self.source_id@,
        }
    }
}

/// A session as a scan hands it on.
#[derive(Debug, PartialEq)]
pub struct RawSession {
    pub source_id: String,
    pub directory: Option<String>,
    pub started_at: i64,
    pub updated_at: Option<i64>,
    pub messages: Vec<RawMessage>,
    pub usage_events: Vec<RawUsageEvent>,
    pub usage_parser_version: Option<u32>,
    pub events: Vec<RawSessionEvent>,
    pub event_parser_version: Option<u32>,
    pub metadata_parser_version: Option<u32>,
    pub custom_title: Option<String>,
    pub duration_minutes: Option<u32>,
    pub source_file_path: Option<String>,
    pub thread_role: Option<ThreadRole>,
    pub parent_links: Vec<ParentLink>,
}

} // verus!

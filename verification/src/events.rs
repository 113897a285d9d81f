//! Tool calls and tool results as session events.

use vstd::prelude::*;
use vstd::string::*;

use crate::message::{ToolArgumentsView, ToolCall, ToolCallView};
use crate::paths;
use crate::paths::is_absolute;
use crate::text;
use crate::types::{
    FileEvidence, FileEvidenceView, FileOperation, RawSessionEvent, RawSessionEventView,
};

verus! {

/// Where an event stands in its session and in the store.
#[derive(Debug, PartialEq)]
pub struct EventContext {
    pub event_seq: u32,
    pub timestamp: Option<i64>,
    pub source_path: Option<String>,
    pub source_event_id: Option<String>,
    pub message_seq: Option<u32>,
    pub parser_version: u32,
}

#[verifier::ext_equal]
pub struct EventContextView {
    pub event_seq: u32,
    pub timestamp: Option<i64>,
    pub source_path: Option<Seq<char>>,
    pub source_event_id: Option<Seq<char>>,
    pub message_seq: Option<u32>,
    pub parser_version: u32,
}

impl DeepView for EventContext {
    type V = EventContextView;

    open spec fn deep_view(&self) -> EventContextView {
        EventContextView {
            event_seq: self.event_seq,
            timestamp: self.timestamp,
            source_path: self.source_path.deep_view(),
            source_event_id: self.source_event_id.deep_view(),
            message_seq: self.message_seq,
            parser_version: self.parser_version,
        }
    }
}

/// A shell command and the directory in which it ran, where that is known.
#[derive(Debug, PartialEq)]
pub struct ShellQuery {
    pub command: String,
    pub cwd: Option<String>,
}

#[verifier::ext_equal]
pub struct ShellQueryView {
    pub command: Seq<char>,
    pub cwd: Option<Seq<char>>,
}

impl DeepView for ShellQuery {
    type V = ShellQueryView;

    open spec fn deep_view(&self) -> ShellQueryView {
        ShellQueryView { command: self.command@, cwd: self.cwd.deep_view() }
    }
}

/// The files that a shell command touches, and how certain that is.
#[derive(Debug, PartialEq)]
pub struct ShellEvidence {
    pub files: Vec<FileEvidence>,
    pub status: String,
}

#[verifier::ext_equal]
pub struct ShellEvidenceView {
    pub files: Seq<FileEvidenceView>,
    pub status: Seq<char>,
}

impl DeepView for ShellEvidence {
    type V = ShellEvidenceView;

    open spec fn deep_view(&self) -> ShellEvidenceView {
        ShellEvidenceView { files: self.files.deep_view(), status: self.status@ }
    }
}

/// A command that the shell analysis is asked about: its text, the directory that
/// the call names, where it names one, and the directory of the session.
#[verifier::ext_equal]
pub struct CommandModel {
    pub command: Seq<char>,
    pub workdir: Option<Seq<char>>,
    pub directory: Seq<char>,
}

/// The directory in which a command runs: the one that the call names, or that of
/// the session; a directory that is not absolute does not count.
pub open spec fn command_directory(
    workdir: Option<Seq<char>>,
    workdir_is_absolute: bool,
    directory: Seq<char>,
    directory_is_absolute: bool,
) -> Option<Seq<char>> {
    if workdir is Some && workdir_is_absolute {
        workdir
    } else if directory_is_absolute {
        Some(directory)
    } else {
        None
    }
}

impl CommandModel {
    /// Whether the command runs in `cwd`, by what the machine says of the two
    /// directories.
    pub open spec fn runs_in(self, cwd: Option<Seq<char>>) -> bool {
        exists|workdir_is_absolute: bool, directory_is_absolute: bool|
            {
                &&& cwd == #[trigger] command_directory(
                    self.workdir,
                    workdir_is_absolute,
                    self.directory,
                    directory_is_absolute,
                )
                &&& self.workdir matches Some(workdir) ==> paths::says_absolute(
                    workdir,
                    workdir_is_absolute,
                )
                &&& paths::says_absolute(self.directory, directory_is_absolute)
            }
    }

    /// Whether `evidence` is what `shell` may give for the command.
    pub open spec fn may_leave<F: Fn(&ShellQuery) -> ShellEvidence>(
        self,
        evidence: ShellEvidenceView,
        shell: F,
    ) -> bool {
        exists|cwd: Option<Seq<char>>| #[trigger]
            self.runs_in(cwd) && answers(
                shell,
                ShellQueryView { command: self.command, cwd },
                evidence,
            )
    }
}

/// An event before the shell evidence of its command is attached, and the command
/// that the shell analysis is asked about, where the event is one.
#[verifier::ext_equal]
pub struct EventModel {
    pub event: RawSessionEventView,
    pub command: Option<CommandModel>,
}

/// An event with shell evidence attached.
pub open spec fn with_evidence(
    event: RawSessionEventView,
    evidence: ShellEvidenceView,
) -> RawSessionEventView {
    RawSessionEventView {
        files: evidence.files,
        command_evidence_status: Some(evidence.status),
        ..event
    }
}

/// Whether `shell` may give `evidence` when it is asked `query`.
pub open spec fn answers<F: Fn(&ShellQuery) -> ShellEvidence>(
    shell: F,
    query: ShellQueryView,
    evidence: ShellEvidenceView,
) -> bool {
    exists|asked: ShellQuery, given: ShellEvidence|
        {
            &&& asked.deep_view() == query
            &&& given.deep_view() == evidence
            &&& #[trigger] call_ensures(shell, (&asked,), given)
        }
}

impl EventModel {
    /// Whether `event` is this event, with the evidence that `shell` gives where
    /// it is asked.
    pub open spec fn stands_for<F: Fn(&ShellQuery) -> ShellEvidence>(
        self,
        event: RawSessionEventView,
        shell: F,
    ) -> bool {
        match self.command {
            Some(command) => exists|evidence: ShellEvidenceView|
                {
                    &&& #[trigger] command.may_leave(evidence, shell)
                    &&& event == with_evidence(self.event, evidence)
                },
            None => event == self.event,
        }
    }
}

/// An event of which only its place and its kind are known.
pub open spec fn event_at(context: EventContextView, kind: Seq<char>) -> RawSessionEventView {
    RawSessionEventView {
        event_seq: context.event_seq,
        timestamp: context.timestamp,
        kind,
        name: None,
        tool_call_id: None,
        target: None,
        arguments: None,
        summary: None,
        status: None,
        files: Seq::empty(),
        command_evidence_status: None,
        source_path: context.source_path,
        source_event_id: context.source_event_id,
        message_seq: context.message_seq,
        parser_version: context.parser_version,
    }
}

fn new_event(context: EventContext, kind: &str) -> (r: RawSessionEvent)
    ensures
        r.deep_view() == event_at(context.deep_view(), kind@),
{
    let event = RawSessionEvent {
        event_seq: context.event_seq,
        timestamp: context.timestamp,
        kind: kind.to_string(),
        name: None,
        tool_call_id: None,
        target: None,
        arguments: None,
        summary: None,
        status: None,
        files: Vec::new(),
        command_evidence_status: None,
        source_path: context.source_path,
        source_event_id: context.source_event_id,
        message_seq: context.message_seq,
        parser_version: context.parser_version,
    };
    assert(event.deep_view() =~= event_at(context.deep_view(), kind@));
    event
}

/// The event of a call of the tool `name`.
pub fn tool_call_event(context: EventContext, name: String, arguments: Option<String>) -> (r:
    RawSessionEvent)
    ensures
        r.deep_view() == (RawSessionEventView {
            name: Some(name@),
            arguments: arguments.deep_view(),
            ..event_at(context.deep_view(), "tool_call"@)
        }),
{
    let mut event = new_event(context, "tool_call");
    event.name = Some(name);
    event.arguments = arguments;
    event
}

/// The event of the result of a tool call.
pub fn tool_result_event(
    context: EventContext,
    name: Option<String>,
    summary: Option<String>,
) -> (r: RawSessionEvent)
    ensures
        r.deep_view() == (RawSessionEventView {
            name: name.deep_view(),
            summary: summary.deep_view(),
            ..event_at(context.deep_view(), "tool_result"@)
        }),
{
    let mut event = new_event(context, "tool_result");
    event.name = name;
    event.summary = summary;
    event
}

/// A text that is there and not empty.
pub open spec fn non_empty(value: Option<Seq<char>>) -> Option<Seq<char>> {
    match value {
        Some(text) => if text.len() > 0 {
            Some(text)
        } else {
            None
        },
        None => None,
    }
}

/// A text that is there and not blank.
pub open spec fn non_blank(value: Option<Seq<char>>) -> Option<Seq<char>> {
    match value {
        Some(text) => if text::blank(text) {
            None
        } else {
            Some(text)
        },
        None => None,
    }
}

/// The text, where it is there and not empty.
pub fn some_non_empty(value: &Option<String>) -> (r: Option<&str>)
    ensures
        r.deep_view() == non_empty(value.deep_view()),
{
    match value {
        Some(text) => if text.as_str().is_empty() {
            None
        } else {
            Some(text.as_str())
        },
        None => None,
    }
}

/// The text, where it is there and not blank.
pub fn some_non_blank(value: &Option<String>) -> (r: Option<&str>)
    ensures
        r.deep_view() == non_blank(value.deep_view()),
{
    match value {
        Some(text) => if text::is_blank(text.as_str()) {
            None
        } else {
            Some(text.as_str())
        },
        None => None,
    }
}

/// A copy of a text that may be missing.
pub fn owned(value: Option<&str>) -> (r: Option<String>)
    ensures
        r.deep_view() == value.deep_view(),
{
    match value {
        Some(text) => Some(text.to_string()),
        None => None,
    }
}

/// What the tool `name` does to the file it is given.
pub open spec fn file_operation(name: Seq<char>) -> Option<FileOperation> {
    if name == "read"@ {
        Some(FileOperation::Read)
    } else if name == "write"@ || name == "edit"@ || name == "notebook_edit"@ {
        Some(FileOperation::Write)
    } else {
        None
    }
}

/// The file that a call of the tool `name` is given.
pub open spec fn file_argument(name: Seq<char>, arguments: Option<ToolArgumentsView>) -> Option<
    Seq<char>,
> {
    match arguments {
        Some(arguments) => if name == "notebook_edit"@ {
            non_blank(arguments.notebook_path)
        } else {
            non_blank(arguments.file_path)
        },
        None => None,
    }
}

/// The event of a tool call. A call of a file tool that names a file is a read or
/// a write of that file; a call of `exec` is a command, and the shell analysis is
/// asked about one that is not blank; any other call stays a plain tool call.
pub open spec fn tool_call_model(
    call: ToolCallView,
    name: Seq<char>,
    context: EventContextView,
    directory: Seq<char>,
) -> EventModel {
    let plain = RawSessionEventView {
        name: Some(name),
        arguments: match call.arguments {
            Some(arguments) => Some(arguments.json),
            None => None,
        },
        tool_call_id: non_empty(call.id),
        ..event_at(context, "tool_call"@)
    };
    let operation = file_operation(name);
    let path = file_argument(name, call.arguments);
    if operation is Some && path is Some {
        EventModel {
            event: RawSessionEventView {
                kind: if operation->0 == FileOperation::Read {
                    "file_read"@
                } else {
                    "file_write"@
                },
                target: path,
                files: seq![
                    FileEvidenceView {
                        path: path->0,
                        operation: operation->0,
                        cwd: Some(directory),
                    },
                ],
                ..plain
            },
            command: None,
        }
    } else if name == "exec"@ {
        let command = match call.arguments {
            Some(arguments) => non_blank(arguments.command),
            None => None,
        };
        EventModel {
            event: RawSessionEventView { kind: "command"@, target: command, ..plain },
            command: match command {
                Some(command) => Some(
                    CommandModel {
                        command,
                        workdir: match call.arguments {
                            Some(arguments) => arguments.workdir,
                            None => None,
                        },
                        directory,
                    },
                ),
                None => None,
            },
        }
    } else {
        EventModel { event: plain, command: None }
    }
}

/// Attaches the evidence of a shell command to its event.
pub fn attach_evidence(event: &mut RawSessionEvent, evidence: ShellEvidence)
    ensures
        final(event).deep_view() == with_evidence(old(event).deep_view(), evidence.deep_view()),
{
    event.files = evidence.files;
    event.command_evidence_status = Some(evidence.status);
}

fn operation_of(name: &str) -> (r: Option<FileOperation>)
    ensures
        r == file_operation(name@),
{
    if text::same_text(name, "read") {
        Some(FileOperation::Read)
    } else if text::same_text(name, "write") || text::same_text(name, "edit") || text::same_text(
        name,
        "notebook_edit",
    ) {
        Some(FileOperation::Write)
    } else {
        None
    }
}

fn file_of<'a>(call: &'a ToolCall, name: &str) -> (r: Option<&'a str>)
    ensures
        r.deep_view() == file_argument(name@, call.arguments.deep_view()),
{
    match &call.arguments {
        Some(arguments) => if text::same_text(name, "notebook_edit") {
            some_non_blank(&arguments.notebook_path)
        } else {
            some_non_blank(&arguments.file_path)
        },
        None => None,
    }
}

/// The directory in which a command runs, given which of the two are absolute.
pub fn choose_directory(
    workdir: Option<&str>,
    workdir_is_absolute: bool,
    directory: &str,
    directory_is_absolute: bool,
) -> (r: Option<String>)
    ensures
        r.deep_view() == command_directory(
            workdir.deep_view(),
            workdir_is_absolute,
            directory@,
            directory_is_absolute,
        ),
{
    if let Some(workdir) = workdir {
        if workdir_is_absolute {
            return Some(workdir.to_string());
        }
    }
    if directory_is_absolute {
        Some(directory.to_string())
    } else {
        None
    }
}

fn directory_of(workdir: Option<&str>, directory: &str) -> (r: Option<String>)
    ensures
        forall|command: CommandModel|
            command.workdir == workdir.deep_view() && command.directory == directory@
                ==> #[trigger] command.runs_in(r.deep_view()),
{
    let workdir_is_absolute = match workdir {
        Some(workdir) => is_absolute(workdir),
        None => false,
    };
    let directory_is_absolute = is_absolute(directory);
    choose_directory(workdir, workdir_is_absolute, directory, directory_is_absolute)
}

/// The event of a call of the tool `name` in the directory of its session. The
/// command that `shell` is asked about is exactly that of `tool_call_model`, and
/// what it answers is attached to the event.
pub fn parse_tool_call<F: Fn(&ShellQuery) -> ShellEvidence>(
    call: &ToolCall,
    name: &str,
    context: EventContext,
    directory: &str,
    shell: &F,
) -> (r: Option<RawSessionEvent>)
    requires
        forall|query: &ShellQuery| call_requires(*shell, (query,)),
    ensures
        r is Some,
        tool_call_model(
            call.deep_view(),
            name@,
            context.deep_view(),
            directory@,
        ).stands_for(r->0.deep_view(), *shell),
{
    let ghost model = tool_call_model(
        call.deep_view(),
        name@,
        context.deep_view(),
        directory@,
    );
    let arguments = match &call.arguments {
        Some(arguments) => Some(arguments.json.clone()),
        None => None,
    };
    let mut event = tool_call_event(context, name.to_string(), arguments);
    event.tool_call_id = owned(some_non_empty(&call.id));
    let operation = operation_of(name);
    let path = file_of(call, name);
    if operation.is_some() && path.is_some() {
        let operation = operation.unwrap();
        let path = path.unwrap();
        event.kind = if operation == FileOperation::Read {
            "file_read".to_string()
        } else {
            "file_write".to_string()
        };
        event.target = Some(path.to_string());
        event.files.push(
            FileEvidence {
                path: path.to_string(),
                operation,
                cwd: Some(directory.to_string()),
            },
        );
        assert(event.deep_view() =~= model.event);
    } else if text::same_text(name, "exec") {
        let command = match &call.arguments {
            Some(arguments) => some_non_blank(&arguments.command),
            None => None,
        };
        event.kind = "command".to_string();
        event.target = owned(command);
        assert(event.deep_view() =~= model.event);
        if let Some(command) = command {
            let workdir = match &call.arguments {
                Some(arguments) => match &arguments.workdir {
                    Some(workdir) => Some(workdir.as_str()),
                    None => None,
                },
                None => None,
            };
            let query = ShellQuery {
                command: command.to_string(),
                cwd: directory_of(workdir, directory),
            };
            let evidence = shell(&query);
            assert(answers(*shell, query.deep_view(), evidence.deep_view()));
            assert(model.command->0.runs_in(query.deep_view().cwd));
            assert(model.command->0.may_leave(evidence.deep_view(), *shell));
            attach_evidence(&mut event, evidence);
        }
    }
    Some(event)
}

} // verus!

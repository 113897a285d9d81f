//! The Devin command line as a source of sessions.

use std::path::PathBuf;

use vstd::prelude::*;
use vstd::string::*;

use crate::paths;
use crate::paths::{join, path_of};
use crate::store::USAGE_PARSER_VERSION;
use crate::text;

verus! {

/// The path of the store below a home directory.
pub const HOME_DB_PATH: &'static str = ".local/share/devin/cli/sessions.db";

/// A command line.
#[derive(Debug, PartialEq)]
pub struct ResumeCommand {
    pub program: String,
    pub args: Vec<String>,
}

#[verifier::ext_equal]
pub struct ResumeCommandView {
    pub program: Seq<char>,
    pub args: Seq<Seq<char>>,
}

impl DeepView for ResumeCommand {
    type V = ResumeCommandView;

    open spec fn deep_view(&self) -> ResumeCommandView {
        ResumeCommandView { program: self.program@, args: self.args.deep_view() }
    }
}

/// The Devin command line.
#[derive(Debug, Clone, Copy)]
pub struct DevinAdapter;

impl DevinAdapter {
    /// The name of the source.
    pub fn id(&self) -> (r: &'static str)
        ensures
            r@ == "devin"@,
    {
        "devin"
    }

    /// The short form of the name.
    pub fn label(&self) -> (r: &'static str)
        ensures
            r@ == "DV"@,
    {
        "DV"
    }

    /// The version of the rules by which token usage is read.
    pub fn usage_parser_version(&self) -> (r: Option<u32>)
        ensures
            r == Some(USAGE_PARSER_VERSION),
    {
        Some(USAGE_PARSER_VERSION)
    }

    /// The command that resumes a session; for a subagent, the session that
    /// spawned it.
    pub fn resume_command(&self, source_id: &str) -> (r: Option<ResumeCommand>)
        ensures
            r.deep_view() == Some(
                ResumeCommandView {
                    program: "devin"@,
                    args: seq!["--resume"@, text::before_colon(source_id@)],
                },
            ),
    {
        let mut args: Vec<String> = Vec::new();
        args.push("--resume".to_string());
        args.push(text::until_colon(source_id).to_string());
        assert(args.deep_view() =~= seq!["--resume"@, text::before_colon(source_id@)]);
        Some(ResumeCommand { program: "devin".to_string(), args })
    }

    /// The command that starts a session with a prompt.
    pub fn start_command(&self, prompt: String) -> (r: Option<ResumeCommand>)
        ensures
            r.deep_view() == Some(
                ResumeCommandView { program: "devin"@, args: seq!["--"@, prompt@] },
            ),
    {
        let ghost text = prompt@;
        let mut args: Vec<String> = Vec::new();
        args.push("--".to_string());
        args.push(prompt);
        assert(args.deep_view() =~= seq!["--"@, text]);
        Some(ResumeCommand { program: "devin".to_string(), args })
    }
}

/// Whether `path` is where the store lies below the directory `data`.
pub open spec fn lies_below_data(data: Seq<char>, path: PathBuf) -> bool {
    exists|base: PathBuf, devin: PathBuf, cli: PathBuf|
        {
            &&& paths::path_text(base) == Some(data)
            &&& #[trigger] paths::joins(base, "devin"@, devin)
            &&& #[trigger] paths::joins(devin, "cli"@, cli)
            &&& #[trigger] paths::joins(cli, "sessions.db"@, path)
        }
}

/// The directory that `XDG_DATA_HOME` names, where it is set and not blank.
pub open spec fn data_home(xdg_data_home: Option<Seq<char>>) -> Option<Seq<char>> {
    match xdg_data_home {
        Some(xdg) => if text::trimmed(xdg).len() > 0 {
            Some(text::trimmed(xdg))
        } else {
            None
        },
        None => None,
    }
}

/// Whether `path` is where the store lies: below `XDG_DATA_HOME`, where that is set
/// and not blank, and otherwise below the home directory, where there is one.
pub open spec fn is_db_path(
    xdg_data_home: Option<Seq<char>>,
    home: Option<PathBuf>,
    path: Option<PathBuf>,
) -> bool {
    match (data_home(xdg_data_home), home) {
        (Some(data), _) => path is Some && lies_below_data(data, path->0),
        (None, Some(home)) => path is Some && paths::joins(home, HOME_DB_PATH@, path->0),
        (None, None) => path is None,
    }
}

/// Where the store lies, given `XDG_DATA_HOME` and the home directory.
pub fn resolve_db_path_from(xdg_data_home: Option<String>, home: Option<PathBuf>) -> (r: Option<
    PathBuf,
>)
    ensures
        is_db_path(xdg_data_home.deep_view(), home, r),
{
    if let Some(xdg) = &xdg_data_home {
        let data = text::trim(xdg.as_str());
        if !data.is_empty() {
            let base = path_of(data);
            let devin = join(&base, "devin");
            let cli = join(&devin, "cli");
            return Some(join(&cli, "sessions.db"));
        }
    }
    match home {
        Some(home) => Some(join(&home, HOME_DB_PATH)),
        None => None,
    }
}

/// Whether `whole` names the store below the directory `data`, with one separator
/// after each part.
pub open spec fn names_store_below(data: Seq<char>, whole: Seq<char>) -> bool {
    exists|devin: Seq<char>, cli: Seq<char>|
        {
            &&& #[trigger] paths::adjoined(data, "devin"@, devin)
            &&& #[trigger] paths::adjoined(devin, "cli"@, cli)
            &&& paths::adjoined(cli, "sessions.db"@, whole)
        }
}

/// The text of the path of the store is the directory, followed by `devin`, `cli`
/// and `sessions.db`, or by the path below a home directory. A directory that
/// starts with a backslash can be written anew.
pub proof fn law_db_path_text(
    xdg_data_home: Option<Seq<char>>,
    home: Option<PathBuf>,
    path: PathBuf,
)
    requires
        is_db_path(xdg_data_home, home, Some(path)),
        data_home(xdg_data_home) matches Some(data) ==> data[0] != '\\',
        data_home(xdg_data_home) is None ==> (paths::path_text(home->0) matches Some(text)
            && (text.len() == 0 || text[0] != '\\')),
    ensures
        paths::path_text(path) matches Some(whole) && match data_home(xdg_data_home) {
            Some(data) => names_store_below(data, whole),
            None => paths::adjoined(paths::path_text(home->0)->0, HOME_DB_PATH@, whole),
        },
{
    lemma_parts_are_relative();
    match data_home(xdg_data_home) {
        Some(data) => {
            let (base, devin, cli) = choose|base: PathBuf, devin: PathBuf, cli: PathBuf|
                {
                    &&& paths::path_text(base) == Some(data)
                    &&& #[trigger] paths::joins(base, "devin"@, devin)
                    &&& #[trigger] paths::joins(devin, "cli"@, cli)
                    &&& #[trigger] paths::joins(cli, "sessions.db"@, path)
                };
            paths::law_joined_text(base, "devin"@, devin);
            assert(paths::path_text(devin)->0[0] == data[0]);
            paths::law_joined_text(devin, "cli"@, cli);
            assert(paths::path_text(cli)->0[0] == data[0]);
            paths::law_joined_text(cli, "sessions.db"@, path);
        },
        None => {
            paths::law_joined_text(home->0, HOME_DB_PATH@, path);
        },
    }
}

proof fn lemma_parts_are_relative()
    ensures
        paths::plainly_relative("devin"@),
        paths::plainly_relative("cli"@),
        paths::plainly_relative("sessions.db"@),
        paths::plainly_relative(HOME_DB_PATH@),
{
    reveal_strlit("devin");
    reveal_strlit("cli");
    reveal_strlit("sessions.db");
    reveal_strlit(".local/share/devin/cli/sessions.db");
}

/// The store lies below the directory that `XDG_DATA_HOME` names, without the white
/// space at its ends, wherever that is not blank; otherwise it lies below the home
/// directory, and nowhere where there is none.
pub proof fn law_data_home_comes_first(
    xdg_data_home: Option<Seq<char>>,
    home: Option<PathBuf>,
    path: Option<PathBuf>,
)
    requires
        is_db_path(xdg_data_home, home, path),
    ensures
        xdg_data_home matches Some(xdg) && !text::blank(xdg) ==> path is Some && exists|
            base: PathBuf,
            devin: PathBuf,
            cli: PathBuf,
        |
            {
                &&& paths::path_text(base) == Some(text::trimmed(xdg_data_home->0))
                &&& #[trigger] paths::joins(base, "devin"@, devin)
                &&& #[trigger] paths::joins(devin, "cli"@, cli)
                &&& #[trigger] paths::joins(cli, "sessions.db"@, path->0)
            },
        (xdg_data_home is None || text::blank(xdg_data_home->0)) && home is Some ==> path is Some
            && paths::joins(home->0, ".local/share/devin/cli/sessions.db"@, path->0),
        (xdg_data_home is None || text::blank(xdg_data_home->0)) && home is None ==> path is None,
{
    if let Some(xdg) = xdg_data_home {
        text::law_blank_is_trimmed_away(xdg);
    }
}

} // verus!

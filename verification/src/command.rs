//! The command dispatcher: classifies one line of user input as a command
//! or a plain question, in a fixed priority order, together with the
//! prefix matching behind interactive command hints and completion.

use vstd::prelude::*;
use vstd::string::*;
use crate::text::{all_space, trim, trim_spec, str_eq, str_starts_with, is_space_char, is_space};

verus! {

/// What one line of user input asks for.
pub enum Command {
    /// Blank line: nothing to do.
    NoOp,
    /// End the session.
    Exit,
    /// Clear the conversation history.
    ClearHistory,
    /// Show the conversation history.
    ShowHistory,
    /// Show the command help.
    ShowHelp,
    /// Attach the file or directory at this path.
    AddFile(String),
    /// An attach command without a path: an error to surface, not a dispatch.
    AddFileMissingPath,
    /// Detach the file at this path.
    RemoveFile(String),
    /// A detach command without a path: an error to surface, not a dispatch.
    RemoveFileMissingPath,
    /// List the attached files.
    ListFiles,
    /// Detach all files.
    ClearFiles,
    /// A line starting with a slash that is no known command.
    UnknownCommand(String),
    /// Anything else: a question for the service.
    Question(String),
}

/// Mathematical image of a [`Command`].
pub enum CommandView {
    NoOp,
    Exit,
    ClearHistory,
    ShowHistory,
    ShowHelp,
    AddFile(Seq<char>),
    AddFileMissingPath,
    RemoveFile(Seq<char>),
    RemoveFileMissingPath,
    ListFiles,
    ClearFiles,
    UnknownCommand(Seq<char>),
    Question(Seq<char>),
}

impl View for Command {
    type V = CommandView;

    open spec fn view(&self) -> CommandView {
        match self {
            Command::NoOp => CommandView::NoOp,
            Command::Exit => CommandView::Exit,
            Command::ClearHistory => CommandView::ClearHistory,
            Command::ShowHistory => CommandView::ShowHistory,
            Command::ShowHelp => CommandView::ShowHelp,
            Command::AddFile(p) => CommandView::AddFile(p@),
            Command::AddFileMissingPath => CommandView::AddFileMissingPath,
            Command::RemoveFile(p) => CommandView::RemoveFile(p@),
            Command::RemoveFileMissingPath => CommandView::RemoveFileMissingPath,
            Command::ListFiles => CommandView::ListFiles,
            Command::ClearFiles => CommandView::ClearFiles,
            Command::UnknownCommand(s) => CommandView::UnknownCommand(s@),
            Command::Question(s) => CommandView::Question(s@),
        }
    }
}

/// How one line is classified, applying the rules in priority order: blank
/// line, the exact commands, the two prefix commands with their trimmed
/// remainder, the slash fallback, and otherwise a question.
pub open spec fn dispatch_spec(line: Seq<char>) -> CommandView {
    if all_space(line) {
        CommandView::NoOp
    } else if line == "/exit"@ || line == "/quit"@ {
        CommandView::Exit
    } else if line == "/clear"@ {
        CommandView::ClearHistory
    } else if line == "/history"@ {
        CommandView::ShowHistory
    } else if line == "/help"@ {
        CommandView::ShowHelp
    } else if "/add-file "@.is_prefix_of(line) {
        let rest = trim_spec(line.skip("/add-file "@.len() as int));
        if rest.len() == 0 {
            CommandView::AddFileMissingPath
        } else {
            CommandView::AddFile(rest)
        }
    } else if "/remove-file "@.is_prefix_of(line) {
        let rest = trim_spec(line.skip("/remove-file "@.len() as int));
        if rest.len() == 0 {
            CommandView::RemoveFileMissingPath
        } else {
            CommandView::RemoveFile(rest)
        }
    } else if line == "/list-files"@ {
        CommandView::ListFiles
    } else if line == "/clear-files"@ {
        CommandView::ClearFiles
    } else if line[0] == '/' {
        CommandView::UnknownCommand(line)
    } else {
        CommandView::Question(line)
    }
}

/// True when every character of the line is whitespace.
fn line_is_blank(line: &str) -> (r: bool)
    ensures
        r == all_space(line@),
{
    let len = line.unicode_len();
    let mut i: usize = 0;
    while i < len
        invariant
            i <= len,
            len == line@.len(),
            forall|j: int| 0 <= j < i ==> is_space(line@[j]),
        decreases len - i,
    {
        if !is_space_char(line.get_char(i)) {
            return false;
        }
        i = i + 1;
    }
    true
}

/// Classify one line of user input.
pub fn dispatch(line: &str) -> (c: Command)
    ensures
        c@ == dispatch_spec(line@),
{
    if line_is_blank(line) {
        return Command::NoOp;
    }
    if str_eq(line, "/exit") || str_eq(line, "/quit") {
        return Command::Exit;
    }
    if str_eq(line, "/clear") {
        return Command::ClearHistory;
    }
    if str_eq(line, "/history") {
        return Command::ShowHistory;
    }
    if str_eq(line, "/help") {
        return Command::ShowHelp;
    }
    if str_starts_with(line, "/add-file ") {
        proof {
            reveal_strlit("/add-file ");
        }
        let rest = trim(line.substring_char(10, line.unicode_len()));
        if rest.unicode_len() == 0 {
            return Command::AddFileMissingPath;
        } else {
            return Command::AddFile(rest.to_owned());
        }
    }
    if str_starts_with(line, "/remove-file ") {
        proof {
            reveal_strlit("/remove-file ");
        }
        let rest = trim(line.substring_char(13, line.unicode_len()));
        if rest.unicode_len() == 0 {
            return Command::RemoveFileMissingPath;
        } else {
            return Command::RemoveFile(rest.to_owned());
        }
    }
    if str_eq(line, "/list-files") {
        return Command::ListFiles;
    }
    if str_eq(line, "/clear-files") {
        return Command::ClearFiles;
    }
    proof {
        assert(!all_space(line@));
        assert(line@.len() > 0);
    }
    if line.get_char(0) == '/' {
        Command::UnknownCommand(line.to_owned())
    } else {
        Command::Question(line.to_owned())
    }
}

/// True when `p` is a prefix of `s` but shorter than `s`.
pub open spec fn strict_prefix(p: Seq<char>, s: Seq<char>) -> bool {
    p.is_prefix_of(s) && p.len() < s.len()
}

/// The inline hint for a partially typed command: the rest of the first
/// command, in a fixed order, that the line is a strict prefix of. Only
/// lines starting with a slash are hinted.
pub open spec fn hint_spec(line: Seq<char>) -> Option<Seq<char>> {
    if line.len() == 0 || line[0] != '/' {
        None
    } else if strict_prefix(line, "/exit"@) {
        Some("/exit"@.skip(line.len() as int))
    } else if strict_prefix(line, "/quit"@) {
        Some("/quit"@.skip(line.len() as int))
    } else if strict_prefix(line, "/clear"@) {
        Some("/clear"@.skip(line.len() as int))
    } else if strict_prefix(line, "/history"@) {
        Some("/history"@.skip(line.len() as int))
    } else if strict_prefix(line, "/help"@) {
        Some("/help"@.skip(line.len() as int))
    } else if strict_prefix(line, "/add-file"@) {
        Some("/add-file"@.skip(line.len() as int))
    } else if strict_prefix(line, "/remove-file"@) {
        Some("/remove-file"@.skip(line.len() as int))
    } else if strict_prefix(line, "/list-files"@) {
        Some("/list-files"@.skip(line.len() as int))
    } else if strict_prefix(line, "/clear-files"@) {
        Some("/clear-files"@.skip(line.len() as int))
    } else {
        None
    }
}

/// When the line is a strict prefix of `cmd`, the rest of `cmd`.
fn hint_against(line: &str, cmd: &'static str) -> (r: Option<&'static str>)
    ensures
        match r {
            Some(rest) => strict_prefix(line@, cmd@) && rest@ == cmd@.skip(line@.len() as int),
            None => !strict_prefix(line@, cmd@),
        },
{
    let llen = line.unicode_len();
    let clen = cmd.unicode_len();
    if str_starts_with(cmd, line) && llen < clen {
        Some(cmd.substring_char(llen, clen))
    } else {
        None
    }
}

/// The inline hint for a partially typed command.
pub fn hint_for(line: &str) -> (r: Option<String>)
    ensures
        match r {
            Some(rest) => hint_spec(line@) == Some(rest@),
            None => hint_spec(line@) is None,
        },
{
    if line.unicode_len() == 0 || line.get_char(0) != '/' {
        return None;
    }
    if let Some(rest) = hint_against(line, "/exit") {
        return Some(rest.to_owned());
    }
    if let Some(rest) = hint_against(line, "/quit") {
        return Some(rest.to_owned());
    }
    if let Some(rest) = hint_against(line, "/clear") {
        return Some(rest.to_owned());
    }
    if let Some(rest) = hint_against(line, "/history") {
        return Some(rest.to_owned());
    }
    if let Some(rest) = hint_against(line, "/help") {
        return Some(rest.to_owned());
    }
    if let Some(rest) = hint_against(line, "/add-file") {
        return Some(rest.to_owned());
    }
    if let Some(rest) = hint_against(line, "/remove-file") {
        return Some(rest.to_owned());
    }
    if let Some(rest) = hint_against(line, "/list-files") {
        return Some(rest.to_owned());
    }
    if let Some(rest) = hint_against(line, "/clear-files") {
        return Some(rest.to_owned());
    }
    None
}

/// The one completion candidate a command contributes: itself, when the
/// typed text (already without its leading slash) is a prefix of the
/// command without its slash.
pub open spec fn completion_candidate(cmd: Seq<char>, input: Seq<char>) -> Seq<Seq<char>> {
    if input.is_prefix_of(cmd.drop_first()) {
        seq![cmd]
    } else {
        Seq::empty()
    }
}

/// All completion candidates for the typed text, in a fixed order. The
/// two path commands complete with their trailing space.
pub open spec fn completions_spec(input: Seq<char>) -> Seq<Seq<char>> {
    completion_candidate("/exit"@, input) + completion_candidate("/quit"@, input)
        + completion_candidate("/clear"@, input) + completion_candidate("/history"@, input)
        + completion_candidate("/help"@, input) + completion_candidate("/add-file "@, input)
        + completion_candidate("/remove-file "@, input) + completion_candidate(
        "/list-files"@,
        input,
    ) + completion_candidate("/clear-files"@, input)
}

/// Append a command's completion candidate, if any.
fn push_candidate(out: &mut Vec<String>, cmd: &'static str, input: &str)
    requires
        cmd@.len() >= 1,
    ensures
        final(out)@.map_values(|s: String| s@) == old(out)@.map_values(|s: String| s@)
            + completion_candidate(cmd@, input@),
{
    let ghost pre = out@.map_values(|s: String| s@);
    let clen = cmd.unicode_len();
    let tail = cmd.substring_char(1, clen);
    proof {
        assert(tail@ =~= cmd@.drop_first());
    }
    if str_starts_with(tail, input) {
        out.push(cmd.to_owned());
        proof {
            assert(out@.map_values(|s: String| s@) =~= pre + seq![cmd@]);
        }
    } else {
        proof {
            assert(out@.map_values(|s: String| s@) =~= pre + Seq::<Seq<char>>::empty());
        }
    }
}

/// All completions for the typed text after its leading slash.
pub fn completions_for(input: &str) -> (r: Vec<String>)
    ensures
        r@.map_values(|s: String| s@) == completions_spec(input@),
{
    let mut out: Vec<String> = Vec::new();
    proof {
        reveal_strlit("/exit");
        reveal_strlit("/quit");
        reveal_strlit("/clear");
        reveal_strlit("/history");
        reveal_strlit("/help");
        reveal_strlit("/add-file ");
        reveal_strlit("/remove-file ");
        reveal_strlit("/list-files");
        reveal_strlit("/clear-files");
    }
    push_candidate(&mut out, "/exit", input);
    push_candidate(&mut out, "/quit", input);
    push_candidate(&mut out, "/clear", input);
    push_candidate(&mut out, "/history", input);
    push_candidate(&mut out, "/help", input);
    push_candidate(&mut out, "/add-file ", input);
    push_candidate(&mut out, "/remove-file ", input);
    push_candidate(&mut out, "/list-files", input);
    push_candidate(&mut out, "/clear-files", input);
    out
}

}

//! The agent's decisions: where its files are, what the system prompt says, when a
//! session ends, and, turn by turn, what to do with each reply of the model
//! (run a tool and ask again, or answer and possibly summarize).
use vstd::prelude::*;

use crate::chat::{conversation, Message, Role};
use crate::commands::{command_in_lines, extract_command, lines};
use crate::json::{extract_json_tool, json_block};
use crate::summary::{needs_summary, text_bytes};
use crate::text::{
    chars_of, concat, concat3, eq_ignore_ascii_case, eq_ignoring_ascii_case, starts_with,
    starts_with_chars, trim, trimmed,
};

verus! {

/// The working directory: the configured one when it is present and not blank,
/// else the user's home directory (`home`), else `/home/user/Documents`.
pub open spec fn home_dir_of(configured: Option<Seq<char>>, home: Option<Seq<char>>) -> Seq<char> {
    match configured {
        Some(p) if trimmed(p).len() > 0 => p,
        _ => match home {
            Some(h) => h,
            None => "/home/user/Documents"@,
        },
    }
}

/// An optional string by its characters.
pub open spec fn opt_chars(o: Option<String>) -> Option<Seq<char>> {
    match o {
        Some(s) => Some(s@),
        None => None,
    }
}

/// Chooses the working directory (see `home_dir_of`); `home` is the user's home
/// directory when one is known.
pub fn resolve_home_dir(configured: &Option<String>, home: Option<String>) -> (r: String)
    ensures
        r@ == home_dir_of(opt_chars(*configured), opt_chars(home)),
{
    match configured {
        Some(p) => {
            let t = trim(p.as_str());
            if !t.as_str().is_empty() {
                return String::from_str(p.as_str());
            }
        },
        None => {},
    }
    match home {
        Some(h) => h,
        None => String::from_str("/home/user/Documents"),
    }
}

/// `path` taken relative to `dir`, as `Path::join` does on Unix: an absolute path
/// stands as it is; otherwise a `/` is put between the two unless `dir` is empty or
/// already ends with one.
pub open spec fn joined_path(dir: Seq<char>, path: Seq<char>) -> Seq<char> {
    if starts_with(path, "/"@) {
        path
    } else if dir.len() == 0 || dir.last() == '/' {
        dir + path
    } else {
        dir + "/"@ + path
    }
}

/// Resolves a configured file path against the working directory (see `joined_path`).
pub fn resolve_path(dir: &str, path: &str) -> (r: String)
    ensures
        r@ == joined_path(dir@, path@),
{
    let p = chars_of(path);
    let slash = chars_of("/");
    if starts_with_chars(&p, &slash) {
        return String::from_str(path);
    }
    let d = chars_of(dir);
    if d.len() == 0 || d[d.len() - 1] == '/' {
        concat(dir, path)
    } else {
        concat3(dir, "/", path)
    }
}

/// The system prompt: the main prompt and the long-term context, each trimmed,
/// separated by a blank line.
pub fn compose_system_prompt(main_prompt: &str, context: &str) -> (r: String)
    ensures
        r@ == trimmed(main_prompt@) + "\n\n"@ + trimmed(context@),
{
    let m = trim(main_prompt);
    let c = trim(context);
    concat3(m.as_str(), "\n\n", c.as_str())
}

/// The first message of a conversation: the system prompt.
pub fn opening_messages(system_prompt: String) -> (r: Vec<Message>)
    ensures
        conversation(r@) == seq![(Role::System, system_prompt@)],
{
    let mut r: Vec<Message> = Vec::new();
    r.push(Message::new(Role::System, system_prompt));
    assert(conversation(r@) =~= seq![(Role::System, system_prompt@)]);
    r
}

/// A line typed by the user ends the session when, trimmed, it is `quit` or `exit`
/// in any ASCII case.
pub open spec fn is_exit_line(line: Seq<char>) -> bool {
    eq_ignore_ascii_case(trimmed(line), "quit"@) || eq_ignore_ascii_case(trimmed(line), "exit"@)
}

/// What a line typed by the user amounts to.
pub enum UserInput {
    /// End the session.
    Exit,
    /// Ask the model; holds the trimmed line.
    Prompt(String),
}

/// Takes a line typed by the user: `quit` or `exit` (any case, surrounding blanks
/// ignored) ends the session and leaves the conversation as it was; anything else is
/// trimmed and appended as a user message.
pub fn take_user_line(messages: &mut Vec<Message>, line: &str) -> (r: UserInput)
    ensures
        is_exit_line(line@) ==> r is Exit && conversation(final(messages)@) == conversation(
            old(messages)@,
        ),
        !is_exit_line(line@) ==> (r matches UserInput::Prompt(t) && t@ == trimmed(line@))
            && conversation(final(messages)@) == conversation(old(messages)@).push(
            (Role::User, trimmed(line@)),
        ),
{
    let t = trim(line);
    let tc = chars_of(t.as_str());
    let quit = chars_of("quit");
    let exit = chars_of("exit");
    if eq_ignoring_ascii_case(&tc, &quit) || eq_ignoring_ascii_case(&tc, &exit) {
        return UserInput::Exit;
    }
    let ghost before = conversation(messages@);
    let shown = String::from_str(t.as_str());
    messages.push(Message::new(Role::User, t));
    assert(conversation(messages@) =~= before.push((Role::User, trimmed(line@))));
    UserInput::Prompt(shown)
}

/// A request for a persistent terminal session found in a reply.
pub enum SessionRequest {
    /// Run `command` in the session `name`.
    Run { name: String, command: String },
    /// Close the session `name`.
    End { name: String },
}

/// What happened since the last step of a turn.
pub enum TurnEvent {
    /// The user interrupted generation.
    Interrupted,
    /// The model replied with this text.
    Reply(String),
}

/// A session request by its text.
pub enum SessionView {
    Run(Seq<char>, Seq<char>),
    End(Seq<char>),
}

impl View for SessionRequest {
    type V = SessionView;

    open spec fn view(&self) -> SessionView {
        match self {
            SessionRequest::Run { name, command } => SessionView::Run(name@, command@),
            SessionRequest::End { name } => SessionView::End(name@),
        }
    }
}

/// An optional session request by its text.
pub open spec fn session_view(s: Option<SessionRequest>) -> Option<SessionView> {
    match s {
        Some(r) => Some(r@),
        None => None,
    }
}

/// What to do next in a turn.
pub enum TurnAction {
    /// Stop the turn with this answer (generation was interrupted).
    Stopped(String),
    /// Run the JSON tool call with this text, then ask the model again.
    RunJsonTool(String),
    /// Run `command` in the terminal session `name`, then ask the model again.
    RunInSession { name: String, command: String },
    /// Close the terminal session `name`, then ask the model again.
    EndSession(String),
    /// Run this shell command (subject to the safety filter), then ask again.
    RunCommand(String),
    /// Answer the user with `text`; summarize the conversation first when `summarize`.
    Answer { text: String, summarize: bool },
}

/// A turn action by its text.
pub enum TurnView {
    Stopped(Seq<char>),
    RunJsonTool(Seq<char>),
    RunInSession(Seq<char>, Seq<char>),
    EndSession(Seq<char>),
    RunCommand(Seq<char>),
    Answer(Seq<char>, bool),
}

impl View for TurnAction {
    type V = TurnView;

    open spec fn view(&self) -> TurnView {
        match self {
            TurnAction::Stopped(t) => TurnView::Stopped(t@),
            TurnAction::RunJsonTool(t) => TurnView::RunJsonTool(t@),
            TurnAction::RunInSession { name, command } => TurnView::RunInSession(name@, command@),
            TurnAction::EndSession(n) => TurnView::EndSession(n@),
            TurnAction::RunCommand(c) => TurnView::RunCommand(c@),
            TurnAction::Answer { text, summarize } => TurnView::Answer(text@, *summarize),
        }
    }
}

/// What a reply asks for: a `<json>` tool call, else the session request, else a
/// `COMMAND:` line, else it is the answer (`summarize` tells whether to summarize).
pub open spec fn reply_action(text: Seq<char>, session: Option<SessionView>, summarize: bool) -> TurnView {
    if json_block(text) is Some {
        TurnView::RunJsonTool(json_block(text)->0)
    } else if session is Some {
        match session->0 {
            SessionView::Run(n, c) => TurnView::RunInSession(n, c),
            SessionView::End(n) => TurnView::EndSession(n),
        }
    } else if command_in_lines(lines(text)) is Some {
        TurnView::RunCommand(command_in_lines(lines(text))->0)
    } else {
        TurnView::Answer(text, summarize)
    }
}

/// Decides the next step of a turn. An interruption stops the turn with
/// `[Generation stopped by user]`. A reply is appended to the conversation as an
/// assistant message and then looked at for, in this order: a `<json>` tool call, a
/// session request (as found by the caller in the reply), a `COMMAND:` line; with
/// none of these it is the answer, and the conversation is to be summarized when its
/// text is over `threshold` bytes.
pub fn turn_step(
    messages: &mut Vec<Message>,
    threshold: usize,
    event: TurnEvent,
    session: Option<SessionRequest>,
) -> (r: TurnAction)
    ensures
        match event {
            TurnEvent::Interrupted => r@ == TurnView::Stopped("[Generation stopped by user]"@)
                && conversation(final(messages)@) == conversation(old(messages)@),
            TurnEvent::Reply(text) => conversation(final(messages)@) == conversation(
                old(messages)@,
            ).push((Role::Assistant, text@)) && r@ == reply_action(
                text@,
                session_view(session),
                text_bytes(conversation(final(messages)@)) > threshold,
            ),
        },
{
    match event {
        TurnEvent::Interrupted => TurnAction::Stopped(
            String::from_str("[Generation stopped by user]"),
        ),
        TurnEvent::Reply(text) => {
            let ghost before = conversation(messages@);
            let kept = String::from_str(text.as_str());
            messages.push(Message::new(Role::Assistant, text));
            assert(conversation(messages@) =~= before.push((Role::Assistant, kept@)));
            if let Some(j) = extract_json_tool(kept.as_str()) {
                return TurnAction::RunJsonTool(j);
            }
            match session {
                Some(SessionRequest::Run { name, command }) => {
                    return TurnAction::RunInSession { name, command };
                },
                Some(SessionRequest::End { name }) => {
                    return TurnAction::EndSession(name);
                },
                None => {},
            }
            if let Some(c) = extract_command(kept.as_str()) {
                return TurnAction::RunCommand(c);
            }
            let summarize = needs_summary(messages, threshold);
            TurnAction::Answer { text: kept, summarize }
        },
    }
}

} // verus!

//! The console producer: parses an operator's slash command and decides what
//! the bot does with it — reply, publish into the hub, run a privileged
//! action, or refuse. The embedding binary performs the chosen action (sends,
//! shell execution, system probes) and feeds results back through the
//! verified formatters here.

use vstd::prelude::*;
use vstd::string::{StrSliceExecFns, StringExecFns};

use crate::bot::TGStatus;
use crate::text::{
    starts_with_str, str_eq, strip_repeated_prefix_spec, trim_spec, trim_str,
};

verus! {

/// The commands the console accepts.
#[derive(Clone, Copy, PartialEq, Eq, Structural, Debug)]
pub enum Command {
    /// Display the command list.
    Help,
    /// Display the current chat identifier.
    ChatId,
    /// Time since the bot started.
    Uptime,
    /// Greet and show the chat identifier.
    Start,
    /// Mock an incoming alert message and broadcast it.
    Mock,
    /// Shut the process down (administrator only).
    Exit,
    /// Run a shell command (administrator only).
    Shell,
    /// Measure system performance.
    Metrics,
    /// Show the processes using the most processor and memory.
    Top,
    /// Show information on one process.
    Peek,
}

/// Whether `s` invokes the command named `name`: it is the bare name, or the
/// name followed by a space and the arguments.
pub open spec fn is_cmd(s: Seq<char>, name: Seq<char>) -> bool {
    s == name || (s.len() > name.len() && s.subrange(0, name.len() as int) == name && s[
        name.len() as int
    ] == ' ')
}

/// Which command a message text invokes, if any.
pub open spec fn command_of(s: Seq<char>) -> Option<Command> {
    if is_cmd(s, "/help"@) {
        Some(Command::Help)
    } else if is_cmd(s, "/chatid"@) {
        Some(Command::ChatId)
    } else if is_cmd(s, "/uptime"@) {
        Some(Command::Uptime)
    } else if is_cmd(s, "/start"@) {
        Some(Command::Start)
    } else if is_cmd(s, "/mock"@) {
        Some(Command::Mock)
    } else if is_cmd(s, "/exit"@) {
        Some(Command::Exit)
    } else if is_cmd(s, "/shell"@) {
        Some(Command::Shell)
    } else if is_cmd(s, "/metrics"@) {
        Some(Command::Metrics)
    } else if is_cmd(s, "/top"@) {
        Some(Command::Top)
    } else if is_cmd(s, "/peek"@) {
        Some(Command::Peek)
    } else {
        None
    }
}

/// Checks whether `s` invokes the command named `name`.
fn matches_cmd(s: &str, name: &str) -> (r: bool)
    ensures
        r == is_cmd(s@, name@),
{
    if str_eq(s, name) {
        return true;
    }
    let ns = s.unicode_len();
    let nn = name.unicode_len();
    if starts_with_str(s, name) && ns > nn {
        s.get_char(nn) == ' '
    } else {
        false
    }
}

/// Parses a message text into the command it invokes.
pub fn parse_command(text: &str) -> (r: Option<Command>)
    ensures
        r == command_of(text@),
{
    if matches_cmd(text, "/help") {
        Some(Command::Help)
    } else if matches_cmd(text, "/chatid") {
        Some(Command::ChatId)
    } else if matches_cmd(text, "/uptime") {
        Some(Command::Uptime)
    } else if matches_cmd(text, "/start") {
        Some(Command::Start)
    } else if matches_cmd(text, "/mock") {
        Some(Command::Mock)
    } else if matches_cmd(text, "/exit") {
        Some(Command::Exit)
    } else if matches_cmd(text, "/shell") {
        Some(Command::Shell)
    } else if matches_cmd(text, "/metrics") {
        Some(Command::Metrics)
    } else if matches_cmd(text, "/top") {
        Some(Command::Top)
    } else if matches_cmd(text, "/peek") {
        Some(Command::Peek)
    } else {
        None
    }
}

/// Removes every leading repetition of `p` from `s`.
fn strip_repeated_prefix(s: &str, p: &str) -> (r: String)
    ensures
        r@ == strip_repeated_prefix_spec(s@, p@),
    decreases s@.len(),
{
    let np = p.unicode_len();
    if np == 0 {
        return s.to_owned();
    }
    let ns = s.unicode_len();
    if starts_with_str(s, p) {
        let rest = s.substring_char(np, ns);
        proof {
            assert(rest@ =~= s@.skip(np as int));
        }
        strip_repeated_prefix(rest, p)
    } else {
        s.to_owned()
    }
}

/// The argument a command text carries: what remains after stripping the
/// `prefix` repetitions and the surrounding whitespace, unless that is empty
/// or still the bare command name.
pub open spec fn arg_of(s: Seq<char>, prefix: Seq<char>, bare: Seq<char>) -> Option<Seq<char>> {
    let t = trim_spec(strip_repeated_prefix_spec(s, prefix));
    if t.len() == 0 || t == bare {
        None
    } else {
        Some(t)
    }
}

/// Extracts a command's argument text.
pub fn command_arg(text: &str, prefix: &str, bare: &str) -> (r: Option<String>)
    ensures
        match r {
            Some(a) => arg_of(text@, prefix@, bare@) == Some(a@),
            None => arg_of(text@, prefix@, bare@) is None,
        },
{
    let stripped = strip_repeated_prefix(text, prefix);
    let t = trim_str(stripped.as_str());
    if t.as_str().unicode_len() == 0 {
        return None;
    }
    if str_eq(t.as_str(), bare) {
        return None;
    }
    Some(t)
}

/// What the bot does in response to one parsed command.
#[derive(Debug)]
pub enum CommandAction {
    /// Reply with the generated command list.
    ShowHelp,
    /// Reply with the given text.
    Reply { text: String },
    /// Publish the given text into the broadcast hub.
    Publish { text: String },
    /// Reply with the given text, then shut the process down.
    Exit { reply: String },
    /// Refuse a privileged command with the given reply.
    Unauthorized { reply: String },
    /// Run the given shell command and reply with its formatted output.
    RunShell { cmd: String },
    /// Reply with the time since the bot started.
    ReportUptime,
    /// Gather and reply with the system metrics.
    CollectMetrics,
    /// Gather and reply with the busiest processes.
    CollectTop,
    /// Gather and reply with information on the named process.
    CollectPeek { name: String },
}

/// Decides what one command does, given who sent it and the full message
/// text. Privileged commands are refused unless the sender is the
/// administrator; `Mock` and `Shell` demand an argument and otherwise ask for
/// one.
pub fn plan_command(cmd: &Command, chat_id: &str, text: &str, status: &TGStatus) -> (r:
    CommandAction)
    ensures
        match cmd {
            Command::Help => r is ShowHelp,
            Command::ChatId => (r matches CommandAction::Reply { text: t } && t@
                == "Your chat id is: "@ + chat_id@),
            Command::Uptime => r is ReportUptime,
            Command::Start => (r matches CommandAction::Reply { text: t } && t@
                == "Here is Botte, your `chat id` is: "@ + chat_id@),
            Command::Mock => match arg_of(text@, "/mock "@, "/mock"@) {
                Some(a) => r matches CommandAction::Publish { text: t } && t@ == a,
                None => r matches CommandAction::Reply { text: t } && t@
                    == "Please provide a message to mock."@,
            },
            Command::Exit => if status.is_admin_spec(chat_id@) {
                r matches CommandAction::Exit { reply } && reply@ == "Shutting down..."@
            } else {
                r matches CommandAction::Unauthorized { reply } && reply@
                    == "You are not authorized to use this command."@
            },
            Command::Shell => if !status.is_admin_spec(chat_id@) {
                r matches CommandAction::Unauthorized { reply } && reply@
                    == "You are not authorized to use this command."@
            } else {
                match arg_of(text@, "/shell "@, "/shell"@) {
                    Some(a) => r matches CommandAction::RunShell { cmd: c } && c@ == a,
                    None => r matches CommandAction::Reply { text: t } && t@
                        == "Please provide a shell command."@,
                }
            },
            Command::Metrics => r is CollectMetrics,
            Command::Top => r is CollectTop,
            Command::Peek => match arg_of(text@, "/peek "@, "/peek"@) {
                Some(a) => r matches CommandAction::CollectPeek { name } && name@ == a,
                None => r is CollectTop,
            },
        },
{
    match cmd {
        Command::Help => CommandAction::ShowHelp,
        Command::ChatId => {
            let mut t: String = "Your chat id is: ".to_owned();
            t.append(chat_id);
            CommandAction::Reply { text: t }
        },
        Command::Uptime => CommandAction::ReportUptime,
        Command::Start => {
            let mut t: String = "Here is Botte, your `chat id` is: ".to_owned();
            t.append(chat_id);
            CommandAction::Reply { text: t }
        },
        Command::Mock => match command_arg(text, "/mock ", "/mock") {
            Some(a) => CommandAction::Publish { text: a },
            None => CommandAction::Reply { text: "Please provide a message to mock.".to_owned() },
        },
        Command::Exit => {
            if status.is_admin(chat_id) {
                CommandAction::Exit { reply: "Shutting down...".to_owned() }
            } else {
                CommandAction::Unauthorized {
                    reply: "You are not authorized to use this command.".to_owned(),
                }
            }
        },
        Command::Shell => {
            if !status.is_admin(chat_id) {
                CommandAction::Unauthorized {
                    reply: "You are not authorized to use this command.".to_owned(),
                }
            } else {
                match command_arg(text, "/shell ", "/shell") {
                    Some(a) => CommandAction::RunShell { cmd: a },
                    None => CommandAction::Reply {
                        text: "Please provide a shell command.".to_owned(),
                    },
                }
            }
        },
        Command::Metrics => CommandAction::CollectMetrics,
        Command::Top => CommandAction::CollectTop,
        Command::Peek => match command_arg(text, "/peek ", "/peek") {
            Some(a) => CommandAction::CollectPeek { name: a },
            None => CommandAction::CollectTop,
        },
    }
}

/// The HTML reply sent after a shell command: who ran what, where, and the
/// command's output. `cmd` is expected to be already escaped for the chat
/// client's HTML parse mode.
pub fn format_shell_reply(user: &str, host: &str, cmd: &str, output: &str) -> (r: String)
    ensures
        r@ == ((((((("<b>"@ + user@) + "@"@) + host@) + "</b> &gt; <code>"@) + cmd@)
            + "</code>\n<pre>"@) + output@) + "</pre>"@,
{
    let mut t: String = "<b>".to_owned();
    t.append(user);
    t.append("@");
    t.append(host);
    t.append("</b> &gt; <code>");
    t.append(cmd);
    t.append("</code>\n<pre>");
    t.append(output);
    t.append("</pre>");
    t
}

} // verus!

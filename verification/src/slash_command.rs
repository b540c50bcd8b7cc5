//! The slash commands: which command a line of input names, and what its
//! argument asks for.

use vstd::prelude::*;
use crate::command_catalog::palette_command_list;
use crate::helpers::{fork_args, opt_view, parse_fork_args};
use crate::input::{slash_parts, split_slash_command};
use crate::keys::{eq_ignore_ascii_case, eq_ignore_case_str};
use crate::slash::{export_format, export_format_of};
use crate::slash_args::{
    brain_command, brain_of, brain_view, city_command, city_shows_board, fleet_command, fleet_of,
    fleet_view, is_seat_op, lsp_command, lsp_of, mail_command, mail_of, mail_view,
    marshal_command, marshal_of, marshal_view, moot_command, moot_of, moot_view, names_seat_op,
    prompt_args, prompt_parts, route_command, route_of, route_view, seat_op, seat_op_of,
    seat_op_view, skill_pack_command, skill_pack_of, skill_pack_view, trust_command, trust_of,
    BrainCmd, FleetCmd, LspCmd, MailCmd, MarshalCmd, MootCmd, RouteCmd, SeatOp, SkillPackCmd,
    TrustCmd,
};
use crate::text::{spec_to_lowercase, str_eq, to_lowercase, trim, trim_str};

verus! {

/// What `/seat <arg>` asks for: a seat operation, or a change to the bound
/// seat (read by the seat store).
#[derive(Clone, Debug, PartialEq, Eq)]
pub enum SeatArg<S> {
    Op(SeatOp<S>),
    Identity(S),
}

/// What `/provider` (or `/login`) asks for.
#[derive(Clone, Debug, PartialEq, Eq)]
pub enum ProviderArg<S> {
    /// Open the provider picker.
    Picker,
    /// List the providers.
    List,
    /// Select or connect this provider (lowercased).
    Select(S),
}

/// A slash command with its argument read. `S` holds text, `L` a list of
/// names.
#[derive(Clone, Debug, PartialEq, Eq)]
pub enum SlashCommand<S, L> {
    Help,
    Keys,
    /// Show the theme, or set the one named.
    Theme(Option<S>),
    Settings,
    Route(RouteCmd<S>),
    /// `/history` with its argument (list, search or recall).
    History(S),
    /// Show the title, or rename the session.
    Rename(Option<S>),
    Clear,
    /// `/goal` with its argument.
    Goal(S),
    Handoff,
    Seat(SeatArg<S>),
    Beads { ready: bool },
    Worker(Option<S>),
    Marshal(MarshalCmd<S>),
    Mail(MailCmd<S>),
    Wish(Option<S>),
    Moot(MootCmd<S>),
    Laurels,
    City { board: bool },
    Fleet(FleetCmd<S>),
    Detach,
    Brain(BrainCmd<S>),
    Laurel(Option<S>),
    /// `/context` with its argument.
    Context(S),
    Commands,
    Skills,
    Skill(Option<S>),
    Prompt { name: S, args: S },
    Reload,
    Mode(Option<S>),
    Sessions,
    /// Export in this format.
    Export(S),
    /// The argument names no format: the message refusing it.
    ExportRefused(S),
    Trust(TrustCmd),
    Compact,
    Revert,
    New,
    Fork { at: Option<usize>, label: Option<S> },
    Timeline,
    Image(Option<S>),
    Lsp(LspCmd),
    SkillPack(SkillPackCmd<S, L>),
    Model(Option<S>),
    Provider(ProviderArg<S>),
    Tree,
    Output,
    /// No command has this name.
    Unknown(S),
}

/// The text, or nothing when it is empty.
pub open spec fn nonempty(s: Seq<char>) -> Option<Seq<char>> {
    if s.len() == 0 {
        None
    } else {
        Some(s)
    }
}

/// The string, or nothing when it is empty.
fn nonempty_str(s: String) -> (r: Option<String>)
    ensures
        opt_view(r) == nonempty(s@),
{
    if s.as_str().is_empty() {
        None
    } else {
        Some(s)
    }
}

/// The character sequences a seat argument holds.
pub open spec fn seat_arg_view(a: SeatArg<String>) -> SeatArg<Seq<char>> {
    match a {
        SeatArg::Op(op) => SeatArg::Op(seat_op_view(op)),
        SeatArg::Identity(s) => SeatArg::Identity(s@),
    }
}

/// The character sequences a provider argument holds.
pub open spec fn provider_view(a: ProviderArg<String>) -> ProviderArg<Seq<char>> {
    match a {
        ProviderArg::Picker => ProviderArg::Picker,
        ProviderArg::List => ProviderArg::List,
        ProviderArg::Select(s) => ProviderArg::Select(s@),
    }
}

/// The character sequences a slash command holds.
pub open spec fn command_view(c: SlashCommand<String, Vec<String>>) -> SlashCommand<
    Seq<char>,
    Seq<Seq<char>>,
> {
    match c {
        SlashCommand::Help => SlashCommand::Help,
        SlashCommand::Keys => SlashCommand::Keys,
        SlashCommand::Theme(o) => SlashCommand::Theme(opt_view(o)),
        SlashCommand::Settings => SlashCommand::Settings,
        SlashCommand::Route(r) => SlashCommand::Route(route_view(r)),
        SlashCommand::History(s) => SlashCommand::History(s@),
        SlashCommand::Rename(o) => SlashCommand::Rename(opt_view(o)),
        SlashCommand::Clear => SlashCommand::Clear,
        SlashCommand::Goal(s) => SlashCommand::Goal(s@),
        SlashCommand::Handoff => SlashCommand::Handoff,
        SlashCommand::Seat(a) => SlashCommand::Seat(seat_arg_view(a)),
        SlashCommand::Beads { ready } => SlashCommand::Beads { ready },
        SlashCommand::Worker(o) => SlashCommand::Worker(opt_view(o)),
        SlashCommand::Marshal(m) => SlashCommand::Marshal(marshal_view(m)),
        SlashCommand::Mail(m) => SlashCommand::Mail(mail_view(m)),
        SlashCommand::Wish(o) => SlashCommand::Wish(opt_view(o)),
        SlashCommand::Moot(m) => SlashCommand::Moot(moot_view(m)),
        SlashCommand::Laurels => SlashCommand::Laurels,
        SlashCommand::City { board } => SlashCommand::City { board },
        SlashCommand::Fleet(f) => SlashCommand::Fleet(fleet_view(f)),
        SlashCommand::Detach => SlashCommand::Detach,
        SlashCommand::Brain(b) => SlashCommand::Brain(brain_view(b)),
        SlashCommand::Laurel(o) => SlashCommand::Laurel(opt_view(o)),
        SlashCommand::Context(s) => SlashCommand::Context(s@),
        SlashCommand::Commands => SlashCommand::Commands,
        SlashCommand::Skills => SlashCommand::Skills,
        SlashCommand::Skill(o) => SlashCommand::Skill(opt_view(o)),
        SlashCommand::Prompt { name, args } => SlashCommand::Prompt { name: name@, args: args@ },
        SlashCommand::Reload => SlashCommand::Reload,
        SlashCommand::Mode(o) => SlashCommand::Mode(opt_view(o)),
        SlashCommand::Sessions => SlashCommand::Sessions,
        SlashCommand::Export(f) => SlashCommand::Export(f@),
        SlashCommand::ExportRefused(e) => SlashCommand::ExportRefused(e@),
        SlashCommand::Trust(t) => SlashCommand::Trust(t),
        SlashCommand::Compact => SlashCommand::Compact,
        SlashCommand::Revert => SlashCommand::Revert,
        SlashCommand::New => SlashCommand::New,
        SlashCommand::Fork { at, label } => SlashCommand::Fork { at, label: opt_view(label) },
        SlashCommand::Timeline => SlashCommand::Timeline,
        SlashCommand::Image(o) => SlashCommand::Image(opt_view(o)),
        SlashCommand::Lsp(l) => SlashCommand::Lsp(l),
        SlashCommand::SkillPack(p) => SlashCommand::SkillPack(skill_pack_view(p)),
        SlashCommand::Model(o) => SlashCommand::Model(opt_view(o)),
        SlashCommand::Provider(p) => SlashCommand::Provider(provider_view(p)),
        SlashCommand::Tree => SlashCommand::Tree,
        SlashCommand::Output => SlashCommand::Output,
        SlashCommand::Unknown(s) => SlashCommand::Unknown(s@),
    }
}


/// The command a name and argument ask for; the argument is already
/// trimmed. A name no command has is `Unknown`.
pub open spec fn command_named(cmd: Seq<char>, arg: Seq<char>) -> SlashCommand<
    Seq<char>,
    Seq<Seq<char>>,
> {
    if cmd == "/help"@ {
        SlashCommand::Help
    } else if cmd == "/keys"@ {
        SlashCommand::Keys
    } else if cmd == "/theme"@ {
        SlashCommand::Theme(nonempty(arg))
    } else if cmd == "/settings"@ {
        SlashCommand::Settings
    } else if cmd == "/route"@ || cmd == "/handoff-route"@ {
        SlashCommand::Route(route_of(arg))
    } else if cmd == "/history"@ {
        SlashCommand::History(arg)
    } else if cmd == "/rename"@ {
        SlashCommand::Rename(nonempty(arg))
    } else if cmd == "/clear"@ {
        SlashCommand::Clear
    } else if cmd == "/goal"@ {
        SlashCommand::Goal(arg)
    } else if cmd == "/handoff"@ {
        SlashCommand::Handoff
    } else if cmd == "/seat"@ {
        SlashCommand::Seat(
            if names_seat_op(arg) {
                SeatArg::Op(seat_op_of(trim(arg)))
            } else {
                SeatArg::Identity(arg)
            },
        )
    } else if cmd == "/beads"@ {
        SlashCommand::Beads { ready: spec_to_lowercase(trim(arg)) == "ready"@ }
    } else if cmd == "/worker"@ {
        SlashCommand::Worker(nonempty(trim(arg)))
    } else if cmd == "/marshal"@ {
        SlashCommand::Marshal(marshal_of(arg))
    } else if cmd == "/mail"@ {
        SlashCommand::Mail(mail_of(arg))
    } else if cmd == "/wish"@ {
        SlashCommand::Wish(nonempty(trim(arg)))
    } else if cmd == "/moot"@ {
        SlashCommand::Moot(moot_of(arg))
    } else if cmd == "/laurels"@ {
        SlashCommand::Laurels
    } else if cmd == "/city"@ {
        SlashCommand::City { board: city_shows_board(arg) }
    } else if cmd == "/fleet"@ {
        SlashCommand::Fleet(fleet_of(arg))
    } else if cmd == "/detach"@ {
        SlashCommand::Detach
    } else if cmd == "/brain"@ {
        SlashCommand::Brain(brain_of(arg))
    } else if cmd == "/laurel"@ {
        SlashCommand::Laurel(nonempty(trim(arg)))
    } else if cmd == "/context"@ {
        SlashCommand::Context(arg)
    } else if cmd == "/commands"@ {
        SlashCommand::Commands
    } else if cmd == "/skills"@ {
        SlashCommand::Skills
    } else if cmd == "/skill"@ {
        SlashCommand::Skill(nonempty(arg))
    } else if cmd == "/prompt"@ || cmd == "/p"@ {
        SlashCommand::Prompt { name: prompt_parts(arg).0, args: prompt_parts(arg).1 }
    } else if cmd == "/reload"@ {
        SlashCommand::Reload
    } else if cmd == "/mode"@ {
        SlashCommand::Mode(nonempty(arg))
    } else if cmd == "/sessions"@ {
        SlashCommand::Sessions
    } else if cmd == "/export"@ {
        match export_format_of(arg) {
            Ok(f) => SlashCommand::Export(f),
            Err(e) => SlashCommand::ExportRefused(e),
        }
    } else if cmd == "/trust"@ {
        SlashCommand::Trust(trust_of(arg))
    } else if cmd == "/compact"@ {
        SlashCommand::Compact
    } else if cmd == "/revert"@ {
        SlashCommand::Revert
    } else if cmd == "/new"@ {
        SlashCommand::New
    } else if cmd == "/fork"@ {
        SlashCommand::Fork { at: fork_args(arg).0, label: fork_args(arg).1 }
    } else if cmd == "/timeline"@ {
        SlashCommand::Timeline
    } else if cmd == "/image"@ {
        SlashCommand::Image(nonempty(arg))
    } else if cmd == "/lsp"@ {
        SlashCommand::Lsp(lsp_of(arg))
    } else if cmd == "/skill-pack"@ {
        SlashCommand::SkillPack(skill_pack_of(arg))
    } else if cmd == "/model"@ {
        SlashCommand::Model(nonempty(arg))
    } else if cmd == "/provider"@ || cmd == "/login"@ {
        SlashCommand::Provider(
            if arg.len() == 0 {
                ProviderArg::Picker
            } else if eq_ignore_ascii_case(arg, "list"@) {
                ProviderArg::List
            } else {
                ProviderArg::Select(spec_to_lowercase(arg))
            },
        )
    } else if cmd == "/tree"@ {
        SlashCommand::Tree
    } else if cmd == "/output"@ {
        SlashCommand::Output
    } else {
        SlashCommand::Unknown(cmd)
    }
}

/// The command a line of input names, if it is a slash command (see
/// `slash_parts` for how the line splits into name and argument).
pub open spec fn command_of(text: Seq<char>) -> Option<SlashCommand<Seq<char>, Seq<Seq<char>>>> {
    match slash_parts(text) {
        Some((cmd, arg)) => Some(command_named(cmd, arg)),
        None => None,
    }
}

/// Reads the command a name and (trimmed) argument ask for.
pub fn command_for(cmd: String, arg: String) -> (r: SlashCommand<String, Vec<String>>)
    ensures
        command_view(r) == command_named(cmd@, arg@),
{
    let c = cmd.as_str();
    if str_eq(c, "/help") {
        return SlashCommand::Help;
    }
    if str_eq(c, "/keys") {
        return SlashCommand::Keys;
    }
    if str_eq(c, "/theme") {
        return SlashCommand::Theme(nonempty_str(arg));
    }
    if str_eq(c, "/settings") {
        return SlashCommand::Settings;
    }
    if str_eq(c, "/route") || str_eq(c, "/handoff-route") {
        return SlashCommand::Route(route_command(arg.as_str()));
    }
    if str_eq(c, "/history") {
        return SlashCommand::History(arg);
    }
    if str_eq(c, "/rename") {
        return SlashCommand::Rename(nonempty_str(arg));
    }
    if str_eq(c, "/clear") {
        return SlashCommand::Clear;
    }
    if str_eq(c, "/goal") {
        return SlashCommand::Goal(arg);
    }
    if str_eq(c, "/handoff") {
        return SlashCommand::Handoff;
    }
    if str_eq(c, "/seat") {
        if is_seat_op(arg.as_str()) {
            let raw = trim_str(arg.as_str());
            return SlashCommand::Seat(SeatArg::Op(seat_op(raw.as_str())));
        }
        return SlashCommand::Seat(SeatArg::Identity(arg));
    }
    if str_eq(c, "/beads") {
        let t = trim_str(arg.as_str());
        let l = to_lowercase(t.as_str());
        return SlashCommand::Beads { ready: str_eq(l.as_str(), "ready") };
    }
    if str_eq(c, "/worker") {
        return SlashCommand::Worker(nonempty_str(trim_str(arg.as_str())));
    }
    if str_eq(c, "/marshal") {
        return SlashCommand::Marshal(marshal_command(arg.as_str()));
    }
    if str_eq(c, "/mail") {
        return SlashCommand::Mail(mail_command(arg.as_str()));
    }
    if str_eq(c, "/wish") {
        return SlashCommand::Wish(nonempty_str(trim_str(arg.as_str())));
    }
    if str_eq(c, "/moot") {
        return SlashCommand::Moot(moot_command(arg.as_str()));
    }
    if str_eq(c, "/laurels") {
        return SlashCommand::Laurels;
    }
    if str_eq(c, "/city") {
        return SlashCommand::City { board: city_command(arg.as_str()) };
    }
    if str_eq(c, "/fleet") {
        return SlashCommand::Fleet(fleet_command(arg.as_str()));
    }
    if str_eq(c, "/detach") {
        return SlashCommand::Detach;
    }
    if str_eq(c, "/brain") {
        return SlashCommand::Brain(brain_command(arg.as_str()));
    }
    if str_eq(c, "/laurel") {
        return SlashCommand::Laurel(nonempty_str(trim_str(arg.as_str())));
    }
    if str_eq(c, "/context") {
        return SlashCommand::Context(arg);
    }
    if str_eq(c, "/commands") {
        return SlashCommand::Commands;
    }
    if str_eq(c, "/skills") {
        return SlashCommand::Skills;
    }
    if str_eq(c, "/skill") {
        return SlashCommand::Skill(nonempty_str(arg));
    }
    if str_eq(c, "/prompt") || str_eq(c, "/p") {
        let (name, args) = prompt_args(arg.as_str());
        return SlashCommand::Prompt { name, args };
    }
    if str_eq(c, "/reload") {
        return SlashCommand::Reload;
    }
    if str_eq(c, "/mode") {
        return SlashCommand::Mode(nonempty_str(arg));
    }
    if str_eq(c, "/sessions") {
        return SlashCommand::Sessions;
    }
    if str_eq(c, "/export") {
        return match export_format(arg.as_str()) {
            Ok(f) => SlashCommand::Export(f.to_string()),
            Err(e) => SlashCommand::ExportRefused(e),
        };
    }
    if str_eq(c, "/trust") {
        return SlashCommand::Trust(trust_command(arg.as_str()));
    }
    if str_eq(c, "/compact") {
        return SlashCommand::Compact;
    }
    if str_eq(c, "/revert") {
        return SlashCommand::Revert;
    }
    if str_eq(c, "/new") {
        return SlashCommand::New;
    }
    if str_eq(c, "/fork") {
        let (at, label) = parse_fork_args(arg.as_str());
        return SlashCommand::Fork { at, label };
    }
    if str_eq(c, "/timeline") {
        return SlashCommand::Timeline;
    }
    if str_eq(c, "/image") {
        return SlashCommand::Image(nonempty_str(arg));
    }
    if str_eq(c, "/lsp") {
        return SlashCommand::Lsp(lsp_command(arg.as_str()));
    }
    if str_eq(c, "/skill-pack") {
        return SlashCommand::SkillPack(skill_pack_command(arg.as_str()));
    }
    if str_eq(c, "/model") {
        return SlashCommand::Model(nonempty_str(arg));
    }
    if str_eq(c, "/provider") || str_eq(c, "/login") {
        if arg.as_str().is_empty() {
            return SlashCommand::Provider(ProviderArg::Picker);
        }
        if eq_ignore_case_str(arg.as_str(), "list") {
            return SlashCommand::Provider(ProviderArg::List);
        }
        return SlashCommand::Provider(ProviderArg::Select(to_lowercase(arg.as_str())));
    }
    if str_eq(c, "/tree") {
        return SlashCommand::Tree;
    }
    if str_eq(c, "/output") {
        return SlashCommand::Output;
    }
    SlashCommand::Unknown(cmd)
}

/// The command a line of input names, if it is a slash command.
pub fn parse_slash_command(text: &str) -> (r: Option<SlashCommand<String, Vec<String>>>)
    ensures
        (match r {
            Some(c) => Some(command_view(c)),
            None => None,
        }) == command_of(text@),
{
    match split_slash_command(text) {
        Some((cmd, arg)) => Some(command_for(cmd, arg)),
        None => None,
    }
}


/// Every command the command palette offers is one the dispatcher knows,
/// whatever argument follows it.
pub proof fn lemma_palette_commands_known(i: int, arg: Seq<char>)
    requires
        0 <= i < palette_command_list().len(),
    ensures
        !(command_named(palette_command_list()[i], arg) is Unknown),
{
}

} // verus!


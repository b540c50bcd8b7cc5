use rs_agent::slash_args::{
    brain_command, city_command, fleet_command, is_seat_op, lsp_command, mail_command, marshal_command, moot_command,
    prompt_args, route_command, seat_op, skill_pack_command, split_ws_str, strip_prefix_str, trust_command,
    word_at_str, words_str, BrainCmd, FleetCmd, LspCmd, MailCmd, MarshalCmd, MootCmd, RouteCmd, SeatOp, SeatVerb,
    SkillPackCmd, TrustCmd,
};
use rs_agent::slash_command::{parse_slash_command, ProviderArg, SeatArg, SlashCommand};

fn s(x: &str) -> String {
    x.to_string()
}

#[test]
fn strip_and_split_helpers() {
    assert_eq!(strip_prefix_str("ack 42", "ack "), Some(s("42")));
    assert_eq!(strip_prefix_str("ack", "ack "), None);
    assert_eq!(split_ws_str("to  body text"), (s("to"), Some(s(" body text"))));
    assert_eq!(split_ws_str("single"), (s("single"), None));
    assert_eq!(split_ws_str(" lead"), (s(""), Some(s("lead"))));
    assert_eq!(word_at_str("  a  b c ", 1), Some(s("b")));
    assert_eq!(word_at_str("a", 1), None);
    assert_eq!(words_str(" x y\tz "), vec![s("x"), s("y"), s("z")]);
}

#[test]
fn seat_ops_read_verb_case_insensitively_and_keep_seat_casing() {
    assert_eq!(seat_op(""), SeatOp::Board);
    assert_eq!(seat_op("  STATUS "), SeatOp::Board);
    assert_eq!(seat_op("board"), SeatOp::Board);
    assert_eq!(seat_op("Detach"), SeatOp::Detach);
    assert_eq!(seat_op("abort"), SeatOp::Abort);
    assert_eq!(seat_op("Follow Fleet-1"), SeatOp::Target(SeatVerb::Follow, s("Fleet-1")));
    assert_eq!(seat_op("attach Crew-2 extra"), SeatOp::Target(SeatVerb::Attach, s("Crew-2")));
    assert_eq!(seat_op("inspect Mayor"), SeatOp::Target(SeatVerb::Open, s("Mayor")));
    assert_eq!(seat_op("open Mayor"), SeatOp::Target(SeatVerb::Open, s("Mayor")));
    assert_eq!(seat_op("log Fleet-2"), SeatOp::Target(SeatVerb::Logs, s("Fleet-2")));
    assert_eq!(seat_op("logs Fleet-2"), SeatOp::Target(SeatVerb::Logs, s("Fleet-2")));
    assert_eq!(seat_op("Steer  Keep Going  now "), SeatOp::Steer(s("Keep Going  now")));
    assert_eq!(seat_op("follow"), SeatOp::Usage);
    assert_eq!(seat_op("dance"), SeatOp::Usage);
}

#[test]
fn seat_op_classification_of_seat_arguments() {
    assert!(is_seat_op(""));
    assert!(is_seat_op(" Status "));
    assert!(is_seat_op("follow x"));
    assert!(is_seat_op("LOG x"));
    assert!(is_seat_op("abort"));
    assert!(!is_seat_op("Fleet-1"));
    assert!(!is_seat_op("role tester"));
    assert!(!is_seat_op("follow"));
}

#[test]
fn route_takes_seat_then_reason() {
    assert_eq!(route_command(""), RouteCmd::Usage);
    assert_eq!(route_command("mayor"), RouteCmd::Route { to: s("mayor"), reason: s("routed from TUI") });
    assert_eq!(
        route_command("mayor  needs   review now"),
        RouteCmd::Route { to: s("mayor"), reason: s("needs review now") }
    );
}

#[test]
fn mail_sub_commands() {
    assert_eq!(mail_command(""), MailCmd::Inbox);
    assert_eq!(mail_command(" inbox "), MailCmd::Inbox);
    assert_eq!(mail_command("read"), MailCmd::Inbox);
    assert_eq!(mail_command("ack  m-7 "), MailCmd::Ack(s("m-7")));
    assert_eq!(mail_command("send mayor  hello there "), MailCmd::Send { to: s("mayor"), body: s("hello there") });
    assert_eq!(mail_command("send mayor"), MailCmd::SendUsage);
    assert_eq!(mail_command("delete all"), MailCmd::Usage);
}

#[test]
fn moot_sub_commands() {
    assert_eq!(moot_command(""), MootCmd::List);
    assert_eq!(moot_command("list"), MootCmd::List);
    assert_eq!(moot_command("open  naming rules "), MootCmd::Open(s("naming rules")));
    assert_eq!(moot_command("append mt-1  I agree "), MootCmd::Append { id: s("mt-1"), text: s("I agree") });
    assert_eq!(moot_command("close mt-1 settled it"), MootCmd::Close { id: s("mt-1"), summary: Some(s("settled it")) });
    assert_eq!(moot_command("close mt-1"), MootCmd::Close { id: s("mt-1"), summary: None });
    assert_eq!(moot_command("show mt-2"), MootCmd::Show(s("mt-2")));
    assert_eq!(moot_command("vote"), MootCmd::Usage);
}

#[test]
fn marshal_sub_commands() {
    assert_eq!(marshal_command("  "), MarshalCmd::Run);
    assert_eq!(marshal_command("assign b-1 Fleet-1"), MarshalCmd::Assign { bead: s("b-1"), seat: s("Fleet-1") });
    assert_eq!(marshal_command("assign b-1"), MarshalCmd::AssignUsage);
    assert_eq!(marshal_command("go"), MarshalCmd::Usage);
}

#[test]
fn brain_sub_commands() {
    assert_eq!(brain_command("remember  tests live in tests/ "), BrainCmd::Remember(s("tests live in tests/")));
    assert_eq!(brain_command("remember"), BrainCmd::RememberUsage);
    assert_eq!(brain_command("rememberthis"), BrainCmd::Remember(s("this")));
    assert_eq!(brain_command("falsify old rule"), BrainCmd::Falsify(s("old rule")));
    assert_eq!(brain_command("ledger"), BrainCmd::Ledger);
    assert_eq!(brain_command(""), BrainCmd::Facts);
    assert_eq!(brain_command("what"), BrainCmd::Facts);
}

#[test]
fn lsp_trust_and_city_arguments() {
    assert_eq!(lsp_command(""), LspCmd::Status);
    assert_eq!(lsp_command("start now"), LspCmd::Start);
    assert_eq!(lsp_command(" stop"), LspCmd::Stop);
    assert_eq!(lsp_command("restart"), LspCmd::Usage);
    assert_eq!(trust_command(""), TrustCmd::List);
    assert_eq!(trust_command("list"), TrustCmd::List);
    assert_eq!(trust_command("clear"), TrustCmd::Reset);
    assert_eq!(trust_command("reset everything"), TrustCmd::Reset);
    assert_eq!(trust_command("add"), TrustCmd::Usage);
    assert!(city_command(" Board "));
    assert!(city_command("text"));
    assert!(!city_command(""));
    assert!(!city_command("panel"));
}

#[test]
fn prompt_and_skill_pack_arguments() {
    assert_eq!(prompt_args("review  src/lib.rs  fast "), (s("review"), s("src/lib.rs  fast")));
    assert_eq!(prompt_args("review"), (s("review"), s("")));
    assert_eq!(
        skill_pack_command("export"),
        SkillPackCmd::Export { names: vec![], out: s("skills-pack.zip") }
    );
    assert_eq!(
        skill_pack_command("export rust docs"),
        SkillPackCmd::Export { names: vec![s("rust"), s("docs")], out: s("rust-skills.zip") }
    );
    assert_eq!(skill_pack_command("import pack.zip"), SkillPackCmd::Import(s("pack.zip")));
    assert_eq!(skill_pack_command("import"), SkillPackCmd::ImportUsage);
    assert_eq!(skill_pack_command("list"), SkillPackCmd::Usage);
}

#[test]
fn fleet_sub_commands() {
    assert_eq!(fleet_command(""), FleetCmd::Panel);
    assert_eq!(fleet_command("Panel"), FleetCmd::Panel);
    assert_eq!(fleet_command("status"), FleetCmd::Status);
    assert_eq!(fleet_command("down"), FleetCmd::Down(None));
    assert_eq!(fleet_command("DOWN Fleet-1"), FleetCmd::Down(Some(s("fleet-1"))));
    assert_eq!(fleet_command("up"), FleetCmd::UpDefault);
    assert_eq!(fleet_command("up  "), FleetCmd::UpDefault);
    assert_eq!(fleet_command("Up Fleet-3,Crew-1"), FleetCmd::Up(s("Fleet-3,Crew-1")));
    assert_eq!(fleet_command("follow Fleet-1"), FleetCmd::Seat(SeatOp::Target(SeatVerb::Follow, s("Fleet-1"))));
    assert_eq!(fleet_command("wander"), FleetCmd::Seat(SeatOp::Usage));
}

#[test]
fn slash_command_dispatch() {
    assert_eq!(parse_slash_command("hello"), None);
    assert_eq!(parse_slash_command("  "), None);
    assert_eq!(parse_slash_command("/help"), Some(SlashCommand::Help));
    assert_eq!(parse_slash_command("  /keys  "), Some(SlashCommand::Keys));
    assert_eq!(parse_slash_command("/theme"), Some(SlashCommand::Theme(None)));
    assert_eq!(parse_slash_command("/theme  light "), Some(SlashCommand::Theme(Some(s("light")))));
    assert_eq!(
        parse_slash_command("/handoff-route mayor"),
        Some(SlashCommand::Route(RouteCmd::Route { to: s("mayor"), reason: s("routed from TUI") }))
    );
    assert_eq!(parse_slash_command("/seat status"), Some(SlashCommand::Seat(SeatArg::Op(SeatOp::Board))));
    assert_eq!(parse_slash_command("/seat Fleet-1"), Some(SlashCommand::Seat(SeatArg::Identity(s("Fleet-1")))));
    assert_eq!(parse_slash_command("/beads READY"), Some(SlashCommand::Beads { ready: true }));
    assert_eq!(parse_slash_command("/beads"), Some(SlashCommand::Beads { ready: false }));
    assert_eq!(parse_slash_command("/worker"), Some(SlashCommand::Worker(None)));
    assert_eq!(parse_slash_command("/mail ack 3"), Some(SlashCommand::Mail(MailCmd::Ack(s("3")))));
    assert_eq!(parse_slash_command("/p fix  the bug"), Some(SlashCommand::Prompt { name: s("fix"), args: s("the bug") }));
    assert_eq!(parse_slash_command("/export"), Some(SlashCommand::Export(s("md"))));
    assert_eq!(parse_slash_command("/export HTM"), Some(SlashCommand::Export(s("html"))));
    assert_eq!(
        parse_slash_command("/export pdf"),
        Some(SlashCommand::ExportRefused(s("Unknown export format `pdf`. Use /export [md|json|html]")))
    );
    assert_eq!(parse_slash_command("/fork @3 try b"), Some(SlashCommand::Fork { at: Some(3), label: Some(s("try b")) }));
    assert_eq!(parse_slash_command("/login"), Some(SlashCommand::Provider(ProviderArg::Picker)));
    assert_eq!(parse_slash_command("/provider LIST"), Some(SlashCommand::Provider(ProviderArg::List)));
    assert_eq!(parse_slash_command("/provider OpenRouter"), Some(SlashCommand::Provider(ProviderArg::Select(s("openrouter")))));
    assert_eq!(parse_slash_command("/lsp"), Some(SlashCommand::Lsp(LspCmd::Status)));
    assert_eq!(parse_slash_command("/output"), Some(SlashCommand::Output));
    assert_eq!(parse_slash_command("/frobnicate now"), Some(SlashCommand::Unknown(s("/frobnicate"))));
}

#[test]
fn every_palette_command_is_dispatched() {
    for c in rs_agent::command_catalog::palette_commands() {
        match parse_slash_command(c) {
            Some(SlashCommand::Unknown(name)) => panic!("{name} is not dispatched"),
            Some(_) => {}
            None => panic!("{c} is not a slash command"),
        }
    }
}
